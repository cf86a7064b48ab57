//! Groups of Prometheus metrics described by a schema, and a registry
//! that creates and registers each group exactly once per set of
//! constant label values.
//!
//! A [`schema::MetricGroupSchema`] names the metrics of a group, the
//! prefix of their names and the constant labels that tell the
//! instances of the group apart. [`group::MetricGroup`] creates the
//! metrics of one instance and registers them with a
//! `prometheus::Registry`. A [`registry::StorageRegistry`] wraps such
//! a registry and stores each instance under a key made of the
//! schema's name and the values of the constant labels, so that asking
//! again for an instance gives the stored one instead of registering
//! its metrics a second time.
//!
//! [`declaration`] reads the declaration of a group from the attribute
//! trees of a struct: it is what a derive macro for metric groups
//! decides before it writes any code.

pub mod declaration;
pub mod error;
pub mod group;
pub mod key;
pub mod labels;
pub mod metric;
pub mod registry;
pub mod schema;
