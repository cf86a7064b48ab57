//! Metric groups: the live metrics of one schema for one set of
//! constant label values.

use vstd::prelude::*;
use crate::error::StorageError;
use crate::labels::{positional, ConstLabels};
use crate::metric::{may_accept, must_accept, options_read, Metric, OptsView};
use crate::registry::{get_or_create_gives, StorageRegistry};
use crate::schema::{texts, MetricGroupSchema};

verus! {

/// The metrics of one instance of a group, one for each field of its
/// schema and in the order of the fields.
#[derive(Debug)]
pub struct MetricGroup {
    pub metrics: Vec<Metric>,
}

/// The options that the metric of the field at position `at` is
/// created from, given these constant label values.
pub open spec fn field_opts(
    schema: &MetricGroupSchema,
    at: int,
    const_labels: Map<Seq<char>, Seq<char>>,
) -> OptsView {
    schema.fields@[at].opts_spec(schema.subsystem@, const_labels)
}

/// Whether the metrics library certainly creates the metric of the
/// field at position `at`, given these constant label values.
pub open spec fn field_must_accept(
    schema: &MetricGroupSchema,
    at: int,
    const_labels: Map<Seq<char>, Seq<char>>,
) -> bool {
    must_accept(schema.fields@[at].kind, field_opts(schema, at, const_labels))
}

/// Whether the metrics library can create the metric of the field at
/// position `at`, given these constant label values.
pub open spec fn field_may_accept(
    schema: &MetricGroupSchema,
    at: int,
    const_labels: Map<Seq<char>, Seq<char>>,
) -> bool {
    may_accept(schema.fields@[at].kind, field_opts(schema, at, const_labels))
}

/// What creating a group of `schema` with these constant label values
/// can give.
///
/// A faulty schema gives its fault. A sound one gives a group that
/// matches it, each metric created from the options of its field, and
/// then the metrics library can create each field's metric; or it
/// gives the metrics library's error for the first field that it
/// refused, which is not one that it certainly creates.
pub open spec fn creation_allows(
    schema: &MetricGroupSchema,
    const_labels: Map<Seq<char>, Seq<char>>,
    made: Result<MetricGroup, StorageError>,
) -> bool {
    match made {
        Ok(group) => {
            &&& schema.fault() is None
            &&& group.matches(schema)
            &&& group.created_from(schema, const_labels)
            &&& forall|i: int|
                0 <= i < schema.fields@.len() ==> #[trigger] field_may_accept(
                    schema,
                    i,
                    const_labels,
                )
        },
        Err(e) => match schema.fault() {
            Some(fault) => e == fault,
            None => {
                &&& e is Metrics
                &&& exists|i: int|
                    {
                        &&& 0 <= i < schema.fields@.len()
                        &&& !#[trigger] field_must_accept(schema, i, const_labels)
                        &&& forall|j: int|
                            0 <= j < i ==> #[trigger] field_may_accept(schema, j, const_labels)
                    }
            },
        },
    }
}

/// What creating a group and registering its metrics can give: what
/// the creation alone can give or, where the group was created and
/// has a metric to register, the refusal of the metrics registry.
pub open spec fn registered_creation_allows(
    schema: &MetricGroupSchema,
    const_labels: Map<Seq<char>, Seq<char>>,
    made: Result<MetricGroup, StorageError>,
) -> bool {
    ||| creation_allows(schema, const_labels, made)
    ||| {
        &&& made matches Err(e)
        &&& e is AlreadyRegistered || e is Metrics
        &&& schema.fault() is None
        &&& schema.fields@.len() > 0
        &&& forall|i: int|
            0 <= i < schema.fields@.len() ==> #[trigger] field_may_accept(schema, i, const_labels)
    }
}

impl MetricGroup {
    /// The group has one metric for each field of the schema, of the
    /// field's kind and sort of number.
    pub open spec fn matches(&self, schema: &MetricGroupSchema) -> bool {
        &&& self.metrics@.len() == schema.fields@.len()
        &&& forall|i: int|
            0 <= i < self.metrics@.len() ==> (#[trigger] self.metrics@[i]).handle.fits(
                schema.fields@[i].kind,
                schema.fields@[i].number,
            )
    }

    /// Each metric of the group holds the options of the field at its
    /// position, with these constant label values.
    pub open spec fn created_from(
        &self,
        schema: &MetricGroupSchema,
        const_labels: Map<Seq<char>, Seq<char>>,
    ) -> bool {
        &&& self.metrics@.len() == schema.fields@.len()
        &&& forall|i: int|
            0 <= i < self.metrics@.len() ==> (#[trigger] self.metrics@[i]).opts@ == field_opts(
                schema,
                i,
                const_labels,
            )
    }

    /// The number of metrics.
    pub fn len(&self) -> (n: usize)
        ensures
            n == self.metrics@.len(),
    {
        self.metrics.len()
    }

    /// The metric of the field at position `at`, if there is one.
    pub fn get(&self, at: usize) -> (metric: Option<&Metric>)
        ensures
            match metric {
                Some(m) => at < self.metrics@.len() && *m == self.metrics@[at as int],
                None => at >= self.metrics@.len(),
            },
    {
        if at < self.metrics.len() {
            Some(&self.metrics[at])
        } else {
            None
        }
    }

    /// Creates the metrics of one instance of the group, and registers
    /// none of them.
    ///
    /// The schema is checked first. Then each field's metric is
    /// created in turn, under the name that the subsystem and the
    /// field's name give, with the field's help text and variable
    /// labels and with all the constant labels given. The first error
    /// ends the work, and the metrics created before it are dropped.
    pub fn from_const_labels_unregistered(
        schema: &MetricGroupSchema,
        const_labels: &ConstLabels,
    ) -> (made: Result<MetricGroup, StorageError>)
        ensures
            creation_allows(schema, const_labels@, made),
    {
        match schema.validate() {
            Ok(()) => {},
            Err(e) => {
                return Err(e);
            },
        }
        let mut metrics: Vec<Metric> = Vec::new();
        let mut i: usize = 0;
        while i < schema.fields.len()
            invariant
                i <= schema.fields@.len(),
                schema.fault() is None,
                metrics@.len() == i,
                forall|j: int|
                    0 <= j < i ==> (#[trigger] metrics@[j]).handle.fits(
                        schema.fields@[j].kind,
                        schema.fields@[j].number,
                    ),
                forall|j: int|
                    0 <= j < i ==> (#[trigger] metrics@[j]).opts@ == field_opts(
                        schema,
                        j,
                        const_labels@,
                    ),
                forall|j: int| 0 <= j < i ==> #[trigger] field_may_accept(schema, j, const_labels@),
            decreases schema.fields@.len() - i,
        {
            let field = &schema.fields[i];
            let opts = field.opts(schema.subsystem.as_str(), const_labels);
            assert(options_read(field.kind, opts@) == opts@);
            match Metric::init(field.kind, field.number, opts) {
                Ok(metric) => {
                    assert(field_may_accept(schema, i as int, const_labels@));
                    metrics.push(metric);
                },
                Err(e) => {
                    assert(!field_must_accept(schema, i as int, const_labels@));
                    return Err(e);
                },
            }
            i += 1;
        }
        Ok(MetricGroup { metrics })
    }

    /// Registers the metrics of the group with the registry, in the
    /// order of the fields, and stops at the first that the registry
    /// refuses. The metrics registered before it stay registered.
    ///
    /// A group without metrics is always registered. For any other the
    /// registry decides, by what it holds: it refuses with
    /// `AlreadyRegistered` a metric whose name and constant label
    /// values it has already.
    pub fn register(&self, registry: &prometheus::Registry) -> (done: Result<(), StorageError>)
        ensures
            self.metrics@.len() == 0 ==> done is Ok,
            done matches Err(e) ==> e is AlreadyRegistered || e is Metrics,
    {
        let mut i: usize = 0;
        while i < self.metrics.len()
            invariant
                i <= self.metrics@.len(),
            decreases self.metrics@.len() - i,
        {
            match StorageError::of_registration(self.metrics[i].handle.register_in(registry)) {
                Ok(()) => {},
                Err(refusal) => {
                    return Err(refusal);
                },
            }
            i += 1;
        }
        Ok(())
    }

    /// Creates the metrics of one instance of the group and registers
    /// them with the registry.
    pub fn from_const_labels(
        registry: &prometheus::Registry,
        schema: &MetricGroupSchema,
        const_labels: &ConstLabels,
    ) -> (made: Result<MetricGroup, StorageError>)
        ensures
            made is Ok ==> creation_allows(schema, const_labels@, made),
            registered_creation_allows(schema, const_labels@, made),
    {
        let group = match MetricGroup::from_const_labels_unregistered(schema, const_labels) {
            Ok(group) => group,
            Err(e) => {
                return Err(e);
            },
        };
        match group.register(registry) {
            Ok(()) => Ok(group),
            Err(e) => Err(e),
        }
    }

    /// Creates the metrics of one instance of the group, from the
    /// values of the constant labels in the order of the schema's
    /// labels, and registers none of them.
    pub fn new_unregistered(schema: &MetricGroupSchema, values: &Vec<String>) -> (made: Result<
        MetricGroup,
        StorageError,
    >)
        ensures
            schema.const_labels@.len() != values@.len() ==> (made matches Err(e)
                && e.is_label_mismatch(
                schema.const_labels@.len() as int,
                values@.len() as int,
                None,
            )),
            schema.const_labels@.len() == values@.len() ==> creation_allows(
                schema,
                positional(
                    texts(schema.const_labels@),
                    texts(values@),
                    schema.const_labels@.len() as int,
                ),
                made,
            ),
    {
        match ConstLabels::from_values(&schema.const_labels, values) {
            Ok(labels) => MetricGroup::from_const_labels_unregistered(schema, &labels),
            Err(e) => Err(e),
        }
    }

    /// Creates the metrics of one instance of the group, from the
    /// values of the constant labels in the order of the schema's
    /// labels, and registers them with the registry.
    pub fn new(
        registry: &prometheus::Registry,
        schema: &MetricGroupSchema,
        values: &Vec<String>,
    ) -> (made: Result<MetricGroup, StorageError>)
        ensures
            schema.const_labels@.len() != values@.len() ==> (made matches Err(e)
                && e.is_label_mismatch(
                schema.const_labels@.len() as int,
                values@.len() as int,
                None,
            )),
            schema.const_labels@.len() == values@.len() ==> registered_creation_allows(
                schema,
                positional(
                    texts(schema.const_labels@),
                    texts(values@),
                    schema.const_labels@.len() as int,
                ),
                made,
            ),
    {
        match ConstLabels::from_values(&schema.const_labels, values) {
            Ok(labels) => MetricGroup::from_const_labels(registry, schema, &labels),
            Err(e) => Err(e),
        }
    }

    /// Gives the group of `schema` with these values of the constant
    /// labels, in the order of the schema's labels, from the storage
    /// registry, which creates it where it is not stored yet.
    pub fn instance<'a>(
        storage: &'a mut StorageRegistry,
        schema: &MetricGroupSchema,
        values: &Vec<String>,
    ) -> (given: Result<&'a MetricGroup, StorageError>)
        ensures
            final(storage).metrics_registry() == old(storage).metrics_registry(),
            schema.const_labels@.len() != values@.len() ==> final(storage)@ == old(storage)@ && (
            given matches Err(e) && e.is_label_mismatch(
                schema.const_labels@.len() as int,
                values@.len() as int,
                None,
            )),
            schema.const_labels@.len() == values@.len() ==> get_or_create_gives(
                old(storage)@,
                schema,
                positional(
                    texts(schema.const_labels@),
                    texts(values@),
                    schema.const_labels@.len() as int,
                ),
                final(storage)@,
                given,
            ),
    {
        match ConstLabels::from_values(&schema.const_labels, values) {
            Ok(labels) => storage.get_or_create_storage(schema, &labels),
            Err(e) => Err(e),
        }
    }
}

} // verus!
