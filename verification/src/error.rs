//! The errors of this library.

use vstd::prelude::*;

verus! {

/// `prometheus::Error`, the error of the metrics library. Nothing is
/// known of its values here.
#[verifier::external_type_specification]
#[verifier::external_body]
pub struct ExMetricsError(prometheus::Error);

/// Why a schema was refused, a group was not created, or a lookup failed.
#[derive(Debug)]
pub enum StorageError {
    /// The field at this position has an empty name.
    MissingName { field: usize },
    /// The field at this position has an empty help text.
    MissingHelp { field: usize },
    /// A label name occurs twice: among the constant labels of the
    /// group (`None`), or among the variable labels of the field at
    /// this position.
    DuplicateLabel { among: Option<usize> },
    /// The label values given do not fit the constant labels of the
    /// schema. `missing` names the first constant label without a
    /// value, where the numbers agree.
    LabelMismatch { expected: usize, actual: usize, missing: Option<String> },
    /// No group is stored under the key.
    NotFound,
    /// The metrics registry already holds a metric with the same
    /// fully-qualified name and constant label values.
    AlreadyRegistered,
    /// Any other error of the metrics library, passed on as it came.
    Metrics(prometheus::Error),
}

impl StorageError {
    /// Whether this is a label mismatch with these numbers and this
    /// missing label.
    pub open spec fn is_label_mismatch(
        &self,
        expected: int,
        actual: int,
        missing: Option<Seq<char>>,
    ) -> bool {
        match self {
            StorageError::LabelMismatch { expected: e, actual: a, missing: m } => {
                &&& *e == expected
                &&& *a == actual
                &&& match (m, missing) {
                    (Some(name), Some(wanted)) => name@ == wanted,
                    (None, None) => true,
                    _ => false,
                }
            },
            _ => false,
        }
    }

    /// Sorts an error of the metrics library: `prometheus::Error::AlreadyReg`
    /// becomes `AlreadyRegistered`, every other variant is kept whole
    /// inside `Metrics`.
    #[verifier::external_body]
    pub(crate) fn from_metrics(error: prometheus::Error) -> (sorted: StorageError)
        ensures
            sorted is AlreadyRegistered || sorted == StorageError::Metrics(error),
    {
        match error {
            prometheus::Error::AlreadyReg => StorageError::AlreadyRegistered,
            other => StorageError::Metrics(other),
        }
    }

    /// What a registration gives, from what the metrics registry
    /// answered: its success, or its error sorted into
    /// `AlreadyRegistered` and the errors that are passed on.
    pub fn of_registration(answer: Result<(), prometheus::Error>) -> (done: Result<
        (),
        StorageError,
    >)
        ensures
            match answer {
                Ok(()) => done is Ok,
                Err(error) => done matches Err(sorted) && (sorted is AlreadyRegistered || sorted
                    == StorageError::Metrics(error)),
            },
    {
        match answer {
            Ok(()) => Ok(()),
            Err(error) => Err(StorageError::from_metrics(error)),
        }
    }

    /// What taking a metric out of the registry gives, from what the
    /// metrics registry answered: its success, or its error passed on
    /// as it came.
    pub fn of_removal(answer: Result<(), prometheus::Error>) -> (done: Result<(), StorageError>)
        ensures
            match answer {
                Ok(()) => done is Ok,
                Err(error) => done == Err::<(), StorageError>(StorageError::Metrics(error)),
            },
    {
        match answer {
            Ok(()) => Ok(()),
            Err(error) => Err(StorageError::Metrics(error)),
        }
    }
}

} // verus!
