//! The description of a metric group: its fields, its constant labels
//! and the prefix of its metric names.

use vstd::prelude::*;
use crate::error::StorageError;
use crate::labels::ConstLabels;
use crate::metric::{copy_bounds, MetricOpts, OptsView};

verus! {

/// `prometheus::HistogramOpts`, the options of a histogram. They are
/// carried through for the bucket bounds they hold; nothing is known
/// of their values here.
#[verifier::external_type_specification]
#[verifier::external_body]
pub struct ExHistogramOpts(prometheus::HistogramOpts);

/// The character sequences of a sequence of strings.
pub open spec fn texts(strings: Seq<String>) -> Seq<Seq<char>> {
    Seq::new(strings.len(), |i: int| strings[i]@)
}

/// The kind of metric that a field holds.
#[derive(Clone, Copy, Debug, PartialEq, Eq, Structural)]
pub enum MetricKind {
    Counter,
    Gauge,
    Histogram,
    CounterVec,
    GaugeVec,
    HistogramVec,
}

/// The sort of number that a counter or a gauge holds.
#[derive(Clone, Copy, Debug, PartialEq, Eq, Structural)]
pub enum Number {
    Float,
    Integer,
}

/// One metric of a group.
pub struct FieldSpec {
    /// The metric's name, without the subsystem.
    pub name: String,
    /// What the metric measures.
    pub help: String,
    pub kind: MetricKind,
    /// The sort of number, for counters and gauges and their vectors;
    /// histograms do not read it.
    pub number: Number,
    /// The names of the labels whose values vary from one observation
    /// to the next, in the order in which values are given. Vectors
    /// are meant to have at least one, and the other kinds none. A
    /// vector without variable labels is no fault of the schema, and
    /// the metrics library creates it; variable labels on another
    /// kind are refused by the metrics library when the metric is
    /// created.
    pub variable_labels: Vec<String>,
    /// Histogram options whose bucket bounds the metric takes; `None`
    /// for the metrics library's default buckets. Only histograms and
    /// histogram vectors read it.
    pub buckets: Option<prometheus::HistogramOpts>,
}

/// A related set of metrics that are created and registered together.
pub struct MetricGroupSchema {
    /// What tells this kind of group from the other kinds that share
    /// a storage registry.
    pub group_name: String,
    /// The prefix of each metric's name; may be empty.
    pub subsystem: String,
    /// The names of the labels whose values are fixed for each
    /// instance of the group. Their order is that of the values in a
    /// storage key.
    pub const_labels: Vec<String>,
    pub fields: Vec<FieldSpec>,
}

/// The name under which a metric is exported: the subsystem, an
/// underscore and the field's name, or the field's name alone where
/// the subsystem is empty.
pub open spec fn fq_name_spec(subsystem: Seq<char>, name: Seq<char>) -> Seq<char> {
    if subsystem.len() == 0 {
        name
    } else {
        subsystem + seq!['_'] + name
    }
}

/// Computes the name under which a metric is exported.
pub fn fq_name(subsystem: &str, name: &str) -> (full: String)
    ensures
        full@ == fq_name_spec(subsystem@, name@),
{
    if subsystem.is_empty() {
        name.to_owned()
    } else {
        proof {
            reveal_strlit("_");
        }
        let mut full = subsystem.to_owned();
        full.append("_");
        full.append(name);
        assert("_"@ =~= seq!['_']);
        full
    }
}

/// A list of strings with the same texts.
pub fn copy_texts(list: &Vec<String>) -> (same: Vec<String>)
    ensures
        texts(same@) == texts(list@),
{
    let mut same: Vec<String> = Vec::new();
    let mut i: usize = 0;
    while i < list.len()
        invariant
            i <= list@.len(),
            same@.len() == i,
            forall|j: int| 0 <= j < i ==> (#[trigger] same@[j])@ == list@[j]@,
        decreases list@.len() - i,
    {
        same.push(list[i].clone());
        i += 1;
    }
    assert(texts(same@) =~= texts(list@));
    same
}

/// Whether some string of the list occurs in it twice.
pub fn has_duplicates(names: &Vec<String>) -> (twice: bool)
    ensures
        twice == !texts(names@).no_duplicates(),
{
    let mut j: usize = 0;
    while j < names.len()
        invariant
            j <= names@.len(),
            forall|a: int, b: int|
                0 <= a < b < j ==> (#[trigger] texts(names@)[a]) != (#[trigger] texts(names@)[b]),
        decreases names@.len() - j,
    {
        let mut i: usize = 0;
        while i < j
            invariant
                i <= j < names@.len(),
                forall|a: int| 0 <= a < i ==> (#[trigger] texts(names@)[a]) != texts(names@)[j as int],
            decreases j - i,
        {
            if names[i] == names[j] {
                assert(texts(names@)[i as int] == texts(names@)[j as int]);
                return true;
            }
            i += 1;
        }
        j += 1;
    }
    assert forall|a: int, b: int|
        0 <= a < texts(names@).len() && 0 <= b < texts(names@).len() && a != b implies texts(
        names@,
    )[a] != texts(names@)[b] by {
        if a < b {
            assert(texts(names@)[a] != texts(names@)[b]);
        } else {
            assert(texts(names@)[b] != texts(names@)[a]);
        }
    }
    false
}

impl MetricKind {
    /// Whether metrics of this kind come as vectors, one metric for
    /// each list of values of the variable labels.
    pub open spec fn is_vector_spec(self) -> bool {
        self is CounterVec || self is GaugeVec || self is HistogramVec
    }

    /// Whether metrics of this kind come as vectors.
    #[verifier::when_used_as_spec(is_vector_spec)]
    pub fn is_vector(self) -> (vector: bool)
        ensures
            vector == self.is_vector_spec(),
    {
        match self {
            MetricKind::CounterVec | MetricKind::GaugeVec | MetricKind::HistogramVec => true,
            _ => false,
        }
    }

    /// Whether metrics of this kind count observations in buckets.
    pub open spec fn is_histogram_spec(self) -> bool {
        self is Histogram || self is HistogramVec
    }

    /// Whether metrics of this kind count observations in buckets.
    #[verifier::when_used_as_spec(is_histogram_spec)]
    pub fn is_histogram(self) -> (histogram: bool)
        ensures
            histogram == self.is_histogram_spec(),
    {
        match self {
            MetricKind::Histogram | MetricKind::HistogramVec => true,
            _ => false,
        }
    }
}

impl FieldSpec {
    /// A field of the given kind, without variable labels and with the
    /// default buckets.
    pub fn new(kind: MetricKind, name: &str, help: &str) -> (field: FieldSpec)
        ensures
            field.kind == kind,
            field.number == Number::Float,
            field.name@ == name@,
            field.help@ == help@,
            field.variable_labels@.len() == 0,
            field.buckets is None,
    {
        FieldSpec {
            name: name.to_owned(),
            help: help.to_owned(),
            kind,
            number: Number::Float,
            variable_labels: Vec::new(),
            buckets: None,
        }
    }

    /// The field for integers in place of floating point numbers.
    pub fn integer(self) -> (field: FieldSpec)
        ensures
            field.kind == self.kind,
            field.number == Number::Integer,
            field.name == self.name,
            field.help == self.help,
            field.variable_labels == self.variable_labels,
            field.buckets == self.buckets,
    {
        let FieldSpec { name, help, kind, number: _, variable_labels, buckets } = self;
        FieldSpec { name, help, kind, number: Number::Integer, variable_labels, buckets }
    }

    /// The field with one more variable label, behind the others.
    pub fn variable_label(self, label: &str) -> (field: FieldSpec)
        ensures
            field.kind == self.kind,
            field.number == self.number,
            field.name == self.name,
            field.help == self.help,
            field.buckets == self.buckets,
            texts(field.variable_labels@) == texts(self.variable_labels@).push(label@),
    {
        let FieldSpec { name, help, kind, number, mut variable_labels, buckets } = self;
        let ghost before = variable_labels@;
        let label = label.to_owned();
        variable_labels.push(label);
        assert(texts(variable_labels@) =~= texts(before).push(label@));
        FieldSpec { name, help, kind, number, variable_labels, buckets }
    }

    /// The field with the bucket bounds of the given options.
    pub fn buckets(self, bounds: prometheus::HistogramOpts) -> (field: FieldSpec)
        ensures
            field.kind == self.kind,
            field.number == self.number,
            field.name == self.name,
            field.help == self.help,
            field.variable_labels == self.variable_labels,
            field.buckets == Some(bounds),
    {
        let FieldSpec { name, help, kind, number, variable_labels, buckets: _ } = self;
        FieldSpec { name, help, kind, number, variable_labels, buckets: Some(bounds) }
    }

    /// The options that the metric of this field is created from, in
    /// a group with this subsystem and these constant labels: the name
    /// that the subsystem and the field's name give, the field's help
    /// text, the constant labels as they are, the field's variable
    /// labels in their order and, for a histogram or a vector of
    /// histograms, the field's bucket bounds.
    pub open spec fn opts_spec(
        &self,
        subsystem: Seq<char>,
        const_labels: Map<Seq<char>, Seq<char>>,
    ) -> OptsView {
        OptsView {
            name: fq_name_spec(subsystem, self.name@),
            help: self.help@,
            const_labels,
            variable_labels: texts(self.variable_labels@),
            buckets: if self.kind.is_histogram() {
                self.buckets
            } else {
                None
            },
        }
    }

    /// Builds the options that the metric of this field is created
    /// from.
    pub fn opts(&self, subsystem: &str, const_labels: &ConstLabels) -> (opts: MetricOpts)
        ensures
            opts@ == self.opts_spec(subsystem@, const_labels@),
    {
        let buckets = match &self.buckets {
            Some(bounds) => if self.kind.is_histogram() {
                Some(copy_bounds(bounds))
            } else {
                None
            },
            None => None,
        };
        MetricOpts {
            name: fq_name(subsystem, self.name.as_str()),
            help: self.help.clone(),
            const_labels: const_labels.copy(),
            variable_labels: copy_texts(&self.variable_labels),
            buckets,
        }
    }

    /// What is wrong with this field, standing at position `at` of
    /// its schema: a variable label that occurs twice, else an empty
    /// name, else an empty help text.
    pub open spec fn fault(&self, at: usize) -> Option<StorageError> {
        if !texts(self.variable_labels@).no_duplicates() {
            Some(StorageError::DuplicateLabel { among: Some(at) })
        } else if self.name@.len() == 0 {
            Some(StorageError::MissingName { field: at })
        } else if self.help@.len() == 0 {
            Some(StorageError::MissingHelp { field: at })
        } else {
            None
        }
    }

    /// Checks this field, standing at position `at` of its schema.
    pub fn check(&self, at: usize) -> (checked: Result<(), StorageError>)
        ensures
            match checked {
                Ok(()) => self.fault(at) is None,
                Err(e) => self.fault(at) == Some(e),
            },
    {
        if has_duplicates(&self.variable_labels) {
            Err(StorageError::DuplicateLabel { among: Some(at) })
        } else if self.name.as_str().is_empty() {
            Err(StorageError::MissingName { field: at })
        } else if self.help.as_str().is_empty() {
            Err(StorageError::MissingHelp { field: at })
        } else {
            Ok(())
        }
    }
}

/// The fault of the first faulty field among those from position
/// `from` on.
pub open spec fn first_field_fault(fields: Seq<FieldSpec>, from: int) -> Option<StorageError>
    decreases fields.len() - from,
{
    if from < 0 || from >= fields.len() {
        None
    } else if fields[from].fault(from as usize) is Some {
        fields[from].fault(from as usize)
    } else {
        first_field_fault(fields, from + 1)
    }
}

impl MetricGroupSchema {
    /// A schema without constant labels and without fields.
    pub fn new(group_name: &str, subsystem: &str) -> (schema: MetricGroupSchema)
        ensures
            schema.group_name@ == group_name@,
            schema.subsystem@ == subsystem@,
            schema.const_labels@.len() == 0,
            schema.fields@.len() == 0,
    {
        MetricGroupSchema {
            group_name: group_name.to_owned(),
            subsystem: subsystem.to_owned(),
            const_labels: Vec::new(),
            fields: Vec::new(),
        }
    }

    /// The schema with one more constant label, behind the others.
    pub fn const_label(self, label: &str) -> (schema: MetricGroupSchema)
        ensures
            schema.group_name == self.group_name,
            schema.subsystem == self.subsystem,
            schema.fields == self.fields,
            texts(schema.const_labels@) == texts(self.const_labels@).push(label@),
    {
        let MetricGroupSchema { group_name, subsystem, mut const_labels, fields } = self;
        let ghost before = const_labels@;
        let label = label.to_owned();
        const_labels.push(label);
        assert(texts(const_labels@) =~= texts(before).push(label@));
        MetricGroupSchema { group_name, subsystem, const_labels, fields }
    }

    /// The schema with one more field, behind the others.
    pub fn field(self, field: FieldSpec) -> (schema: MetricGroupSchema)
        ensures
            schema.group_name == self.group_name,
            schema.subsystem == self.subsystem,
            schema.const_labels == self.const_labels,
            schema.fields@ == self.fields@.push(field),
    {
        let MetricGroupSchema { group_name, subsystem, const_labels, mut fields } = self;
        fields.push(field);
        MetricGroupSchema { group_name, subsystem, const_labels, fields }
    }

    /// What is wrong with this schema: a constant label that occurs
    /// twice, else the fault of its first faulty field.
    pub open spec fn fault(&self) -> Option<StorageError> {
        if !texts(self.const_labels@).no_duplicates() {
            Some(StorageError::DuplicateLabel { among: None })
        } else {
            first_field_fault(self.fields@, 0)
        }
    }

    /// Checks the schema, the constant labels first and then the
    /// fields in their order.
    pub fn validate(&self) -> (checked: Result<(), StorageError>)
        ensures
            match checked {
                Ok(()) => self.fault() is None,
                Err(e) => self.fault() == Some(e),
            },
    {
        if has_duplicates(&self.const_labels) {
            return Err(StorageError::DuplicateLabel { among: None });
        }
        let mut i: usize = 0;
        while i < self.fields.len()
            invariant
                i <= self.fields@.len(),
                texts(self.const_labels@).no_duplicates(),
                first_field_fault(self.fields@, 0) == first_field_fault(self.fields@, i as int),
            decreases self.fields@.len() - i,
        {
            assert(first_field_fault(self.fields@, i as int) == if self.fields@[i as int].fault(i)
                is Some {
                self.fields@[i as int].fault(i)
            } else {
                first_field_fault(self.fields@, i + 1)
            });
            match self.fields[i].check(i) {
                Ok(()) => {},
                Err(e) => {
                    return Err(e);
                },
            }
            i += 1;
        }
        Ok(())
    }
}

} // verus!
