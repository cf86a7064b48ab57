//! Storage keys: what identifies one instance of a metric group in a
//! storage registry.

use vstd::prelude::*;
use crate::error::StorageError;
use crate::labels::ConstLabels;
use crate::schema::{texts, MetricGroupSchema};

verus! {

/// The character that stands between the label values inside a
/// storage key.
pub open spec fn separator() -> char {
    '\0'
}

/// The label values of `names`, in the order of `names`, joined by
/// the separator: nothing for no names, the value alone for one name,
/// and a separator between any two values that follow each other.
pub open spec fn joined_values(names: Seq<Seq<char>>, values: Map<Seq<char>, Seq<char>>) -> Seq<
    char,
>
    decreases names.len(),
{
    if names.len() == 0 {
        Seq::empty()
    } else if names.len() == 1 {
        values[names.last()]
    } else {
        joined_values(names.drop_last(), values) + seq![separator()] + values[names.last()]
    }
}

/// The mapping gives a value to each of `names`, and has as many
/// entries as there are names.
pub open spec fn labels_fit(names: Seq<Seq<char>>, values: Map<Seq<char>, Seq<char>>) -> bool {
    &&& values.dom().len() == names.len()
    &&& forall|i: int| 0 <= i < names.len() ==> values.contains_key(#[trigger] names[i])
}

/// The position, from `from` on, of the first name without a value.
pub open spec fn first_missing(
    names: Seq<Seq<char>>,
    values: Map<Seq<char>, Seq<char>>,
    from: int,
) -> Option<int>
    decreases names.len() - from,
{
    if from < 0 || from >= names.len() {
        None
    } else if !values.contains_key(names[from]) {
        Some(from)
    } else {
        first_missing(names, values, from + 1)
    }
}

/// The first of `names` without a value, where the mapping has as
/// many entries as there are names.
pub open spec fn missing_label(names: Seq<Seq<char>>, values: Map<Seq<char>, Seq<char>>) -> Option<
    Seq<char>,
> {
    if values.dom().len() != names.len() {
        None
    } else {
        match first_missing(names, values, 0) {
            Some(at) => Some(names[at]),
            None => None,
        }
    }
}

/// No character of the text is the separator.
pub open spec fn free_of_separator(text: Seq<char>) -> bool {
    forall|i: int| 0 <= i < text.len() ==> text[i] != separator()
}

/// The mapping gives each of `names` a value without a separator.
pub open spec fn values_free_of_separator(
    names: Seq<Seq<char>>,
    values: Map<Seq<char>, Seq<char>>,
) -> bool {
    forall|i: int| 0 <= i < names.len() ==> free_of_separator(#[trigger] values[names[i]])
}

/// What identifies one stored group: the name of its schema and its
/// constant label values.
#[derive(Debug)]
pub struct StorageId {
    pub group_name: String,
    pub values: String,
}

impl View for StorageId {
    type V = (Seq<char>, Seq<char>);

    open spec fn view(&self) -> (Seq<char>, Seq<char>) {
        (self.group_name@, self.values@)
    }
}

/// The key under which the group of `schema` with these label values
/// is stored.
pub open spec fn storage_key(schema: &MetricGroupSchema, values: Map<Seq<char>, Seq<char>>) -> (
    Seq<char>,
    Seq<char>,
) {
    (schema.group_name@, joined_values(texts(schema.const_labels@), values))
}

/// Where no name occurs twice, a finite mapping fits the names exactly
/// when its names are these names.
pub proof fn lemma_labels_fit_iff_same_names(
    names: Seq<Seq<char>>,
    values: Map<Seq<char>, Seq<char>>,
)
    requires
        names.no_duplicates(),
        values.dom().finite(),
    ensures
        labels_fit(names, values) <==> values.dom() == names.to_set(),
{
    names.unique_seq_to_set();
    vstd::seq_lib::seq_to_set_is_finite(names);
    if labels_fit(names, values) {
        assert(names.to_set().subset_of(values.dom())) by {
            assert forall|name: Seq<char>| names.to_set().contains(name) implies values.dom().contains(
                name,
            ) by {
                let i = choose|i: int| 0 <= i < names.len() && names[i] == name;
                assert(values.contains_key(names[i]));
            }
        }
        vstd::set_lib::lemma_subset_equality(names.to_set(), values.dom());
    }
    if values.dom() == names.to_set() {
        assert forall|i: int| 0 <= i < names.len() implies values.contains_key(
            #[trigger] names[i],
        ) by {
            assert(names.to_set().contains(names[i]));
        }
    }
}

/// The joined values are empty for no names, and end otherwise with
/// the value of the last name, which stands alone for one name and
/// behind a separator for more.
pub proof fn lemma_joined_values_end(names: Seq<Seq<char>>, values: Map<Seq<char>, Seq<char>>)
    ensures
        names.len() == 0 ==> joined_values(names, values).len() == 0,
        names.len() == 1 ==> joined_values(names, values) == values[names[0]],
        names.len() > 1 ==> joined_values(names, values) == joined_values(
            names.drop_last(),
            values,
        ) + seq![separator()] + values[names[names.len() - 1]],
{
}

/// The joined values depend only on the values of the names.
pub proof fn lemma_same_values_same_key(
    names: Seq<Seq<char>>,
    first: Map<Seq<char>, Seq<char>>,
    second: Map<Seq<char>, Seq<char>>,
)
    requires
        forall|i: int| 0 <= i < names.len() ==> first[#[trigger] names[i]] == second[names[i]],
    ensures
        joined_values(names, first) == joined_values(names, second),
    decreases names.len(),
{
    if names.len() > 0 {
        let rest = names.drop_last();
        assert forall|i: int| 0 <= i < rest.len() implies first[#[trigger] rest[i]]
            == second[rest[i]] by {
            assert(rest[i] == names[i]);
        }
        lemma_same_values_same_key(rest, first, second);
        assert(first[names[names.len() - 1]] == second[names[names.len() - 1]]);
    }
}

/// Where no value holds the separator, equal joined values come from
/// equal values: the key tells apart any two lists of label values.
pub proof fn lemma_same_key_same_values(
    names: Seq<Seq<char>>,
    first: Map<Seq<char>, Seq<char>>,
    second: Map<Seq<char>, Seq<char>>,
)
    requires
        values_free_of_separator(names, first),
        values_free_of_separator(names, second),
        joined_values(names, first) == joined_values(names, second),
    ensures
        forall|i: int| 0 <= i < names.len() ==> first[#[trigger] names[i]] == second[names[i]],
    decreases names.len(),
{
    if names.len() == 1 {
        assert(names.last() == names[0]);
    } else if names.len() > 1 {
        let rest = names.drop_last();
        let last = names.last();
        let head_a = joined_values(rest, first) + seq![separator()];
        let head_b = joined_values(rest, second) + seq![separator()];
        let value_a = first[last];
        let value_b = second[last];
        let key_a = joined_values(names, first);
        let key_b = joined_values(names, second);
        assert(last == names[names.len() - 1]);
        assert(free_of_separator(value_a));
        assert(free_of_separator(value_b));
        assert(key_a == head_a + value_a);
        assert(key_b == head_b + value_b);
        assert(key_a.len() == head_a.len() + value_a.len());
        assert(key_b.len() == head_b.len() + value_b.len());
        if value_a.len() < value_b.len() {
            let at = head_a.len() - 1;
            assert(key_a[at] == separator());
            assert(key_b[at] == value_b[at - head_b.len()]);
            assert(false);
        }
        if value_b.len() < value_a.len() {
            let at = head_b.len() - 1;
            assert(key_b[at] == separator());
            assert(key_a[at] == value_a[at - head_a.len()]);
            assert(false);
        }
        assert(joined_values(rest, first) =~= key_a.subrange(0, head_a.len() - 1));
        assert(joined_values(rest, second) =~= key_b.subrange(0, head_b.len() - 1));
        assert(value_a =~= key_a.subrange(head_a.len() as int, key_a.len() as int));
        assert(value_b =~= key_b.subrange(head_b.len() as int, key_b.len() as int));
        assert forall|i: int| 0 <= i < rest.len() implies free_of_separator(
            #[trigger] first[rest[i]],
        ) && free_of_separator(second[rest[i]]) by {
            assert(rest[i] == names[i]);
        }
        lemma_same_key_same_values(rest, first, second);
        assert forall|i: int| 0 <= i < names.len() implies first[#[trigger] names[i]]
            == second[names[i]] by {
            if i < rest.len() {
                assert(rest[i] == names[i]);
            }
        }
    }
}

/// Computes the key under which the group of `schema` with the given
/// constant label values is stored. The values must fit the schema's
/// constant labels: as many values as labels, and one for each label.
pub fn make_id(schema: &MetricGroupSchema, const_labels: &ConstLabels) -> (id: Result<
    StorageId,
    StorageError,
>)
    ensures
        match id {
            Ok(id) => labels_fit(texts(schema.const_labels@), const_labels@) && id@ == storage_key(
                schema,
                const_labels@,
            ),
            Err(e) => !labels_fit(texts(schema.const_labels@), const_labels@)
                && e.is_label_mismatch(
                schema.const_labels@.len() as int,
                const_labels@.dom().len() as int,
                missing_label(texts(schema.const_labels@), const_labels@),
            ),
        },
{
    let ghost names = texts(schema.const_labels@);
    let expected = schema.const_labels.len();
    let actual = const_labels.len();
    if expected != actual {
        return Err(StorageError::LabelMismatch { expected, actual, missing: None });
    }
    let mut values = String::new();
    let mut i: usize = 0;
    while i < expected
        invariant
            i <= expected,
            expected == schema.const_labels@.len(),
            names == texts(schema.const_labels@),
            actual == const_labels@.dom().len(),
            expected == actual,
            forall|j: int| 0 <= j < i ==> const_labels@.contains_key(#[trigger] names[j]),
            first_missing(names, const_labels@, 0) == first_missing(names, const_labels@, i as int),
            values@ == joined_values(names.take(i as int), const_labels@),
        decreases expected - i,
    {
        let name = &schema.const_labels[i];
        assert(name@ == names[i as int]);
        match const_labels.get(name.as_str()) {
            Some(value) => {
                proof {
                    reveal_strlit("\0");
                    assert("\0"@ =~= seq![separator()]);
                    assert(names.take(i + 1).drop_last() =~= names.take(i as int));
                    assert(names.take(i + 1).last() == names[i as int]);
                }
                if i > 0 {
                    values.append("\0");
                }
                values.append(value.as_str());
            },
            None => {
                return Err(
                    StorageError::LabelMismatch {
                        expected,
                        actual,
                        missing: Some(name.clone()),
                    },
                );
            },
        }
        i += 1;
    }
    assert(names.take(expected as int) =~= names);
    Ok(StorageId { group_name: schema.group_name.clone(), values })
}

} // verus!
