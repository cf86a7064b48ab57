//! Constant labels: a finite mapping from label names to label values.

use vstd::prelude::*;
use crate::error::StorageError;
use crate::schema::texts;

verus! {

/// `<str as PartialEq>::eq`, the `==` of string slices: two slices
/// are equal exactly when they hold the same characters.
pub assume_specification[ <str as PartialEq>::eq ](a: &str, b: &str) -> (r: bool)
    ensures
        r == (a@ == b@),
;

/// Whether two string slices hold the same characters.
pub fn same_text(a: &str, b: &str) -> (same: bool)
    ensures
        same == (a@ == b@),
{
    a.eq(b)
}

/// The value that a list of (name, value) pairs gives to `name`: that of
/// the last pair with this name, if there is one.
pub open spec fn lookup(pairs: Seq<(Seq<char>, Seq<char>)>, name: Seq<char>) -> Option<Seq<char>>
    decreases pairs.len(),
{
    if pairs.len() == 0 {
        None
    } else if pairs.last().0 == name {
        Some(pairs.last().1)
    } else {
        lookup(pairs.drop_last(), name)
    }
}

/// No two pairs of the list have the same name.
pub open spec fn distinct_names(pairs: Seq<(Seq<char>, Seq<char>)>) -> bool {
    forall|i: int, j: int|
        0 <= i < pairs.len() && 0 <= j < pairs.len() && i != j ==> (#[trigger] pairs[i]).0
            != (#[trigger] pairs[j]).0
}

/// The mapping that a list of pairs stands for.
pub open spec fn pairs_to_map(pairs: Seq<(Seq<char>, Seq<char>)>) -> Map<Seq<char>, Seq<char>> {
    Map::new(
        |name: Seq<char>| lookup(pairs, name) is Some,
        |name: Seq<char>| lookup(pairs, name)->0,
    )
}

/// Where names are distinct, they are distinct without the last pair
/// too.
pub proof fn lemma_distinct_names_drop_last(pairs: Seq<(Seq<char>, Seq<char>)>)
    requires
        distinct_names(pairs),
        pairs.len() > 0,
    ensures
        distinct_names(pairs.drop_last()),
{
    let rest = pairs.drop_last();
    assert forall|a: int, b: int|
        0 <= a < rest.len() && 0 <= b < rest.len() && a != b implies (#[trigger] rest[a]).0 != (
    #[trigger] rest[b]).0 by {
        assert(pairs[a].0 != pairs[b].0);
    }
}

/// A name has a value exactly when some pair carries it.
pub proof fn lemma_lookup_some(pairs: Seq<(Seq<char>, Seq<char>)>, name: Seq<char>)
    ensures
        lookup(pairs, name) is Some <==> exists|i: int|
            0 <= i < pairs.len() && (#[trigger] pairs[i]).0 == name,
    decreases pairs.len(),
{
    if pairs.len() > 0 {
        let rest = pairs.drop_last();
        lemma_lookup_some(rest, name);
        if pairs.last().0 == name {
            assert(pairs[pairs.len() - 1].0 == name);
        } else if lookup(rest, name) is Some {
            let i = choose|i: int| 0 <= i < rest.len() && (#[trigger] rest[i]).0 == name;
            assert(pairs[i].0 == name);
        } else if exists|i: int| 0 <= i < pairs.len() && (#[trigger] pairs[i]).0 == name {
            let i = choose|i: int| 0 <= i < pairs.len() && (#[trigger] pairs[i]).0 == name;
            assert(rest[i].0 == name);
        }
    }
}

/// Where names are distinct, each pair's name is mapped to that pair's value.
pub proof fn lemma_lookup_at(pairs: Seq<(Seq<char>, Seq<char>)>, i: int)
    requires
        distinct_names(pairs),
        0 <= i < pairs.len(),
    ensures
        lookup(pairs, pairs[i].0) == Some(pairs[i].1),
    decreases pairs.len(),
{
    if i < pairs.len() - 1 {
        let rest = pairs.drop_last();
        assert(pairs[pairs.len() - 1].0 != pairs[i].0);
        lemma_distinct_names_drop_last(pairs);
        lemma_lookup_at(rest, i);
    }
}

/// Appending a pair maps its name to its value and changes nothing else.
pub proof fn lemma_map_push(pairs: Seq<(Seq<char>, Seq<char>)>, name: Seq<char>, value: Seq<char>)
    ensures
        pairs_to_map(pairs.push((name, value))) == pairs_to_map(pairs).insert(name, value),
{
    let longer = pairs.push((name, value));
    assert(longer.drop_last() =~= pairs);
    assert(pairs_to_map(longer) =~= pairs_to_map(pairs).insert(name, value));
}

/// Replacing the value of one pair, where names are distinct, maps the
/// pair's name to the new value and changes nothing else.
pub proof fn lemma_lookup_update(
    pairs: Seq<(Seq<char>, Seq<char>)>,
    i: int,
    value: Seq<char>,
    name: Seq<char>,
)
    requires
        distinct_names(pairs),
        0 <= i < pairs.len(),
    ensures
        lookup(pairs.update(i, (pairs[i].0, value)), name) == (if name == pairs[i].0 {
            Some(value)
        } else {
            lookup(pairs, name)
        }),
    decreases pairs.len(),
{
    let changed = pairs.update(i, (pairs[i].0, value));
    let rest = pairs.drop_last();
    if i == pairs.len() - 1 {
        assert(changed.drop_last() =~= rest);
    } else {
        assert(changed.drop_last() =~= rest.update(i, (rest[i].0, value)));
        assert(changed.last() == pairs.last());
        assert(pairs[pairs.len() - 1].0 != pairs[i].0);
        lemma_distinct_names_drop_last(pairs);
        lemma_lookup_update(rest, i, value, name);
    }
}

/// Where names are distinct, the mapping has as many names as the list has pairs.
pub proof fn lemma_map_len(pairs: Seq<(Seq<char>, Seq<char>)>)
    requires
        distinct_names(pairs),
    ensures
        pairs_to_map(pairs).dom().finite(),
        pairs_to_map(pairs).dom().len() == pairs.len(),
    decreases pairs.len(),
{
    if pairs.len() == 0 {
        assert(pairs_to_map(pairs).dom() =~= Set::<Seq<char>>::empty());
    } else {
        let rest = pairs.drop_last();
        let last = pairs.last();
        lemma_distinct_names_drop_last(pairs);
        lemma_map_len(rest);
        lemma_lookup_some(rest, last.0);
        if lookup(rest, last.0) is Some {
            let i = choose|i: int| 0 <= i < rest.len() && (#[trigger] rest[i]).0 == last.0;
            assert(pairs[i].0 != pairs[pairs.len() - 1].0);
        }
        assert(pairs =~= rest.push(last));
        lemma_map_push(rest, last.0, last.1);
        assert(pairs_to_map(pairs).dom() =~= pairs_to_map(rest).dom().insert(last.0));
    }
}

/// The entries of a vector of owned pairs, as pairs of character sequences.
pub open spec fn pairs_of(entries: Seq<(String, String)>) -> Seq<(Seq<char>, Seq<char>)> {
    Seq::new(entries.len(), |i: int| (entries[i].0@, entries[i].1@))
}

/// The constant labels of one metric group: each name has one value.
#[derive(Debug)]
pub struct ConstLabels {
    pub(crate) entries: Vec<(String, String)>,
}

impl ConstLabels {
    /// The entries as pairs of character sequences, in insertion order.
    closed spec fn pairs(&self) -> Seq<(Seq<char>, Seq<char>)> {
        pairs_of(self.entries@)
    }

    #[verifier::type_invariant]
    spec fn names_are_distinct(&self) -> bool {
        distinct_names(self.pairs())
    }

    /// A mapping without labels.
    pub fn new() -> (labels: Self)
        ensures
            labels@ == Map::<Seq<char>, Seq<char>>::empty(),
    {
        let labels = ConstLabels { entries: Vec::new() };
        assert(labels@ =~= Map::<Seq<char>, Seq<char>>::empty());
        labels
    }

    /// The number of labels.
    pub fn len(&self) -> (n: usize)
        ensures
            self@.dom().finite(),
            n == self@.dom().len(),
    {
        proof {
            use_type_invariant(self);
            lemma_map_len(self.pairs());
        }
        self.entries.len()
    }

    /// Whether there is no label.
    pub fn is_empty(&self) -> (empty: bool)
        ensures
            empty == (self@ == Map::<Seq<char>, Seq<char>>::empty()),
    {
        proof {
            use_type_invariant(self);
            lemma_map_len(self.pairs());
            if self.entries@.len() == 0 {
                assert(self@ =~= Map::<Seq<char>, Seq<char>>::empty());
            }
        }
        self.entries.len() == 0
    }

    /// Where `name` stands among the entries.
    fn position(&self, name: &str) -> (found: Option<usize>)
        ensures
            match found {
                Some(i) => i < self.pairs().len() && self.pairs()[i as int].0 == name@,
                None => !self@.contains_key(name@),
            },
    {
        let mut i: usize = 0;
        while i < self.entries.len()
            invariant
                i <= self.entries@.len(),
                self.pairs() == pairs_of(self.entries@),
                forall|j: int| 0 <= j < i ==> (#[trigger] self.pairs()[j]).0 != name@,
            decreases self.entries@.len() - i,
        {
            if same_text(self.entries[i].0.as_str(), name) {
                return Some(i);
            }
            i += 1;
        }
        proof {
            lemma_lookup_some(self.pairs(), name@);
        }
        None
    }

    /// The value of the label `name`, if it has one.
    pub fn get(&self, name: &str) -> (value: Option<&String>)
        ensures
            match value {
                Some(v) => self@.contains_key(name@) && v@ == self@[name@],
                None => !self@.contains_key(name@),
            },
    {
        match self.position(name) {
            Some(i) => {
                proof {
                    use_type_invariant(self);
                    lemma_lookup_at(self.pairs(), i as int);
                }
                Some(&self.entries[i].1)
            },
            None => None,
        }
    }

    /// Whether the label `name` has a value.
    pub fn contains_key(&self, name: &str) -> (present: bool)
        ensures
            present == self@.contains_key(name@),
    {
        match self.position(name) {
            Some(i) => {
                proof {
                    use_type_invariant(self);
                    lemma_lookup_at(self.pairs(), i as int);
                }
                true
            },
            None => false,
        }
    }

    /// Gives the label `name` the value `value`, and returns the value it
    /// had before, if any.
    pub fn insert(&mut self, name: String, value: String) -> (previous: Option<String>)
        ensures
            final(self)@ == old(self)@.insert(name@, value@),
            match previous {
                Some(v) => old(self)@.contains_key(name@) && v@ == old(self)@[name@],
                None => !old(self)@.contains_key(name@),
            },
    {
        proof {
            use_type_invariant(&*self);
        }
        let ghost before = self.pairs();
        let found = self.position(name.as_str());
        let mut entries: Vec<(String, String)> = Vec::new();
        std::mem::swap(&mut self.entries, &mut entries);
        assert(pairs_of(entries@) == before);
        match found {
            Some(i) => {
                let mut value = value;
                let ghost given = value@;
                std::mem::swap(&mut entries[i].1, &mut value);
                proof {
                    let after = pairs_of(entries@);
                    lemma_lookup_at(before, i as int);
                    assert(after =~= before.update(i as int, (before[i as int].0, given)));
                    assert forall|a: int, b: int|
                        0 <= a < after.len() && 0 <= b < after.len() && a != b implies (
                    #[trigger] after[a]).0 != (#[trigger] after[b]).0 by {
                        assert(before[a].0 != before[b].0);
                    }
                    assert forall|k: Seq<char>|
                        lookup(after, k) == lookup(#[trigger] before.push((name@, given)), k) by {
                        lemma_lookup_update(before, i as int, given, k);
                        assert(before.push((name@, given)).drop_last() =~= before);
                    }
                    lemma_map_push(before, name@, given);
                    assert(pairs_to_map(after) =~= pairs_to_map(before).insert(name@, given));
                }
                self.entries = entries;
                Some(value)
            },
            None => {
                proof {
                    lemma_lookup_some(before, name@);
                    lemma_map_push(before, name@, value@);
                    let after = before.push((name@, value@));
                    assert forall|a: int, b: int|
                        0 <= a < after.len() && 0 <= b < after.len() && a != b implies (
                    #[trigger] after[a]).0 != (#[trigger] after[b]).0 by {
                        if a < before.len() && b < before.len() {
                            assert(before[a].0 != before[b].0);
                        } else if a < before.len() {
                            assert(before[a].0 != name@);
                        } else {
                            assert(before[b].0 != name@);
                        }
                    }
                }
                entries.push((name, value));
                assert(pairs_of(entries@) =~= before.push((name@, value@)));
                self.entries = entries;
                None
            },
        }
    }
}

/// The mapping that gives each of the first `upto` names the value at
/// its own position; of two equal names the later one counts.
pub open spec fn positional(names: Seq<Seq<char>>, values: Seq<Seq<char>>, upto: int) -> Map<
    Seq<char>,
    Seq<char>,
>
    decreases upto,
{
    if upto <= 0 {
        Map::empty()
    } else {
        positional(names, values, upto - 1).insert(names[upto - 1], values[upto - 1])
    }
}

/// Where no name occurs twice, the positional mapping has the first
/// `upto` names as its names, and gives each the value at its
/// position.
pub proof fn lemma_positional(names: Seq<Seq<char>>, values: Seq<Seq<char>>, upto: int)
    requires
        names.no_duplicates(),
        0 <= upto <= names.len(),
    ensures
        positional(names, values, upto).dom().finite(),
        positional(names, values, upto).dom().len() == upto,
        forall|name: Seq<char>|
            positional(names, values, upto).contains_key(name) <==> exists|i: int|
                0 <= i < upto && #[trigger] names[i] == name,
        forall|i: int|
            0 <= i < upto ==> positional(names, values, upto)[#[trigger] names[i]] == values[i],
    decreases upto,
{
    if upto > 0 {
        lemma_positional(names, values, upto - 1);
        let shorter = positional(names, values, upto - 1);
        let last = names[upto - 1];
        assert(!shorter.contains_key(last)) by {
            if shorter.contains_key(last) {
                let i = choose|i: int| 0 <= i < upto - 1 && #[trigger] names[i] == last;
                assert(names[i] != names[upto - 1]);
            }
        }
        assert forall|name: Seq<char>|
            positional(names, values, upto).contains_key(name) <==> exists|i: int|
                0 <= i < upto && #[trigger] names[i] == name by {
            if name == last {
                assert(names[upto - 1] == name);
            } else if shorter.contains_key(name) {
                let i = choose|i: int| 0 <= i < upto - 1 && #[trigger] names[i] == name;
                assert(0 <= i < upto && names[i] == name);
            } else if exists|i: int| 0 <= i < upto && #[trigger] names[i] == name {
                let i = choose|i: int| 0 <= i < upto && #[trigger] names[i] == name;
                assert(0 <= i < upto - 1 && names[i] == name);
            }
        }
        assert forall|i: int| 0 <= i < upto implies positional(names, values, upto)[#[trigger] names[i]]
            == values[i] by {
            if i < upto - 1 {
                assert(names[i] != names[upto - 1]);
            }
        }
    }
}

impl ConstLabels {
    /// The same labels with the same values.
    pub fn copy(&self) -> (same: ConstLabels)
        ensures
            same@ == self@,
    {
        let mut same = ConstLabels::new();
        let mut i: usize = 0;
        proof {
            assert(self.pairs().take(0) =~= Seq::empty());
            assert(pairs_to_map(self.pairs().take(0)) =~= Map::<Seq<char>, Seq<char>>::empty());
        }
        while i < self.entries.len()
            invariant
                i <= self.entries@.len(),
                self.pairs() == pairs_of(self.entries@),
                same@ == pairs_to_map(self.pairs().take(i as int)),
            decreases self.entries@.len() - i,
        {
            proof {
                let sofar = self.pairs().take(i as int);
                let entry = self.pairs()[i as int];
                assert(self.pairs().take(i + 1) =~= sofar.push(entry));
                lemma_map_push(sofar, entry.0, entry.1);
            }
            same.insert(self.entries[i].0.clone(), self.entries[i].1.clone());
            i += 1;
        }
        assert(self.pairs().take(self.entries@.len() as int) =~= self.pairs());
        same
    }

    /// Gives each name the value at its own position.
    pub fn from_values(names: &Vec<String>, values: &Vec<String>) -> (labels: Result<
        ConstLabels,
        StorageError,
    >)
        ensures
            match labels {
                Ok(l) => names@.len() == values@.len() && l@ == positional(
                    texts(names@),
                    texts(values@),
                    names@.len() as int,
                ),
                Err(e) => names@.len() != values@.len() && e.is_label_mismatch(
                    names@.len() as int,
                    values@.len() as int,
                    None,
                ),
            },
    {
        if names.len() != values.len() {
            return Err(
                StorageError::LabelMismatch {
                    expected: names.len(),
                    actual: values.len(),
                    missing: None,
                },
            );
        }
        let mut labels = ConstLabels::new();
        let mut i: usize = 0;
        while i < names.len()
            invariant
                i <= names@.len(),
                names@.len() == values@.len(),
                labels@ == positional(texts(names@), texts(values@), i as int),
            decreases names@.len() - i,
        {
            labels.insert(names[i].clone(), values[i].clone());
            i += 1;
        }
        Ok(labels)
    }
}

impl View for ConstLabels {
    type V = Map<Seq<char>, Seq<char>>;

    closed spec fn view(&self) -> Map<Seq<char>, Seq<char>> {
        pairs_to_map(self.pairs())
    }
}

} // verus!
