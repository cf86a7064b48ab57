//! The storage registry: a metrics registry together with the metric
//! groups that were created in it, each stored once under its key.

use vstd::prelude::*;
use crate::error::StorageError;
use crate::group::{creation_allows, registered_creation_allows, MetricGroup};
use crate::key::{
    labels_fit, lemma_labels_fit_iff_same_names, lemma_same_key_same_values, make_id,
    missing_label, storage_key, values_free_of_separator, StorageId,
};
use crate::labels::ConstLabels;
use crate::metric::Metric;
use crate::schema::{texts, MetricGroupSchema};

verus! {

/// A stored group and the key it is stored under.
#[derive(Debug)]
pub struct Storage {
    pub id: StorageId,
    pub group: MetricGroup,
}

/// The group that a list of stored groups holds under `key`: that of
/// the last entry with this key, if there is one.
pub open spec fn find(entries: Seq<Storage>, key: (Seq<char>, Seq<char>)) -> Option<MetricGroup>
    decreases entries.len(),
{
    if entries.len() == 0 {
        None
    } else if entries.last().id@ == key {
        Some(entries.last().group)
    } else {
        find(entries.drop_last(), key)
    }
}

/// No two entries have the same key.
pub open spec fn distinct_keys(entries: Seq<Storage>) -> bool {
    forall|i: int, j: int|
        0 <= i < entries.len() && 0 <= j < entries.len() && i != j ==> (#[trigger] entries[i]).id@
            != (#[trigger] entries[j]).id@
}

/// The mapping from keys to groups that a list of stored groups
/// stands for.
pub open spec fn stored(entries: Seq<Storage>) -> Map<(Seq<char>, Seq<char>), MetricGroup> {
    Map::new(
        |key: (Seq<char>, Seq<char>)| find(entries, key) is Some,
        |key: (Seq<char>, Seq<char>)| find(entries, key)->0,
    )
}

/// Where keys are distinct, they are distinct without the last entry
/// too.
pub proof fn lemma_distinct_keys_drop_last(entries: Seq<Storage>)
    requires
        distinct_keys(entries),
        entries.len() > 0,
    ensures
        distinct_keys(entries.drop_last()),
{
    let rest = entries.drop_last();
    assert forall|a: int, b: int|
        0 <= a < rest.len() && 0 <= b < rest.len() && a != b implies (#[trigger] rest[a]).id@ != (
    #[trigger] rest[b]).id@ by {
        assert(entries[a].id@ != entries[b].id@);
    }
}

/// A key holds a group exactly when some entry carries it.
pub proof fn lemma_find_some(entries: Seq<Storage>, key: (Seq<char>, Seq<char>))
    ensures
        find(entries, key) is Some <==> exists|i: int|
            0 <= i < entries.len() && (#[trigger] entries[i]).id@ == key,
    decreases entries.len(),
{
    if entries.len() > 0 {
        let rest = entries.drop_last();
        lemma_find_some(rest, key);
        if entries.last().id@ == key {
            assert(entries[entries.len() - 1].id@ == key);
        } else if find(rest, key) is Some {
            let i = choose|i: int| 0 <= i < rest.len() && (#[trigger] rest[i]).id@ == key;
            assert(entries[i].id@ == key);
        } else if exists|i: int| 0 <= i < entries.len() && (#[trigger] entries[i]).id@ == key {
            let i = choose|i: int| 0 <= i < entries.len() && (#[trigger] entries[i]).id@ == key;
            assert(rest[i].id@ == key);
        }
    }
}

/// Where keys are distinct, each entry's key holds that entry's group.
pub proof fn lemma_find_at(entries: Seq<Storage>, i: int)
    requires
        distinct_keys(entries),
        0 <= i < entries.len(),
    ensures
        find(entries, entries[i].id@) == Some(entries[i].group),
    decreases entries.len(),
{
    if i < entries.len() - 1 {
        let rest = entries.drop_last();
        assert(entries[entries.len() - 1].id@ != entries[i].id@);
        lemma_distinct_keys_drop_last(entries);
        lemma_find_at(rest, i);
    }
}

/// What a lookup of the group of `schema` with these constant label
/// values gives in a registry that stores `storages`.
///
/// Label values that do not fit the schema give a label mismatch; a
/// key that is not stored gives `NotFound`; a stored key gives its
/// group.
pub open spec fn lookup_gives(
    storages: Map<(Seq<char>, Seq<char>), MetricGroup>,
    schema: &MetricGroupSchema,
    const_labels: Map<Seq<char>, Seq<char>>,
    found: Result<&MetricGroup, StorageError>,
) -> bool {
    let names = texts(schema.const_labels@);
    let key = storage_key(schema, const_labels);
    if !labels_fit(names, const_labels) {
        found matches Err(e) && e.is_label_mismatch(
            names.len() as int,
            const_labels.dom().len() as int,
            missing_label(names, const_labels),
        )
    } else if storages.contains_key(key) {
        found == Ok::<&MetricGroup, StorageError>(&storages[key])
    } else {
        found matches Err(e) && e is NotFound
    }
}

/// What storing the outcome `made` of a creation under `key` does to
/// the stored groups `before`, and what it gives.
///
/// Under a key that is stored already nothing changes and the stored
/// group is given. Else a group that was created is stored and given,
/// and an error is given back with nothing stored.
pub open spec fn insertion_gives(
    before: Map<(Seq<char>, Seq<char>), MetricGroup>,
    key: (Seq<char>, Seq<char>),
    made: Result<MetricGroup, StorageError>,
    after: Map<(Seq<char>, Seq<char>), MetricGroup>,
    given: Result<&MetricGroup, StorageError>,
) -> bool {
    if before.contains_key(key) {
        after == before && given == Ok::<&MetricGroup, StorageError>(&before[key])
    } else {
        match made {
            Ok(group) => after == before.insert(key, group) && given == Ok::<
                &MetricGroup,
                StorageError,
            >(&group),
            Err(e) => after == before && given == Err::<&MetricGroup, StorageError>(e),
        }
    }
}

/// What asking for the group of `schema` with these constant label
/// values, creating it where it is not stored, does to the stored
/// groups `before`, and what it gives.
///
/// Label values that do not fit the schema give a label mismatch and
/// change nothing. A stored key gives its group and changes nothing.
/// Otherwise the group is created and registered: if that succeeds,
/// the group is stored under the key and given; if not, the error is
/// given and nothing is stored.
pub open spec fn get_or_create_gives(
    before: Map<(Seq<char>, Seq<char>), MetricGroup>,
    schema: &MetricGroupSchema,
    const_labels: Map<Seq<char>, Seq<char>>,
    after: Map<(Seq<char>, Seq<char>), MetricGroup>,
    given: Result<&MetricGroup, StorageError>,
) -> bool {
    let names = texts(schema.const_labels@);
    let key = storage_key(schema, const_labels);
    if !labels_fit(names, const_labels) {
        &&& after == before
        &&& given matches Err(e) && e.is_label_mismatch(
            names.len() as int,
            const_labels.dom().len() as int,
            missing_label(names, const_labels),
        )
    } else if before.contains_key(key) {
        &&& after == before
        &&& given == Ok::<&MetricGroup, StorageError>(&before[key])
    } else {
        match given {
            Ok(group) => {
                &&& after == before.insert(key, *group)
                &&& creation_allows(schema, const_labels, Ok(*group))
            },
            Err(e) => {
                &&& after == before
                &&& registered_creation_allows(schema, const_labels, Err(e))
            },
        }
    }
}

/// A metrics registry and the groups created in it. A key, once
/// stored, keeps its group for as long as the registry lives: groups
/// are added, and never removed or replaced.
#[derive(Debug)]
pub struct StorageRegistry {
    registry: prometheus::Registry,
    storages: Vec<Storage>,
}

impl View for StorageRegistry {
    type V = Map<(Seq<char>, Seq<char>), MetricGroup>;

    closed spec fn view(&self) -> Map<(Seq<char>, Seq<char>), MetricGroup> {
        stored(self.storages@)
    }
}

/// `prometheus::Registry::new`: a registry of its own, in which
/// nothing is registered.
#[verifier::external_body]
fn new_metrics_registry() -> prometheus::Registry {
    prometheus::Registry::new()
}

/// `prometheus::Registry::gather`: what the metrics registered at the
/// moment of the call report, as metric families.
#[verifier::external_body]
fn gather_from(registry: &prometheus::Registry) -> Vec<prometheus::proto::MetricFamily> {
    registry.gather()
}

impl StorageRegistry {
    #[verifier::type_invariant]
    spec fn keys_are_distinct(&self) -> bool {
        distinct_keys(self.storages@)
    }

    /// The metrics registry that this registry wraps.
    pub closed spec fn metrics_registry(&self) -> prometheus::Registry {
        self.registry
    }

    /// Wraps a metrics registry. No group is stored yet.
    pub fn new(registry: prometheus::Registry) -> (created: Self)
        ensures
            created@ == Map::<(Seq<char>, Seq<char>), MetricGroup>::empty(),
            created.metrics_registry() == registry,
    {
        let created = StorageRegistry { registry, storages: Vec::new() };
        assert(created@ =~= Map::<(Seq<char>, Seq<char>), MetricGroup>::empty());
        created
    }

    /// The metrics registry that this registry wraps.
    pub fn registry(&self) -> (registry: &prometheus::Registry)
        ensures
            *registry == self.metrics_registry(),
    {
        &self.registry
    }

    /// Gives the metrics registry back. What was known of the stored
    /// groups is lost.
    pub fn into_registry(self) -> (registry: prometheus::Registry)
        ensures
            registry == self.metrics_registry(),
    {
        self.registry
    }

    /// Registers one metric with the metrics registry. The registry
    /// decides, by what it holds; no stored group changes.
    pub fn register(&self, metric: &Metric) -> (done: Result<(), StorageError>)
        ensures
            done matches Err(e) ==> e is AlreadyRegistered || e is Metrics,
    {
        StorageError::of_registration(
            // what the metrics registry answers
            metric.handle.register_in(&self.registry),
        )
    }

    /// Takes one metric out of the metrics registry. The registry
    /// decides, by what it holds; no stored group changes.
    pub fn unregister(&self, metric: &Metric) -> (done: Result<(), StorageError>)
        ensures
            done matches Err(e) ==> e is Metrics,
    {
        StorageError::of_removal(
            // what the metrics registry answers
            metric.handle.unregister_from(&self.registry),
        )
    }

    /// Gathers what all the metrics in the metrics registry report.
    pub fn gather(&self) -> Vec<prometheus::proto::MetricFamily> {
        gather_from(&self.registry)
    }

    /// The number of stored groups.
    pub fn len(&self) -> (n: usize)
        ensures
            self@.dom().finite(),
            n == self@.dom().len(),
    {
        proof {
            use_type_invariant(self);
            lemma_stored_len(self.storages@);
        }
        self.storages.len()
    }

    /// Where the group with this key stands among the stored ones.
    fn position(&self, id: &StorageId) -> (found: Option<usize>)
        ensures
            match found {
                Some(i) => i < self.storages@.len() && self.storages@[i as int].id@ == id@
                    && self@.contains_key(id@) && self@[id@] == self.storages@[i as int].group,
                None => !self@.contains_key(id@),
            },
    {
        let mut i: usize = 0;
        while i < self.storages.len()
            invariant
                i <= self.storages@.len(),
                forall|j: int| 0 <= j < i ==> (#[trigger] self.storages@[j]).id@ != id@,
            decreases self.storages@.len() - i,
        {
            let entry = &self.storages[i];
            if entry.id.group_name == id.group_name && entry.id.values == id.values {
                proof {
                    use_type_invariant(self);
                    lemma_find_at(self.storages@, i as int);
                }
                return Some(i);
            }
            i += 1;
        }
        proof {
            lemma_find_some(self.storages@, id@);
        }
        None
    }

    /// Finds the group of `schema` with the given constant label
    /// values, and creates none.
    pub fn get_storage(&self, schema: &MetricGroupSchema, const_labels: &ConstLabels) -> (found:
        Result<&MetricGroup, StorageError>)
        ensures
            lookup_gives(self@, schema, const_labels@, found),
    {
        let id = match make_id(schema, const_labels) {
            Ok(id) => id,
            Err(e) => {
                return Err(e);
            },
        };
        match self.position(&id) {
            Some(i) => Ok(&self.storages[i].group),
            None => Err(StorageError::NotFound),
        }
    }

    /// Stores under `id` the group that a creation gave, unless a group
    /// is stored there already, and gives the group now stored there.
    /// An error of the creation is given back, and nothing is stored.
    pub fn insert_storage(&mut self, id: StorageId, made: Result<MetricGroup, StorageError>) -> (given:
        Result<&MetricGroup, StorageError>)
        ensures
            insertion_gives(old(self)@, id@, made, final(self)@, given),
            final(self).metrics_registry() == old(self).metrics_registry(),
    {
        proof {
            use_type_invariant(&*self);
        }
        match self.position(&id) {
            Some(i) => Ok(&self.storages[i].group),
            None => match made {
                Ok(group) => {
                    let ghost before = self.storages@;
                    let ghost key = id@;
                    let mut storages: Vec<Storage> = Vec::new();
                    std::mem::swap(&mut self.storages, &mut storages);
                    storages.push(Storage { id, group });
                    let last = storages.len() - 1;
                    proof {
                        let after = storages@;
                        lemma_find_some(before, key);
                        assert(after.drop_last() =~= before);
                        assert forall|a: int, b: int|
                            0 <= a < after.len() && 0 <= b < after.len() && a != b implies (
                        #[trigger] after[a]).id@ != (#[trigger] after[b]).id@ by {
                            if a < before.len() && b < before.len() {
                                assert(before[a].id@ != before[b].id@);
                            } else if a < before.len() {
                                assert(before[a].id@ != key);
                            } else {
                                assert(before[b].id@ != key);
                            }
                        }
                        assert(stored(after) =~= stored(before).insert(key, group));
                    }
                    self.storages = storages;
                    Ok(&self.storages[last].group)
                },
                Err(e) => Err(e),
            },
        }
    }

    /// Gives the group of `schema` with the given constant label
    /// values. Where it is not stored yet, creates it, registers its
    /// metrics with the metrics registry and stores it.
    pub fn get_or_create_storage(
        &mut self,
        schema: &MetricGroupSchema,
        const_labels: &ConstLabels,
    ) -> (given: Result<&MetricGroup, StorageError>)
        ensures
            get_or_create_gives(old(self)@, schema, const_labels@, final(self)@, given),
            final(self).metrics_registry() == old(self).metrics_registry(),
            forall|key: (Seq<char>, Seq<char>)|
                old(self)@.contains_key(key) ==> final(self)@.contains_key(key) && final(self)@[key]
                    == old(self)@[key],
    {
        let id = match make_id(schema, const_labels) {
            Ok(id) => id,
            Err(e) => {
                return Err(e);
            },
        };
        match self.position(&id) {
            Some(i) => Ok(&self.storages[i].group),
            None => {
                let made = MetricGroup::from_const_labels(&self.registry, schema, const_labels);
                self.insert_storage(id, made)
            },
        }
    }
}

impl Default for StorageRegistry {
    /// A storage registry around a metrics registry of its own.
    fn default() -> (created: Self)
        ensures
            created@ == Map::<(Seq<char>, Seq<char>), MetricGroup>::empty(),
    {
        StorageRegistry::new(new_metrics_registry())
    }
}

/// Where keys are distinct, as many keys are stored as there are
/// entries.
pub proof fn lemma_stored_len(entries: Seq<Storage>)
    requires
        distinct_keys(entries),
    ensures
        stored(entries).dom().finite(),
        stored(entries).dom().len() == entries.len(),
    decreases entries.len(),
{
    if entries.len() == 0 {
        assert(stored(entries).dom() =~= Set::<(Seq<char>, Seq<char>)>::empty());
    } else {
        let rest = entries.drop_last();
        let last = entries.last();
        lemma_distinct_keys_drop_last(entries);
        lemma_stored_len(rest);
        lemma_find_some(rest, last.id@);
        if find(rest, last.id@) is Some {
            let i = choose|i: int| 0 <= i < rest.len() && (#[trigger] rest[i]).id@ == last.id@;
            assert(entries[i].id@ != entries[entries.len() - 1].id@);
        }
        assert(stored(entries).dom() =~= stored(rest).dom().insert(last.id@));
    }
}

/// Asking twice for the same group gives the same group twice: the
/// second request gives what the first one gave, and stores nothing.
pub proof fn lemma_second_request_gives_same_group(
    before: Map<(Seq<char>, Seq<char>), MetricGroup>,
    schema: &MetricGroupSchema,
    const_labels: Map<Seq<char>, Seq<char>>,
    between: Map<(Seq<char>, Seq<char>), MetricGroup>,
    first: Result<&MetricGroup, StorageError>,
    after: Map<(Seq<char>, Seq<char>), MetricGroup>,
    second: Result<&MetricGroup, StorageError>,
)
    requires
        get_or_create_gives(before, schema, const_labels, between, first),
        first is Ok,
        get_or_create_gives(between, schema, const_labels, after, second),
    ensures
        second == first,
        after == between,
{
}

/// Label values for one schema that hold no separator and differ in
/// the value of some constant label have different keys.
pub proof fn lemma_different_values_different_keys(
    schema: &MetricGroupSchema,
    first: Map<Seq<char>, Seq<char>>,
    second: Map<Seq<char>, Seq<char>>,
)
    requires
        values_free_of_separator(texts(schema.const_labels@), first),
        values_free_of_separator(texts(schema.const_labels@), second),
        exists|i: int|
            0 <= i < schema.const_labels@.len() && first[#[trigger] texts(schema.const_labels@)[i]]
                != second[texts(schema.const_labels@)[i]],
    ensures
        storage_key(schema, first) != storage_key(schema, second),
{
    let names = texts(schema.const_labels@);
    if storage_key(schema, first) == storage_key(schema, second) {
        lemma_same_key_same_values(names, first, second);
    }
}

/// Two requests for groups of one schema whose label values differ
/// give two groups, each stored under a key of its own: the second
/// request leaves the first group where it is.
pub proof fn lemma_groups_of_different_values(
    before: Map<(Seq<char>, Seq<char>), MetricGroup>,
    schema: &MetricGroupSchema,
    first_labels: Map<Seq<char>, Seq<char>>,
    between: Map<(Seq<char>, Seq<char>), MetricGroup>,
    first: &MetricGroup,
    second_labels: Map<Seq<char>, Seq<char>>,
    after: Map<(Seq<char>, Seq<char>), MetricGroup>,
    second: &MetricGroup,
)
    requires
        values_free_of_separator(texts(schema.const_labels@), first_labels),
        values_free_of_separator(texts(schema.const_labels@), second_labels),
        exists|i: int|
            0 <= i < schema.const_labels@.len() && first_labels[#[trigger] texts(
                schema.const_labels@,
            )[i]] != second_labels[texts(schema.const_labels@)[i]],
        get_or_create_gives(before, schema, first_labels, between, Ok(first)),
        get_or_create_gives(between, schema, second_labels, after, Ok(second)),
    ensures
        storage_key(schema, first_labels) != storage_key(schema, second_labels),
        after.contains_key(storage_key(schema, first_labels)),
        after[storage_key(schema, first_labels)] == *first,
        after.contains_key(storage_key(schema, second_labels)),
        after[storage_key(schema, second_labels)] == *second,
        !between.contains_key(storage_key(schema, second_labels)) ==> creation_allows(
            schema,
            second_labels,
            Ok(*second),
        ),
{
    lemma_different_values_different_keys(schema, first_labels, second_labels);
}

/// A request whose label values lack a constant label of the schema,
/// or name a label that the schema does not have, is refused as a
/// label mismatch and stores nothing.
pub proof fn lemma_mismatch_stores_nothing(
    before: Map<(Seq<char>, Seq<char>), MetricGroup>,
    schema: &MetricGroupSchema,
    const_labels: Map<Seq<char>, Seq<char>>,
    after: Map<(Seq<char>, Seq<char>), MetricGroup>,
    given: Result<&MetricGroup, StorageError>,
)
    requires
        texts(schema.const_labels@).no_duplicates(),
        const_labels.dom().finite(),
        const_labels.dom() != texts(schema.const_labels@).to_set(),
        get_or_create_gives(before, schema, const_labels, after, given),
    ensures
        after == before,
        given matches Err(e) && e is LabelMismatch,
{
    lemma_labels_fit_iff_same_names(texts(schema.const_labels@), const_labels);
}

/// While nothing is stored, every lookup with fitting label values
/// gives `NotFound`.
pub proof fn lemma_nothing_found_at_first(
    schema: &MetricGroupSchema,
    const_labels: Map<Seq<char>, Seq<char>>,
    found: Result<&MetricGroup, StorageError>,
)
    requires
        labels_fit(texts(schema.const_labels@), const_labels),
        lookup_gives(Map::empty(), schema, const_labels, found),
    ensures
        found matches Err(e) && e is NotFound,
{
}

/// Once a request for a group has succeeded, a lookup with the same
/// schema and label values gives that group.
pub proof fn lemma_found_after_request(
    before: Map<(Seq<char>, Seq<char>), MetricGroup>,
    schema: &MetricGroupSchema,
    const_labels: Map<Seq<char>, Seq<char>>,
    after: Map<(Seq<char>, Seq<char>), MetricGroup>,
    given: Result<&MetricGroup, StorageError>,
    found: Result<&MetricGroup, StorageError>,
)
    requires
        get_or_create_gives(before, schema, const_labels, after, given),
        given is Ok,
        lookup_gives(after, schema, const_labels, found),
    ensures
        found == given,
{
}

/// A request never removes or replaces a stored group.
pub proof fn lemma_request_keeps_stored_groups(
    before: Map<(Seq<char>, Seq<char>), MetricGroup>,
    schema: &MetricGroupSchema,
    const_labels: Map<Seq<char>, Seq<char>>,
    after: Map<(Seq<char>, Seq<char>), MetricGroup>,
    given: Result<&MetricGroup, StorageError>,
    key: (Seq<char>, Seq<char>),
)
    requires
        get_or_create_gives(before, schema, const_labels, after, given),
        before.contains_key(key),
    ensures
        after.contains_key(key),
        after[key] == before[key],
{
}

/// Storing the outcome of a creation never removes or replaces a
/// stored group.
pub proof fn lemma_insertion_keeps_stored_groups(
    before: Map<(Seq<char>, Seq<char>), MetricGroup>,
    id: (Seq<char>, Seq<char>),
    made: Result<MetricGroup, StorageError>,
    after: Map<(Seq<char>, Seq<char>), MetricGroup>,
    given: Result<&MetricGroup, StorageError>,
    key: (Seq<char>, Seq<char>),
)
    requires
        insertion_gives(before, id, made, after, given),
        before.contains_key(key),
    ensures
        after.contains_key(key),
        after[key] == before[key],
{
}

} // verus!
