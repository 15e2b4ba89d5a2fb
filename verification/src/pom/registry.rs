//! The store of resolved coordinates: at most one version per identity.
use vstd::prelude::*;
use crate::pom::structure::{declarations_of, Declaration, Dependency, Key};
use crate::pom::DependencyInfo;

verus! {

/// No two entries of the list share an identity.
pub open spec fn distinct_keys(list: Seq<Declaration>) -> bool {
    forall|i: int, j: int| 0 <= i < j < list.len() ==> (#[trigger] list[i]).key() != (#[trigger] list[j]).key()
}

/// Every entry of the list is a bare coordinate: group, artifact and version,
/// with nothing else declared.
pub open spec fn all_resolved(list: Seq<Declaration>) -> bool {
    forall|i: int|
        0 <= i < list.len() ==> (#[trigger] list[i]).version.is_some() && list[i]
            == Declaration::resolved(list[i].group, list[i].artifact, list[i].version.unwrap())
}

/// The list holds an entry with this identity.
pub open spec fn holds_key(list: Seq<Declaration>, key: Key) -> bool {
    exists|i: int| 0 <= i < list.len() && (#[trigger] list[i]).key() == key
}

/// The version that a list of coordinates gives to each identity in it. Where
/// the list has distinct identities this is the version of the one entry with
/// that identity.
pub open spec fn versions_of(list: Seq<Declaration>) -> Map<Key, Seq<char>> {
    Map::new(
        |key: Key| holds_key(list, key),
        |key: Key|
            list[choose|i: int| 0 <= i < list.len() && (#[trigger] list[i]).key() == key].version.unwrap(),
    )
}

/// In a list with distinct identities each entry's identity is mapped to that
/// entry's version.
pub proof fn lemma_versions_of(list: Seq<Declaration>)
    requires
        distinct_keys(list),
    ensures
        forall|i: int|
            0 <= i < list.len() ==> versions_of(list).contains_key((#[trigger] list[i]).key())
                && versions_of(list)[list[i].key()] == list[i].version.unwrap(),
{
    assert forall|i: int| 0 <= i < list.len() implies versions_of(list).contains_key(
        (#[trigger] list[i]).key(),
    ) && versions_of(list)[list[i].key()] == list[i].version.unwrap() by {
        let key = list[i].key();
        assert(holds_key(list, key));
        let c = choose|c: int| 0 <= c < list.len() && (#[trigger] list[c]).key() == key;
        if c < i {
            assert(list[c].key() != list[i].key());
        } else if i < c {
            assert(list[i].key() != list[c].key());
        }
    }
}

/// A list with distinct identities gives a version to as many identities as
/// it has entries.
pub proof fn lemma_identities_counted(list: Seq<Declaration>)
    requires
        distinct_keys(list),
    ensures
        versions_of(list).dom().finite(),
        versions_of(list).dom().len() == list.len(),
    decreases list.len(),
{
    if list.len() == 0 {
        assert(versions_of(list).dom() =~= Set::<Key>::empty());
    } else {
        let init = list.drop_last();
        let last = list.last();
        assert(distinct_keys(init)) by {
            assert forall|i: int, j: int| 0 <= i < j < init.len() implies (#[trigger] init[i]).key()
                != (#[trigger] init[j]).key() by {
                assert(list[i].key() != list[j].key());
            }
        }
        lemma_identities_counted(init);
        assert(!versions_of(init).dom().contains(last.key())) by {
            if holds_key(init, last.key()) {
                let i = choose|i: int| 0 <= i < init.len() && (#[trigger] init[i]).key() == last.key();
                assert(list[i].key() != list[list.len() - 1].key());
            }
        }
        assert(versions_of(list).dom() =~= versions_of(init).dom().insert(last.key())) by {
            assert forall|key: Key| versions_of(list).dom().contains(key) <==> versions_of(
                init,
            ).dom().insert(last.key()).contains(key) by {
                if holds_key(list, key) {
                    let i = choose|i: int| 0 <= i < list.len() && (#[trigger] list[i]).key() == key;
                    if i < init.len() {
                        assert(init[i].key() == key);
                    }
                }
                if holds_key(init, key) {
                    let i = choose|i: int| 0 <= i < init.len() && (#[trigger] init[i]).key() == key;
                    assert(list[i].key() == key);
                }
                if key == last.key() {
                    assert(list[list.len() - 1].key() == key);
                }
            }
        }
    }
}

/// The coordinates resolved so far in one run, keyed by identity. An identity
/// is entered with its first write and stays; a later write replaces its
/// version.
pub struct Registry {
    entries: Vec<Dependency>,
}

impl View for Registry {
    type V = Map<Key, Seq<char>>;

    open spec fn view(&self) -> Map<Key, Seq<char>> {
        versions_of(self.listing())
    }
}

impl Registry {
    /// The entries in the order in which their identities were first written.
    pub closed spec fn listing(&self) -> Seq<Declaration> {
        declarations_of(self.entries@)
    }

    /// The invariant of the registry: one entry per identity, each a bare
    /// coordinate.
    #[verifier::type_invariant]
    spec fn wf(&self) -> bool {
        distinct_keys(self.listing()) && all_resolved(self.listing())
    }

    pub fn new() -> (registry: Self)
        ensures
            registry@ == Map::<Key, Seq<char>>::empty(),
            registry.listing() == Seq::<Declaration>::empty(),
    {
        let registry = Registry { entries: Vec::new() };
        proof {
            assert(registry.listing() =~= Seq::<Declaration>::empty());
            assert(registry@ =~= Map::<Key, Seq<char>>::empty());
        }
        registry
    }

    /// The number of identities entered.
    pub fn len(&self) -> (n: usize)
        ensures
            self@.dom().finite(),
            n == self@.dom().len(),
    {
        proof {
            use_type_invariant(self);
            lemma_identities_counted(self.listing());
        }
        self.entries.len()
    }

    /// Where the entry with this identity stands, if there is one.
    fn position(&self, info: &DependencyInfo) -> (at: Option<usize>)
        ensures
            match at {
                Some(i) => i < self.listing().len() && self.listing()[i as int].key() == info@,
                None => !holds_key(self.listing(), info@),
            },
    {
        let mut i: usize = 0;
        while i < self.entries.len()
            invariant
                i <= self.entries.len(),
                forall|j: int| 0 <= j < i ==> (#[trigger] self.listing()[j]).key() != info@,
            decreases self.entries.len() - i,
        {
            if self.entries[i].group_id == info.group_id && self.entries[i].artifact_id
                == info.artifact_id {
                return Some(i);
            }
            i = i + 1;
        }
        None
    }

    /// Whether a coordinate with this identity has been entered.
    pub fn contains_key(&self, info: &DependencyInfo) -> (found: bool)
        ensures
            found == self@.contains_key(info@),
    {
        self.position(info).is_some()
    }

    /// Enters a coordinate, replacing the version of an identity that is
    /// already there.
    pub fn put(&mut self, info: DependencyInfo, version: String)
        ensures
            final(self)@ == old(self)@.insert(info@, version@),
    {
        proof {
            use_type_invariant(&*self);
        }
        let ghost before = self.listing();
        let ghost entry = Declaration::resolved(info@.0, info@.1, version@);
        let at = self.position(&info);
        let dependency = Dependency {
            artifact_id: info.artifact_id,
            dtype: None,
            group_id: info.group_id,
            optional: None,
            scope: None,
            version: Some(version),
            exclusions: None,
        };
        assert(dependency@ == entry);
        // The entries are taken out for the change and put back whole, so
        // that the registry is never seen with a half-made list.
        let mut entries: Vec<Dependency> = Vec::new();
        proof {
            assert(declarations_of(entries@) =~= Seq::<Declaration>::empty());
        }
        core::mem::swap(&mut self.entries, &mut entries);
        match at {
            Some(i) => {
                entries.set(i, dependency);
                proof {
                    assert(declarations_of(entries@) =~= before.update(i as int, entry));
                    lemma_update_entry(before, i as int, entry);
                }
            },
            None => {
                entries.push(dependency);
                proof {
                    assert(declarations_of(entries@) =~= before.push(entry));
                    lemma_push_entry(before, entry);
                }
            },
        }
        core::mem::swap(&mut self.entries, &mut entries);
    }

    /// Gives up the registry for its entries.
    pub fn into_entries(self) -> (list: Vec<Dependency>)
        ensures
            declarations_of(list@) == self.listing(),
            distinct_keys(declarations_of(list@)),
            all_resolved(declarations_of(list@)),
            versions_of(declarations_of(list@)) == self@,
    {
        proof {
            use_type_invariant(&self);
        }
        self.entries
    }
}

/// Replacing an entry by one of the same identity changes that identity's
/// version and nothing else.
proof fn lemma_update_entry(list: Seq<Declaration>, at: int, entry: Declaration)
    requires
        distinct_keys(list),
        all_resolved(list),
        0 <= at < list.len(),
        list[at].key() == entry.key(),
        entry.version.is_some(),
        entry == Declaration::resolved(entry.group, entry.artifact, entry.version.unwrap()),
    ensures
        distinct_keys(list.update(at, entry)),
        all_resolved(list.update(at, entry)),
        versions_of(list.update(at, entry)) == versions_of(list).insert(
            entry.key(),
            entry.version.unwrap(),
        ),
{
    let after = list.update(at, entry);
    assert(distinct_keys(after)) by {
        assert forall|i: int, j: int| 0 <= i < j < after.len() implies (#[trigger] after[i]).key()
            != (#[trigger] after[j]).key() by {
            assert(list[i].key() != list[j].key());
        }
    }
    assert(all_resolved(after)) by {
        assert forall|i: int| 0 <= i < after.len() implies (#[trigger] after[i]).version.is_some()
            && after[i] == Declaration::resolved(
            after[i].group,
            after[i].artifact,
            after[i].version.unwrap(),
        ) by {
            if i != at {
                assert(after[i] == list[i]);
            }
        }
    }
    lemma_versions_of(list);
    lemma_versions_of(after);
    let target = versions_of(list).insert(entry.key(), entry.version.unwrap());
    assert forall|key: Key| versions_of(after).contains_key(key) <==> target.contains_key(
        key,
    ) by {
        if holds_key(after, key) {
            let i = choose|i: int| 0 <= i < after.len() && (#[trigger] after[i]).key() == key;
            assert(list[i].key() == key);
            assert(holds_key(list, key));
        }
        if holds_key(list, key) {
            let i = choose|i: int| 0 <= i < list.len() && (#[trigger] list[i]).key() == key;
            assert(after[i].key() == key);
            assert(holds_key(after, key));
        }
    }
    assert forall|key: Key| versions_of(after).contains_key(key) implies versions_of(after)[key]
        == target[key] by {
        let i = choose|i: int| 0 <= i < after.len() && (#[trigger] after[i]).key() == key;
        assert(versions_of(after)[after[i].key()] == after[i].version.unwrap());
        if i != at {
            assert(after[i] == list[i]);
            assert(versions_of(list)[list[i].key()] == list[i].version.unwrap());
            assert(list[i].key() != entry.key()) by {
                if i < at {
                    assert(list[i].key() != list[at].key());
                } else {
                    assert(list[at].key() != list[i].key());
                }
            }
        }
    }
    assert(versions_of(after) =~= target);
}

/// Adding an entry with a new identity adds that identity with its version
/// and changes nothing else.
proof fn lemma_push_entry(list: Seq<Declaration>, entry: Declaration)
    requires
        distinct_keys(list),
        all_resolved(list),
        !holds_key(list, entry.key()),
        entry.version.is_some(),
        entry == Declaration::resolved(entry.group, entry.artifact, entry.version.unwrap()),
    ensures
        distinct_keys(list.push(entry)),
        all_resolved(list.push(entry)),
        versions_of(list.push(entry)) == versions_of(list).insert(
            entry.key(),
            entry.version.unwrap(),
        ),
{
    let after = list.push(entry);
    assert(distinct_keys(after)) by {
        assert forall|i: int, j: int| 0 <= i < j < after.len() implies (#[trigger] after[i]).key()
            != (#[trigger] after[j]).key() by {
            if j < list.len() {
                assert(list[i].key() != list[j].key());
            } else {
                assert(list[i].key() != entry.key());
            }
        }
    }
    assert(all_resolved(after)) by {
        assert forall|i: int| 0 <= i < after.len() implies (#[trigger] after[i]).version.is_some()
            && after[i] == Declaration::resolved(
            after[i].group,
            after[i].artifact,
            after[i].version.unwrap(),
        ) by {
            if i < list.len() {
                assert(after[i] == list[i]);
            }
        }
    }
    lemma_versions_of(list);
    lemma_versions_of(after);
    let target = versions_of(list).insert(entry.key(), entry.version.unwrap());
    assert forall|key: Key| versions_of(after).contains_key(key) <==> target.contains_key(
        key,
    ) by {
        if holds_key(after, key) {
            let i = choose|i: int| 0 <= i < after.len() && (#[trigger] after[i]).key() == key;
            if i < list.len() {
                assert(list[i].key() == key);
                assert(holds_key(list, key));
            }
        }
        if holds_key(list, key) {
            let i = choose|i: int| 0 <= i < list.len() && (#[trigger] list[i]).key() == key;
            assert(after[i].key() == key);
            assert(holds_key(after, key));
        }
        if key == entry.key() {
            assert(after[list.len() as int].key() == key);
            assert(holds_key(after, key));
        }
    }
    assert forall|key: Key| versions_of(after).contains_key(key) implies versions_of(after)[key]
        == target[key] by {
        let i = choose|i: int| 0 <= i < after.len() && (#[trigger] after[i]).key() == key;
        assert(versions_of(after)[after[i].key()] == after[i].version.unwrap());
        if i < list.len() {
            assert(after[i] == list[i]);
            assert(versions_of(list)[list[i].key()] == list[i].version.unwrap());
        }
    }
    assert(versions_of(after) =~= target);
}

} // verus!
