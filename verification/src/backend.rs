//! The backend registry: named storage instances under one base directory.
//!
//! The registry is a map from name to storage, held as a vector of pairs
//! with pairwise distinct names. Creating a storage under an existing name
//! replaces the registry's entry, last write wins; removing an entry never
//! deletes the database file behind it. Accessors hand out exclusive
//! borrows of the registered storages.
//!
//! The registry does not touch the file system itself beyond opening
//! database files: a caller that wants the base directory created prepares
//! it before constructing the backend.

use vstd::prelude::*;

use crate::config::{RedbBackendConfig, RedbStorageConfig};
use crate::error::RedbBackendError;
use crate::keyspace::str_eq;
use crate::storage::RedbStorage;

verus! {

/// The map that an association list of named storages stands for; later
/// entries win.
pub open spec fn reg_map(s: Seq<(String, RedbStorage)>) -> Map<Seq<char>, RedbStorage>
    decreases s.len(),
{
    if s.len() == 0 {
        Map::empty()
    } else {
        reg_map(s.drop_last()).insert(s.last().0@, s.last().1)
    }
}

/// The empty registry.
pub open spec fn reg_empty() -> Map<Seq<char>, RedbStorage> {
    Map::empty()
}

/// Whether the names in the list are pairwise distinct.
pub open spec fn distinct_names(s: Seq<(String, RedbStorage)>) -> bool {
    forall|i: int, j: int|
        0 <= i < j < s.len() ==> (#[trigger] s[i].0@) != (#[trigger] s[j].0@)
}

/// Dropping the last entry keeps the names distinct.
proof fn lemma_distinct_drop_last(s: Seq<(String, RedbStorage)>)
    requires
        distinct_names(s),
        s.len() > 0,
    ensures
        distinct_names(s.drop_last()),
{
    assert forall|a: int, b: int|
        0 <= a < b < s.drop_last().len() implies (#[trigger] s.drop_last()[a].0@) != (
    #[trigger] s.drop_last()[b].0@) by {
        assert(s.drop_last()[a] == s[a]);
        assert(s.drop_last()[b] == s[b]);
        assert(s[a].0@ != s[b].0@);
    }
}

/// A name is in the registry map exactly when some entry carries it.
proof fn lemma_reg_map_contains(s: Seq<(String, RedbStorage)>, k: Seq<char>)
    ensures
        reg_map(s).contains_key(k) <==> exists|i: int|
            0 <= i < s.len() && (#[trigger] s[i].0@) == k,
    decreases s.len(),
{
    if s.len() > 0 {
        lemma_reg_map_contains(s.drop_last(), k);
        if reg_map(s).contains_key(k) {
            if k == s.last().0@ {
                assert(s[s.len() - 1].0@ == k);
            } else {
                let i = choose|i: int|
                    0 <= i < s.drop_last().len() && (#[trigger] s.drop_last()[i].0@) == k;
                assert(s[i].0@ == k);
            }
        }
        if exists|i: int| 0 <= i < s.len() && (#[trigger] s[i].0@) == k {
            let i = choose|i: int| 0 <= i < s.len() && (#[trigger] s[i].0@) == k;
            if i < s.len() - 1 {
                assert(s.drop_last()[i].0@ == k);
            }
        }
    }
}

/// With distinct names, each entry's name maps to that entry's storage.
proof fn lemma_reg_map_index(s: Seq<(String, RedbStorage)>, i: int)
    requires
        distinct_names(s),
        0 <= i < s.len(),
    ensures
        reg_map(s).contains_key(s[i].0@),
        reg_map(s)[s[i].0@] == s[i].1,
    decreases s.len(),
{
    if i == s.len() - 1 {
        assert(s.last() == s[i]);
    } else {
        lemma_distinct_drop_last(s);
        assert(s.drop_last()[i] == s[i]);
        lemma_reg_map_index(s.drop_last(), i);
        assert(s[i].0@ != s[s.len() - 1].0@);
    }
}

/// Replacing the storage of one entry, keeping its name, updates the map
/// at that name.
proof fn lemma_reg_map_update_w(s: Seq<(String, RedbStorage)>, i: int, e: (String, RedbStorage))
    requires
        0 <= i < s.len(),
        distinct_names(s),
        e.0@ == s[i].0@,
    ensures
        reg_map(s.update(i, e)) == reg_map(s).insert(e.0@, e.1),
        distinct_names(s.update(i, e)),
    decreases s.len(),
{
    assert forall|a: int, b: int|
        0 <= a < b < s.update(i, e).len() implies (#[trigger] s.update(i, e)[a].0@) != (
    #[trigger] s.update(i, e)[b].0@) by {
        assert(s.update(i, e)[a].0@ == s[a].0@);
        assert(s.update(i, e)[b].0@ == s[b].0@);
        assert(s[a].0@ != s[b].0@);
    }
    if i == s.len() - 1 {
        assert(s.update(i, e).drop_last() =~= s.drop_last());
        assert(s.update(i, e).last() == e);
        assert(reg_map(s.drop_last()).insert(s.last().0@, s.last().1).insert(e.0@, e.1)
            =~= reg_map(s.drop_last()).insert(e.0@, e.1));
        assert(s.last().0@ == e.0@);
    } else {
        lemma_distinct_drop_last(s);
        assert(s.drop_last()[i] == s[i]);
        lemma_reg_map_update_w(s.drop_last(), i, e);
        assert(s.update(i, e).drop_last() =~= s.drop_last().update(i, e));
        assert(s.update(i, e).last() == s.last());
        assert(s[i].0@ != s[s.len() - 1].0@);
        assert(reg_map(s.drop_last()).insert(e.0@, e.1).insert(s.last().0@, s.last().1)
            =~= reg_map(s.drop_last()).insert(s.last().0@, s.last().1).insert(e.0@, e.1));
    }
}

/// Inserting twice under one key keeps only the second value.
broadcast proof fn lemma_insert_insert(
    m: Map<Seq<char>, RedbStorage>,
    k: Seq<char>,
    a: RedbStorage,
    b: RedbStorage,
)
    ensures
        #[trigger] m.insert(k, a).insert(k, b) == m.insert(k, b),
{
    assert(m.insert(k, a).insert(k, b) =~= m.insert(k, b));
}

/// Ambient form of the update law, so that it applies to values that only
/// exist at function exit, such as the final state behind a returned
/// exclusive borrow.
broadcast proof fn lemma_reg_map_update(s: Seq<(String, RedbStorage)>, i: int, e: (
    String,
    RedbStorage,
))
    ensures
        (0 <= i < s.len() && distinct_names(s) && e.0@ == s[i].0@) ==> (#[trigger] reg_map(
            s.update(i, e),
        )) == reg_map(s).insert(e.0@, e.1) && distinct_names(s.update(i, e)),
{
    if 0 <= i < s.len() && distinct_names(s) && e.0@ == s[i].0@ {
        lemma_reg_map_update_w(s, i, e);
    }
}

/// Appending an entry inserts its name into the map.
proof fn lemma_reg_map_push(s: Seq<(String, RedbStorage)>, e: (String, RedbStorage))
    ensures
        reg_map(s.push(e)) == reg_map(s).insert(e.0@, e.1),
{
    assert(s.push(e).drop_last() =~= s);
    assert(s.push(e).last() == e);
}

/// Removing one entry removes its name from the map.
proof fn lemma_reg_map_remove(s: Seq<(String, RedbStorage)>, i: int)
    requires
        distinct_names(s),
        0 <= i < s.len(),
    ensures
        reg_map(s.remove(i)) == reg_map(s).remove(s[i].0@),
        distinct_names(s.remove(i)),
    decreases s.len(),
{
    assert forall|a: int, b: int|
        0 <= a < b < s.remove(i).len() implies (#[trigger] s.remove(i)[a].0@) != (
    #[trigger] s.remove(i)[b].0@) by {
        if a < i {
            assert(s.remove(i)[a] == s[a]);
        } else {
            assert(s.remove(i)[a] == s[a + 1]);
        }
        if b < i {
            assert(s.remove(i)[b] == s[b]);
        } else {
            assert(s.remove(i)[b] == s[b + 1]);
        }
    }
    if i == s.len() - 1 {
        assert(s.remove(i) =~= s.drop_last());
        lemma_reg_map_contains(s.drop_last(), s[i].0@);
        assert forall|t: int|
            0 <= t < s.drop_last().len() implies (#[trigger] s.drop_last()[t].0@) != s[i].0@ by {
            assert(s.drop_last()[t] == s[t]);
            assert(s[t].0@ != s[i].0@);
        }
        assert(!reg_map(s.drop_last()).contains_key(s[i].0@));
        assert(reg_map(s.drop_last()).insert(s.last().0@, s.last().1).remove(s[i].0@)
            =~= reg_map(s.drop_last()));
    } else {
        lemma_distinct_drop_last(s);
        assert(s.drop_last()[i] == s[i]);
        lemma_reg_map_remove(s.drop_last(), i);
        assert(s.remove(i).drop_last() =~= s.drop_last().remove(i));
        assert(s.remove(i).last() == s.last());
        assert(s[i].0@ != s[s.len() - 1].0@);
        assert(reg_map(s.drop_last()).remove(s[i].0@).insert(s.last().0@, s.last().1)
            =~= reg_map(s.drop_last()).insert(s.last().0@, s.last().1).remove(s[i].0@));
    }
}

/// With distinct names, the map is finite and has one entry per list
/// element.
proof fn lemma_reg_map_len(s: Seq<(String, RedbStorage)>)
    requires
        distinct_names(s),
    ensures
        reg_map(s).dom().finite(),
        reg_map(s).len() == s.len(),
    decreases s.len(),
{
    if s.len() > 0 {
        lemma_distinct_drop_last(s);
        lemma_reg_map_len(s.drop_last());
        lemma_reg_map_contains(s.drop_last(), s.last().0@);
        assert forall|t: int|
            0 <= t < s.drop_last().len() implies (#[trigger] s.drop_last()[t].0@)
                != s.last().0@ by {
            assert(s.drop_last()[t] == s[t]);
            assert(s[t].0@ != s[s.len() - 1].0@);
        }
        assert(!reg_map(s.drop_last()).contains_key(s.last().0@));
    }
}

/// Law: registering or replacing a storage under one name leaves what the
/// registry holds under every other name untouched: storages under one
/// backend never observe each other, whatever their keys hold.
pub proof fn lemma_instance_isolation(
    m: Map<Seq<char>, RedbStorage>,
    name: Seq<char>,
    s: RedbStorage,
    other: Seq<char>,
)
    requires
        other != name,
    ensures
        m.insert(name, s).contains_key(other) == m.contains_key(other),
        m.contains_key(other) ==> m.insert(name, s)[other] == m[other],
{
}

/// The backend: a configuration and a registry of named storages.
pub struct RedbBackend {
    config: RedbBackendConfig,
    storages: Vec<(String, RedbStorage)>,
}

impl View for RedbBackend {
    type V = Map<Seq<char>, RedbStorage>;

    /// The registry as a map from storage name to storage.
    closed spec fn view(&self) -> Map<Seq<char>, RedbStorage> {
        reg_map(self.storages@)
    }
}

impl RedbBackend {
    /// The backend configuration.
    pub closed spec fn spec_config(self) -> RedbBackendConfig {
        self.config
    }

    /// The registry invariant: names are pairwise distinct.
    pub closed spec fn wf(self) -> bool {
        distinct_names(self.storages@)
    }

    /// Create a new backend with the given configuration and an empty
    /// registry. The base directory is taken as given: a caller that wants
    /// it created prepares it before calling.
    pub fn new(config: RedbBackendConfig) -> (r: Result<RedbBackend, RedbBackendError>)
        ensures
            r is Ok,
            r matches Ok(b) ==> b.wf() && b@ == reg_empty() && b.spec_config() == config,
    {
        let b = RedbBackend { config, storages: Vec::new() };
        proof {
            assert(b@ =~= reg_empty());
        }
        Ok(b)
    }

    /// The backend configuration.
    pub fn config(&self) -> (r: &RedbBackendConfig)
        ensures
            *r == self.spec_config(),
    {
        &self.config
    }

    /// The index of the entry carrying `name`, if any.
    fn find_index(&self, name: &str) -> (r: Option<usize>)
        ensures
            r matches Some(i) ==> i < self.storages@.len() && self.storages@[i as int].0@
                == name@,
            r is None ==> forall|j: int|
                0 <= j < self.storages@.len() ==> (#[trigger] self.storages@[j].0@) != name@,
    {
        let mut i: usize = 0;
        while i < self.storages.len()
            invariant
                i <= self.storages@.len(),
                forall|j: int| 0 <= j < i ==> (#[trigger] self.storages@[j].0@) != name@,
            decreases self.storages@.len() - i,
        {
            if str_eq(self.storages[i].0.as_str(), name) {
                return Some(i);
            }
            i = i + 1;
        }
        None
    }

    /// Create a storage under `name` and register it, replacing any entry
    /// of the same name; the replaced storage is not closed here, and its
    /// database file is not deleted. Returns an exclusive borrow of the
    /// registered storage.
    ///
    /// The storage uses `config` when given, else the backend's default
    /// storage configuration; its database path is the configuration's
    /// effective path under the backend's base directory.
    pub fn create_storage(&mut self, name: String, config: Option<RedbStorageConfig>) -> (r:
        Result<&mut RedbStorage, RedbBackendError>)
        requires
            old(self).wf(),
        ensures
            final(self).wf(),
            final(self).spec_config() == old(self).spec_config(),
            r matches Ok(s) ==> (*s).spec_name() == name@ && (*s).spec_config() == (
            match config {
                Some(c) => c,
                None => old(self).spec_config().default_storage_config,
            }) && final(self)@ == old(self)@.insert(name@, *final(s)),
            r is Err ==> *final(self) == *old(self),
    {
        broadcast use lemma_reg_map_update, lemma_insert_insert;

        let storage_config = match config {
            Some(c) => c,
            None => self.config.default_storage_config.clone(),
        };
        let db_path = storage_config.effective_db_path(name.as_str(), &self.config);
        let storage = RedbStorage::new(db_path.as_str(), storage_config, name.clone())?;
        match self.find_index(name.as_str()) {
            Some(i) => {
                let slot = &mut self.storages[i];
                slot.1 = storage;
                Ok(&mut slot.1)
            },
            None => {
                proof {
                    lemma_reg_map_push(self.storages@, (name, storage));
                    assert forall|a: int, b: int|
                        0 <= a < b < self.storages@.push((name, storage)).len() implies (
                    #[trigger] self.storages@.push((name, storage))[a].0@) != (
                    #[trigger] self.storages@.push((name, storage))[b].0@) by {
                        let p = self.storages@.push((name, storage));
                        if b < self.storages@.len() {
                            assert(p[a] == self.storages@[a]);
                            assert(p[b] == self.storages@[b]);
                        } else {
                            assert(p[a] == self.storages@[a]);
                            assert(p[b] == (name, storage));
                        }
                    }
                }
                let j = self.storages.len();
                self.storages.push((name, storage));
                let slot = &mut self.storages[j];
                Ok(&mut slot.1)
            },
        }
    }

    /// Look up the storage registered under `name` and hand out an
    /// exclusive borrow of it.
    ///
    /// Fails with [`RedbBackendError::StorageNotFound`] exactly when no
    /// storage is registered under the name.
    pub fn get_storage(&mut self, name: &str) -> (r: Result<&mut RedbStorage, RedbBackendError>)
        requires
            old(self).wf(),
        ensures
            final(self).wf(),
            final(self).spec_config() == old(self).spec_config(),
            r is Ok <==> old(self)@.contains_key(name@),
            r matches Ok(s) ==> *s == old(self)@[name@] && final(self)@ == old(self)@.insert(
                name@,
                *final(s),
            ),
            r matches Err(e) ==> e is StorageNotFound && *final(self) == *old(self),
    {
        broadcast use lemma_reg_map_update;

        match self.find_index(name) {
            Some(i) => {
                proof {
                    lemma_reg_map_contains(self.storages@, name@);
                    lemma_reg_map_index(self.storages@, i as int);
                }
                let slot = &mut self.storages[i];
                Ok(&mut slot.1)
            },
            None => {
                proof {
                    lemma_reg_map_contains(self.storages@, name@);
                }
                Err(RedbBackendError::storage_not_found(name.to_owned()))
            },
        }
    }

    /// Remove the registry entry under `name`; the storage's database file
    /// is not deleted, and any borrow handed out earlier stays usable until
    /// it ends.
    ///
    /// Fails with [`RedbBackendError::StorageNotFound`] exactly when no
    /// storage is registered under the name.
    pub fn remove_storage(&mut self, name: &str) -> (r: Result<(), RedbBackendError>)
        requires
            old(self).wf(),
        ensures
            final(self).wf(),
            final(self).spec_config() == old(self).spec_config(),
            r is Ok <==> old(self)@.contains_key(name@),
            r is Ok ==> final(self)@ == old(self)@.remove(name@),
            r matches Err(e) ==> e is StorageNotFound && *final(self) == *old(self),
    {
        match self.find_index(name) {
            Some(i) => {
                proof {
                    lemma_reg_map_contains(self.storages@, name@);
                    lemma_reg_map_remove(self.storages@, i as int);
                }
                self.storages.remove(i);
                Ok(())
            },
            None => {
                proof {
                    lemma_reg_map_contains(self.storages@, name@);
                }
                Err(RedbBackendError::storage_not_found(name.to_owned()))
            },
        }
    }

    /// The names of all registered storages, in registration order.
    pub fn list_storages(&self) -> (r: Result<Vec<String>, RedbBackendError>)
        requires
            self.wf(),
        ensures
            r is Ok,
            r matches Ok(names) ==> names@.len() == self@.len(),
            r matches Ok(names) ==> forall|i: int|
                0 <= i < names@.len() ==> self@.contains_key(#[trigger] names@[i]@),
            r matches Ok(names) ==> forall|k: Seq<char>|
                #[trigger] self@.contains_key(k) ==> exists|i: int|
                    0 <= i < names@.len() && (#[trigger] names@[i]@) == k,
    {
        let mut names: Vec<String> = Vec::new();
        let mut i: usize = 0;
        while i < self.storages.len()
            invariant
                i <= self.storages@.len(),
                names@.len() == i,
                forall|t: int| 0 <= t < i ==> (#[trigger] names@[t]@) == self.storages@[t].0@,
            decreases self.storages@.len() - i,
        {
            names.push(self.storages[i].0.clone());
            i = i + 1;
        }
        proof {
            lemma_reg_map_len(self.storages@);
            assert forall|t: int| 0 <= t < names@.len() implies self@.contains_key(
                #[trigger] names@[t]@,
            ) by {
                lemma_reg_map_index(self.storages@, t);
            }
            assert forall|k: Seq<char>| #[trigger] self@.contains_key(k) implies exists|t: int|
                0 <= t < names@.len() && (#[trigger] names@[t]@) == k by {
                lemma_reg_map_contains(self.storages@, k);
                let t = choose|t: int|
                    0 <= t < self.storages@.len() && (#[trigger] self.storages@[t].0@) == k;
                assert(names@[t]@ == k);
            }
        }
        Ok(names)
    }

    /// The number of registered storages.
    pub fn storage_count(&self) -> (r: Result<usize, RedbBackendError>)
        requires
            self.wf(),
        ensures
            r is Ok,
            r matches Ok(n) ==> n == self@.len(),
    {
        proof {
            lemma_reg_map_len(self.storages@);
        }
        Ok(self.storages.len())
    }

    /// Whether a storage is registered under `name`.
    pub fn has_storage(&self, name: &str) -> (r: Result<bool, RedbBackendError>)
        ensures
            r is Ok,
            r matches Ok(b) ==> (b <==> self@.contains_key(name@)),
    {
        proof {
            lemma_reg_map_contains(self.storages@, name@);
        }
        match self.find_index(name) {
            Some(_) => Ok(true),
            None => Ok(false),
        }
    }

    /// Drop every registry entry. Storages borrowed out earlier stay
    /// usable until their borrows end; database files are untouched.
    pub fn close(&mut self) -> (r: Result<(), RedbBackendError>)
        ensures
            r is Ok,
            final(self).wf(),
            final(self).spec_config() == old(self).spec_config(),
            final(self)@ == reg_empty(),
    {
        self.storages.clear();
        proof {
            assert(self@ =~= reg_empty());
        }
        Ok(())
    }
}

} // verus!
