//! Trusted boundary around the embedded transactional key-value database.
//!
//! A [`KvStore`] holds one open database file and the name of the one table
//! this crate uses in it. Its committed contents are modeled as a map from
//! key bytes to value bytes, [`kv_contents`]; every method wraps one
//! committed transaction of the `redb` crate and states its effect on that
//! map. Mutating methods take `&mut self`, so each store value has one
//! writer at a time and the model tracks the file.
//!
//! `redb` documents that a failed commit is still applied atomically: fully
//! or not at all. The contracts of the mutating methods therefore promise,
//! on error, only that the contents are either unchanged or fully updated,
//! never partial.

use redb::ReadableDatabase;
use vstd::prelude::*;

use crate::error::RedbBackendError;

verus! {

/// One open database file, restricted to one table.
#[verifier::external_body]
pub struct KvStore {
    db: redb::Database,
    table: String,
}

/// The committed contents of the store's table: key bytes to value bytes.
pub uninterp spec fn kv_contents(s: KvStore) -> Map<Seq<u8>, Seq<u8>>;

/// The empty contents.
pub open spec fn kv_empty() -> Map<Seq<u8>, Seq<u8>> {
    Map::empty()
}

/// The views of a sequence of byte pairs.
pub open spec fn pairs_view(es: Seq<(Vec<u8>, Vec<u8>)>) -> Seq<(Seq<u8>, Seq<u8>)> {
    es.map(|i: int, p: (Vec<u8>, Vec<u8>)| (p.0@, p.1@))
}

/// The map after inserting the given entries in order.
pub open spec fn kv_insert_all(
    m: Map<Seq<u8>, Seq<u8>>,
    entries: Seq<(Seq<u8>, Seq<u8>)>,
) -> Map<Seq<u8>, Seq<u8>>
    decreases entries.len(),
{
    if entries.len() == 0 {
        m
    } else {
        kv_insert_all(m.insert(entries[0].0, entries[0].1), entries.drop_first())
    }
}

/// The map after removing the given keys in order.
pub open spec fn kv_remove_all(m: Map<Seq<u8>, Seq<u8>>, keys: Seq<Seq<u8>>) -> Map<
    Seq<u8>,
    Seq<u8>,
>
    decreases keys.len(),
{
    if keys.len() == 0 {
        m
    } else {
        kv_remove_all(m.remove(keys[0]), keys.drop_first())
    }
}

/// For each key in order: whether it was present when its removal ran.
pub open spec fn kv_removed_flags(m: Map<Seq<u8>, Seq<u8>>, keys: Seq<Seq<u8>>) -> Seq<bool>
    decreases keys.len(),
{
    if keys.len() == 0 {
        Seq::<bool>::empty()
    } else {
        seq![m.contains_key(keys[0])] + kv_removed_flags(m.remove(keys[0]), keys.drop_first())
    }
}

impl KvStore {
    /// Relies on `redb::Database::create`: open the file at `path`, creating
    /// it when missing, and create the table eagerly in one committed write
    /// transaction so later operations never race on table creation. The
    /// table name must not be empty: `redb::TableDefinition::new` panics on
    /// an empty name.
    #[verifier::external_body]
    pub(crate) fn create(path: &str, table: &str) -> (r: Result<KvStore, RedbBackendError>)
        requires
            table@.len() > 0,
        ensures
            r matches Ok(s) ==> kv_contents(s).dom().finite(),
            r matches Err(e) ==> e is DatabaseError || e is TransactionError || e is TableError
                || e is CommitError,
    {
        let db = redb::Database::create(path)
            .map_err(|e| RedbBackendError::DatabaseError(format!("{e}")))?;
        let txn = db.begin_write()
            .map_err(|e| RedbBackendError::TransactionError(format!("{e}")))?;
        txn.open_table(redb::TableDefinition::<&[u8], &[u8]>::new(table))
            .map_err(|e| RedbBackendError::TableError(format!("{e}")))?;
        txn.commit().map_err(|e| RedbBackendError::CommitError(format!("{e}")))?;
        Ok(KvStore { db, table: table.to_owned() })
    }

    /// Relies on `redb::Database::open`: open the file at `path`, failing
    /// when it does not exist, without creating anything in it. The table
    /// name must not be empty: every method of the store builds a
    /// `redb::TableDefinition` from it, whose constructor panics on an
    /// empty name.
    #[verifier::external_body]
    pub(crate) fn open(path: &str, table: &str) -> (r: Result<KvStore, RedbBackendError>)
        requires
            table@.len() > 0,
        ensures
            r matches Ok(s) ==> kv_contents(s).dom().finite(),
            r matches Err(e) ==> e is DatabaseError,
    {
        let db = redb::Database::open(path)
            .map_err(|e| RedbBackendError::DatabaseError(format!("{e}")))?;
        Ok(KvStore { db, table: table.to_owned() })
    }

    /// Relies on `redb::Table::get` inside one read transaction: the value
    /// stored under the key, if any.
    #[verifier::external_body]
    pub(crate) fn get(&self, key: &[u8]) -> (r: Result<Option<Vec<u8>>, RedbBackendError>)
        ensures
            r matches Ok(o) ==> (o is Some <==> kv_contents(*self).contains_key(key@)),
            r matches Ok(o) ==> o matches Some(v) ==> kv_contents(*self)[key@] == v@,
            r matches Err(e) ==> e is TransactionError || e is TableError || e is StorageError,
    {
        let txn = self.db.begin_read()
            .map_err(|e| RedbBackendError::TransactionError(format!("{e}")))?;
        let t = txn.open_table(redb::TableDefinition::<&[u8], &[u8]>::new(self.table.as_str()))
            .map_err(|e| RedbBackendError::TableError(format!("{e}")))?;
        let g = t.get(key).map_err(|e| RedbBackendError::StorageError(format!("{e}")))?;
        Ok(g.map(|v| v.value().to_vec()))
    }

    /// Relies on `redb::Table::insert` in one committed write transaction:
    /// the key maps to the value afterwards, any prior value replaced.
    #[verifier::external_body]
    pub(crate) fn insert(&mut self, key: &[u8], value: &[u8]) -> (r: Result<
        (),
        RedbBackendError,
    >)
        ensures
            r is Ok ==> kv_contents(*final(self)) == kv_contents(*old(self)).insert(key@, value@),
            r is Err ==> kv_contents(*final(self)) == kv_contents(*old(self)) || kv_contents(
                *final(self),
            ) == kv_contents(*old(self)).insert(key@, value@),
            r matches Err(e) ==> e is TransactionError || e is TableError || e is StorageError
                || e is CommitError,
    {
        let txn = self.db.begin_write()
            .map_err(|e| RedbBackendError::TransactionError(format!("{e}")))?;
        {
            let mut t = txn.open_table(
                redb::TableDefinition::<&[u8], &[u8]>::new(self.table.as_str()),
            ).map_err(|e| RedbBackendError::TableError(format!("{e}")))?;
            t.insert(key, value).map_err(|e| RedbBackendError::StorageError(format!("{e}")))?;
        }
        txn.commit().map_err(|e| RedbBackendError::CommitError(format!("{e}")))?;
        Ok(())
    }

    /// Relies on `redb::Table::insert` for every entry in one committed
    /// write transaction: all entries become visible together, or none.
    #[verifier::external_body]
    pub(crate) fn insert_many(&mut self, entries: &Vec<(Vec<u8>, Vec<u8>)>) -> (r: Result<
        (),
        RedbBackendError,
    >)
        ensures
            r is Ok ==> kv_contents(*final(self)) == kv_insert_all(
                kv_contents(*old(self)),
                pairs_view(entries@),
            ),
            r is Err ==> kv_contents(*final(self)) == kv_contents(*old(self)) || kv_contents(
                *final(self),
            ) == kv_insert_all(kv_contents(*old(self)), pairs_view(entries@)),
            r matches Err(e) ==> e is TransactionError || e is TableError || e is StorageError
                || e is CommitError,
    {
        let txn = self.db.begin_write()
            .map_err(|e| RedbBackendError::TransactionError(format!("{e}")))?;
        {
            let mut t = txn.open_table(
                redb::TableDefinition::<&[u8], &[u8]>::new(self.table.as_str()),
            ).map_err(|e| RedbBackendError::TableError(format!("{e}")))?;
            for e in entries.iter() {
                t.insert(e.0.as_slice(), e.1.as_slice())
                    .map_err(|e| RedbBackendError::StorageError(format!("{e}")))?;
            }
        }
        txn.commit().map_err(|e| RedbBackendError::CommitError(format!("{e}")))?;
        Ok(())
    }

    /// Relies on `redb::Table::remove` in one committed write transaction:
    /// the key is absent afterwards; reports whether it was present.
    #[verifier::external_body]
    pub(crate) fn remove(&mut self, key: &[u8]) -> (r: Result<bool, RedbBackendError>)
        ensures
            r matches Ok(existed) ==> kv_contents(*final(self)) == kv_contents(
                *old(self),
            ).remove(key@) && (existed <==> kv_contents(*old(self)).contains_key(key@)),
            r is Err ==> kv_contents(*final(self)) == kv_contents(*old(self)) || kv_contents(
                *final(self),
            ) == kv_contents(*old(self)).remove(key@),
            r matches Err(e) ==> e is TransactionError || e is TableError || e is StorageError
                || e is CommitError,
    {
        let txn = self.db.begin_write()
            .map_err(|e| RedbBackendError::TransactionError(format!("{e}")))?;
        let existed;
        {
            let mut t = txn.open_table(
                redb::TableDefinition::<&[u8], &[u8]>::new(self.table.as_str()),
            ).map_err(|e| RedbBackendError::TableError(format!("{e}")))?;
            existed = t.remove(key)
                .map_err(|e| RedbBackendError::StorageError(format!("{e}")))?.is_some();
        }
        txn.commit().map_err(|e| RedbBackendError::CommitError(format!("{e}")))?;
        Ok(existed)
    }

    /// Relies on `redb::Table::remove` for every key in one committed write
    /// transaction: all removals land together, or none. Reports, for each
    /// key in order, whether it was present when its removal ran.
    #[verifier::external_body]
    pub(crate) fn remove_many(&mut self, keys: &Vec<Vec<u8>>) -> (r: Result<
        Vec<bool>,
        RedbBackendError,
    >)
        ensures
            r matches Ok(flags) ==> kv_contents(*final(self)) == kv_remove_all(
                kv_contents(*old(self)),
                keys@.map(|i: int, k: Vec<u8>| k@),
            ) && flags@ == kv_removed_flags(
                kv_contents(*old(self)),
                keys@.map(|i: int, k: Vec<u8>| k@),
            ),
            r is Err ==> kv_contents(*final(self)) == kv_contents(*old(self)) || kv_contents(
                *final(self),
            ) == kv_remove_all(kv_contents(*old(self)), keys@.map(|i: int, k: Vec<u8>| k@)),
            r matches Err(e) ==> e is TransactionError || e is TableError || e is StorageError
                || e is CommitError,
    {
        let txn = self.db.begin_write()
            .map_err(|e| RedbBackendError::TransactionError(format!("{e}")))?;
        let mut flags = Vec::new();
        {
            let mut t = txn.open_table(
                redb::TableDefinition::<&[u8], &[u8]>::new(self.table.as_str()),
            ).map_err(|e| RedbBackendError::TableError(format!("{e}")))?;
            for k in keys.iter() {
                flags.push(t.remove(k.as_slice())
                    .map_err(|e| RedbBackendError::StorageError(format!("{e}")))?.is_some());
            }
        }
        txn.commit().map_err(|e| RedbBackendError::CommitError(format!("{e}")))?;
        Ok(flags)
    }

    /// Relies on `redb::ReadableTable::iter` inside one read transaction:
    /// all live pairs, one per key, exactly the committed contents.
    #[verifier::external_body]
    pub(crate) fn snapshot(&self) -> (r: Result<Vec<(Vec<u8>, Vec<u8>)>, RedbBackendError>)
        ensures
            r matches Ok(es) ==> kv_contents(*self).dom().finite() && es@.len() == kv_contents(
                *self,
            ).len(),
            r matches Ok(es) ==> forall|i: int|
                0 <= i < pairs_view(es@).len() ==> kv_contents(*self).contains_key(
                    pairs_view(es@)[i].0,
                ) && kv_contents(*self)[pairs_view(es@)[i].0] == pairs_view(es@)[i].1,
            r matches Ok(es) ==> forall|k: Seq<u8>|
                kv_contents(*self).contains_key(k) ==> exists|i: int|
                    0 <= i < pairs_view(es@).len() && pairs_view(es@)[i].0 == k,
            r matches Ok(es) ==> forall|i: int, j: int|
                0 <= i < j < pairs_view(es@).len() ==> pairs_view(es@)[i].0 != pairs_view(
                    es@,
                )[j].0,
            r matches Err(e) ==> e is TransactionError || e is TableError || e is StorageError,
    {
        let txn = self.db.begin_read()
            .map_err(|e| RedbBackendError::TransactionError(format!("{e}")))?;
        let t = txn.open_table(redb::TableDefinition::<&[u8], &[u8]>::new(self.table.as_str()))
            .map_err(|e| RedbBackendError::TableError(format!("{e}")))?;
        let mut out = Vec::new();
        let iter = redb::ReadableTable::iter(&t)
            .map_err(|e| RedbBackendError::StorageError(format!("{e}")))?;
        for item in iter {
            let (k, v) = item.map_err(|e| RedbBackendError::StorageError(format!("{e}")))?;
            out.push((k.value().to_vec(), v.value().to_vec()));
        }
        Ok(out)
    }

    /// Relies on `redb::ReadableTableMetadata::len` inside one read
    /// transaction: the number of live entries.
    #[verifier::external_body]
    pub(crate) fn len(&self) -> (r: Result<usize, RedbBackendError>)
        ensures
            r matches Ok(n) ==> kv_contents(*self).dom().finite() && n == kv_contents(
                *self,
            ).len(),
            r matches Err(e) ==> e is TransactionError || e is TableError || e is StorageError,
    {
        let txn = self.db.begin_read()
            .map_err(|e| RedbBackendError::TransactionError(format!("{e}")))?;
        let t = txn.open_table(redb::TableDefinition::<&[u8], &[u8]>::new(self.table.as_str()))
            .map_err(|e| RedbBackendError::TableError(format!("{e}")))?;
        let n = redb::ReadableTableMetadata::len(&t)
            .map_err(|e| RedbBackendError::StorageError(format!("{e}")))?;
        Ok(n as usize)
    }

    /// Relies on `redb::WriteTransaction::delete_table` followed by table
    /// re-creation in one committed write transaction: the table is empty
    /// afterwards.
    #[verifier::external_body]
    pub(crate) fn clear(&mut self) -> (r: Result<(), RedbBackendError>)
        ensures
            r is Ok ==> kv_contents(*final(self)) == kv_empty(),
            r is Err ==> kv_contents(*final(self)) == kv_contents(*old(self)) || kv_contents(
                *final(self),
            ) == kv_empty(),
            r matches Err(e) ==> e is TransactionError || e is TableError || e is CommitError,
    {
        let txn = self.db.begin_write()
            .map_err(|e| RedbBackendError::TransactionError(format!("{e}")))?;
        let def = redb::TableDefinition::<&[u8], &[u8]>::new(self.table.as_str());
        txn.delete_table(def).map_err(|e| RedbBackendError::TableError(format!("{e}")))?;
        txn.open_table(def).map_err(|e| RedbBackendError::TableError(format!("{e}")))?;
        txn.commit().map_err(|e| RedbBackendError::CommitError(format!("{e}")))?;
        Ok(())
    }
}

} // verus!
