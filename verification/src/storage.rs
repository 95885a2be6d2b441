//! The storage engine: CRUD, batch and query operations over one database
//! file.
//!
//! A storage owns one [`KvStore`] together with its configuration and name.
//! Its state is the committed map from stored key bytes to value bytes,
//! `self@`. Logical keys go through the key transform of [`crate::keyspace`]
//! on the way in and out; values go through the codec of [`crate::codec`].
//!
//! This implementation keeps one combined table: the stored key bytes map
//! directly to the encoded value blob, and deleting a key removes its entry
//! outright rather than writing a tombstone.

use vstd::prelude::*;
use vstd::utf8::encode_utf8;

use crate::codec::{
    decode_value, encode_value, lemma_value_round_trip, spec_decode_value, spec_encode_value,
    StoredValue, StoredValueView,
};
use crate::config::RedbStorageConfig;
use crate::error::RedbBackendError;
use crate::keyspace::{
    bytes_eq, bytes_starts_with, decode_key, encode_key, lemma_stored_key_of_decoded,
    spec_decoded_key, spec_stored_key_bytes,
};
use crate::kv::{
    kv_contents, kv_empty, kv_insert_all, kv_remove_all, kv_removed_flags, pairs_view, KvStore,
};
use crate::matcher::{matches_wildcard, spec_matches};

verus! {

/// The stored byte pairs that a batch of entries writes, in order: each
/// logical key through the key transform, each value through the codec.
pub open spec fn spec_encoded_entries(
    cfg: RedbStorageConfig,
    entries: Seq<(String, StoredValue)>,
) -> Seq<(Seq<u8>, Seq<u8>)> {
    entries.map(
        |i: int, e: (String, StoredValue)|
            (spec_stored_key_bytes(cfg, e.0@), spec_encode_value(e.1@)),
    )
}

/// Whether every entry's encoding tag fits the codec's length field.
pub open spec fn entries_encodable(entries: Seq<(String, StoredValue)>) -> bool {
    forall|i: int|
        0 <= i < entries.len() ==> encode_utf8(#[trigger] entries[i].1.encoding@).len() <= 65535
}

/// The stored byte forms of a list of logical keys, in order.
pub open spec fn spec_encoded_keys(cfg: RedbStorageConfig, keys: Seq<String>) -> Seq<Seq<u8>> {
    keys.map(|i: int, k: String| spec_stored_key_bytes(cfg, k@))
}

/// The number of `true` values in a sequence.
pub open spec fn count_trues(s: Seq<bool>) -> int
    decreases s.len(),
{
    if s.len() == 0 {
        0
    } else {
        (if s[0] {
            1int
        } else {
            0int
        }) + count_trues(s.drop_first())
    }
}

/// Appending one flag adds one to the count exactly when it is `true`.
proof fn lemma_count_trues_push(s: Seq<bool>, b: bool)
    ensures
        count_trues(s.push(b)) == count_trues(s) + (if b {
            1int
        } else {
            0int
        }),
    decreases s.len(),
{
    if s.len() == 0 {
        assert(s.push(b)[0] == b);
        assert(s.push(b).drop_first() =~= Seq::<bool>::empty());
        assert(count_trues(Seq::<bool>::empty()) == 0);
    } else {
        assert(s.push(b)[0] == s[0]);
        assert(s.push(b).drop_first() =~= s.drop_first().push(b));
        lemma_count_trues_push(s.drop_first(), b);
    }
}

/// Whether some entry of `es` reports the stored key `sk`: its logical key
/// encodes to `sk` under the configuration.
pub open spec fn covers(
    cfg: RedbStorageConfig,
    es: Seq<(String, StoredValue)>,
    sk: Seq<u8>,
) -> bool {
    exists|i: int|
        0 <= i < es.len() && spec_stored_key_bytes(cfg, #[trigger] es[i].0@) == sk
}

/// A stored key that some entry reports is still reported after one more
/// entry is appended.
proof fn lemma_covers_extend(
    cfg: RedbStorageConfig,
    es: Seq<(String, StoredValue)>,
    x: (String, StoredValue),
    sk: Seq<u8>,
)
    requires
        covers(cfg, es, sk),
    ensures
        covers(cfg, es.push(x), sk),
{
    let i = choose|i: int|
        0 <= i < es.len() && spec_stored_key_bytes(cfg, #[trigger] es[i].0@) == sk;
    assert(es.push(x)[i] == es[i]);
    assert(spec_stored_key_bytes(cfg, es.push(x)[i].0@) == sk);
}

/// One storage instance: an open database file, its configuration and its
/// name.
pub struct RedbStorage {
    store: KvStore,
    config: RedbStorageConfig,
    name: String,
}

impl View for RedbStorage {
    type V = Map<Seq<u8>, Seq<u8>>;

    /// The committed contents: stored key bytes to encoded value bytes.
    closed spec fn view(&self) -> Map<Seq<u8>, Seq<u8>> {
        kv_contents(self.store)
    }
}

impl RedbStorage {
    /// The configuration the storage was created with.
    pub closed spec fn spec_config(self) -> RedbStorageConfig {
        self.config
    }

    /// The name the storage was created under.
    pub closed spec fn spec_name(self) -> Seq<char> {
        self.name@
    }

    /// The stored form of a logical key under this storage's configuration.
    pub open spec fn stored_key(self, key: Seq<char>) -> Seq<u8> {
        spec_stored_key_bytes(self.spec_config(), key)
    }

    /// The logical key a stored key stands for, when it decodes.
    pub open spec fn decoded_key(self, sk: Seq<u8>) -> Option<Seq<char>> {
        spec_decoded_key(self.spec_config(), sk)
    }

    /// Whether the returned pair `(k, v)` faithfully reports one live entry:
    /// the stored form of `k` is live, holds the byte form of `v`, and
    /// decodes back to `k`.
    pub open spec fn entry_valid(self, k: Seq<char>, v: StoredValueView) -> bool {
        &&& self@.contains_key(self.stored_key(k))
        &&& spec_decode_value(self@[self.stored_key(k)]) == Some(v)
        &&& self.decoded_key(self.stored_key(k)) == Some(k)
    }

    /// Open or create the database file at `path` and return a storage over
    /// it. The file is opened without creating when the configuration is
    /// read-only or forbids creation; otherwise a missing file is created
    /// and the table is set up eagerly.
    ///
    /// Fails with [`RedbBackendError::ConfigError`] when the configured
    /// table name is empty, and only then; other failures carry the
    /// engine's error variants.
    pub fn new(path: &str, config: RedbStorageConfig, name: String) -> (r: Result<
        RedbStorage,
        RedbBackendError,
    >)
        ensures
            r matches Ok(s) ==> s.spec_config() == config && s.spec_name() == name@,
            config.table_name@.len() == 0 ==> (r matches Err(e) && e is ConfigError),
            config.table_name@.len() > 0 ==> (r matches Err(e) ==> e is DatabaseError
                || e is TransactionError || e is TableError || e is CommitError),
    {
        if config.table_name.as_str().is_empty() {
            return Err(RedbBackendError::config("table name must not be empty".to_owned()));
        }
        let store = if config.read_only || !config.create_db {
            KvStore::open(path, config.table_name.as_str())?
        } else {
            KvStore::create(path, config.table_name.as_str())?
        };
        Ok(RedbStorage { store, config, name })
    }

    /// The storage name.
    pub fn name(&self) -> (r: &str)
        ensures
            r@ == self.spec_name(),
    {
        self.name.as_str()
    }

    /// The storage configuration.
    pub fn config(&self) -> (r: &RedbStorageConfig)
        ensures
            *r == self.spec_config(),
    {
        &self.config
    }

    /// Store a value under a key, replacing any prior value, in one
    /// committed write transaction.
    ///
    /// Fails with [`RedbBackendError::ReadOnlyViolation`] on a read-only
    /// storage and with [`RedbBackendError::ValueEncodingError`] when the
    /// value's encoding tag is oversized; the contents are then unchanged.
    /// On an engine failure the write is all-or-nothing and the error
    /// carries one of the engine's variants.
    pub fn put(&mut self, key: &str, value: StoredValue) -> (r: Result<(), RedbBackendError>)
        ensures
            final(self).spec_config() == old(self).spec_config(),
            final(self).spec_name() == old(self).spec_name(),
            old(self).spec_config().read_only ==> (r matches Err(e) && e is ReadOnlyViolation)
                && *final(self) == *old(self),
            !old(self).spec_config().read_only && encode_utf8(value.encoding@).len() > 65535 ==> (
            r matches Err(e) && e is ValueEncodingError) && *final(self) == *old(self),
            !old(self).spec_config().read_only && encode_utf8(value.encoding@).len() <= 65535 ==> {
                &&& r is Ok ==> final(self)@ == old(self)@.insert(
                    old(self).stored_key(key@),
                    spec_encode_value(value@),
                )
                &&& r is Err ==> final(self)@ == old(self)@ || final(self)@ == old(
                    self,
                )@.insert(old(self).stored_key(key@), spec_encode_value(value@))
                &&& r matches Err(e) ==> e is TransactionError || e is TableError
                    || e is StorageError || e is CommitError
            },
    {
        if self.config.read_only {
            return Err(RedbBackendError::ReadOnlyViolation);
        }
        let k = encode_key(&self.config, key);
        let v = encode_value(&value)?;
        self.store.insert(k.as_slice(), v.as_slice())
    }

    /// Retrieve the value stored under a key, in one read transaction.
    ///
    /// Returns `Ok(None)` when the key is absent; fails with
    /// [`RedbBackendError::SerializationError`] when the stored bytes are
    /// not a well-formed value.
    pub fn get(&self, key: &str) -> (r: Result<Option<StoredValue>, RedbBackendError>)
        ensures
            r matches Ok(o) ==> (o is Some <==> self@.contains_key(self.stored_key(key@))),
            r matches Ok(o) ==> o matches Some(v) ==> spec_decode_value(
                self@[self.stored_key(key@)],
            ) == Some(v@),
    {
        let k = encode_key(&self.config, key);
        match self.store.get(k.as_slice())? {
            None => Ok(None),
            Some(bytes) => {
                let v = decode_value(bytes.as_slice())?;
                Ok(Some(v))
            },
        }
    }

    /// Remove the value stored under a key, in one committed write
    /// transaction; removing an absent key is not an error. Reports whether
    /// the key was present.
    ///
    /// Fails with [`RedbBackendError::ReadOnlyViolation`] on a read-only
    /// storage; the contents are then unchanged. On an engine failure the
    /// removal is all-or-nothing and the error carries one of the engine's
    /// variants.
    pub fn delete(&mut self, key: &str) -> (r: Result<bool, RedbBackendError>)
        ensures
            final(self).spec_config() == old(self).spec_config(),
            final(self).spec_name() == old(self).spec_name(),
            old(self).spec_config().read_only ==> (r matches Err(e) && e is ReadOnlyViolation)
                && *final(self) == *old(self),
            !old(self).spec_config().read_only ==> {
                &&& r matches Ok(existed) ==> final(self)@ == old(self)@.remove(
                    old(self).stored_key(key@),
                ) && (existed <==> old(self)@.contains_key(old(self).stored_key(key@)))
                &&& r is Err ==> final(self)@ == old(self)@ || final(self)@ == old(
                    self,
                )@.remove(old(self).stored_key(key@))
                &&& r matches Err(e) ==> e is TransactionError || e is TableError
                    || e is StorageError || e is CommitError
            },
    {
        if self.config.read_only {
            return Err(RedbBackendError::ReadOnlyViolation);
        }
        let k = encode_key(&self.config, key);
        self.store.remove(k.as_slice())
    }

    /// The number of live entries, from one read transaction.
    pub fn count(&self) -> (r: Result<usize, RedbBackendError>)
        ensures
            r matches Ok(n) ==> self@.dom().finite() && n == self@.len(),
    {
        self.store.len()
    }

    /// Remove every entry at once, by dropping and recreating the table in
    /// one committed write transaction.
    ///
    /// Fails with [`RedbBackendError::ReadOnlyViolation`] on a read-only
    /// storage; the contents are then unchanged. On an engine failure the
    /// clearing is all-or-nothing and the error carries one of the engine's
    /// variants.
    pub fn clear(&mut self) -> (r: Result<(), RedbBackendError>)
        ensures
            final(self).spec_config() == old(self).spec_config(),
            final(self).spec_name() == old(self).spec_name(),
            old(self).spec_config().read_only ==> (r matches Err(e) && e is ReadOnlyViolation)
                && *final(self) == *old(self),
            !old(self).spec_config().read_only ==> {
                &&& r is Ok ==> final(self)@ == kv_empty()
                &&& r is Err ==> final(self)@ == old(self)@ || final(self)@ == kv_empty()
                &&& r matches Err(e) ==> e is TransactionError || e is TableError
                    || e is CommitError
            },
    {
        if self.config.read_only {
            return Err(RedbBackendError::ReadOnlyViolation);
        }
        self.store.clear()
    }

    /// Whether a key matches a glob pattern; `*` matches one segment, `**`
    /// any number of segments.
    pub fn matches_wildcard(key: &str, pattern: &str) -> (r: bool)
        ensures
            r == spec_matches(key@, pattern@),
    {
        matches_wildcard(key, pattern)
    }

    /// Every live `(key, value)` pair, from one read transaction snapshot.
    ///
    /// Fails when a stored key is not valid UTF-8 or a stored value blob is
    /// malformed.
    #[verifier::loop_isolation(false)]
    pub fn get_all(&self) -> (r: Result<Vec<(String, StoredValue)>, RedbBackendError>)
        ensures
            r matches Ok(es) ==> es@.len() == self@.len() && self@.dom().finite(),
            r matches Ok(es) ==> forall|i: int|
                0 <= i < es@.len() ==> self.entry_valid(#[trigger] es@[i].0@, es@[i].1@),
            r matches Ok(es) ==> forall|sk: Seq<u8>|
                #[trigger] self@.contains_key(sk) ==> covers(self.spec_config(), es@, sk),
            r matches Ok(es) ==> forall|i: int, j: int|
                0 <= i < j < es@.len() ==> self.stored_key(#[trigger] es@[i].0@) != self.stored_key(
                    #[trigger] es@[j].0@,
                ),
    {
        let pairs = self.store.snapshot()?;
        let mut out: Vec<(String, StoredValue)> = Vec::new();
        let mut j: usize = 0;
        while j < pairs.len()
            invariant
                j <= pairs@.len(),
                out@.len() == j,
                forall|u: int|
                    0 <= u < out@.len() ==> self.entry_valid(#[trigger] out@[u].0@, out@[u].1@),
                forall|u: int|
                    0 <= u < out@.len() ==> self.stored_key(#[trigger] out@[u].0@) == pairs_view(
                        pairs@,
                    )[u].0,
                forall|t: int|
                    0 <= t < j ==> covers(
                        self.spec_config(),
                        out@,
                        #[trigger] pairs_view(pairs@)[t].0,
                    ),
            decreases pairs@.len() - j,
        {
            assert(pairs_view(pairs@)[j as int].0 == pairs@[j as int].0@);
            let key_str = decode_key(&self.config, pairs[j].0.as_slice())?;
            let value = decode_value(pairs[j].1.as_slice())?;
            proof {
                lemma_stored_key_of_decoded(self.config, pairs@[j as int].0@);
            }
            let ghost out_prev = out@;
            let ghost pushed = (key_str, value);
            out.push((key_str, value));
            proof {
                assert(out@ == out_prev.push(pushed));
                assert(spec_stored_key_bytes(self.spec_config(), out@[out@.len() - 1].0@)
                    == pairs_view(pairs@)[j as int].0);
                assert forall|t: int| 0 <= t < j + 1 implies covers(
                    self.spec_config(),
                    out@,
                    #[trigger] pairs_view(pairs@)[t].0,
                ) by {
                    if t < j {
                        lemma_covers_extend(
                            self.spec_config(),
                            out_prev,
                            pushed,
                            pairs_view(pairs@)[t].0,
                        );
                    }
                }
            }
            j = j + 1;
        }
        assert forall|sk: Seq<u8>| #[trigger] self@.contains_key(sk) implies covers(
            self.spec_config(),
            out@,
            sk,
        ) by {
            let t = choose|t: int|
                0 <= t < pairs_view(pairs@).len() && pairs_view(pairs@)[t].0 == sk;
            assert(covers(self.spec_config(), out@, pairs_view(pairs@)[t].0));
        }
        Ok(out)
    }

    /// Every live `(key, value)` pair whose stored key begins with the
    /// stored form of `prefix`, from one read transaction snapshot.
    ///
    /// Fails when a matching entry's key is not valid UTF-8 or its value
    /// blob is malformed; entries outside the prefix are never decoded.
    #[verifier::loop_isolation(false)]
    pub fn get_by_prefix(&self, prefix: &str) -> (r: Result<
        Vec<(String, StoredValue)>,
        RedbBackendError,
    >)
        ensures
            r matches Ok(es) ==> forall|i: int|
                0 <= i < es@.len() ==> self.entry_valid(#[trigger] es@[i].0@, es@[i].1@)
                    && self.stored_key(prefix@).is_prefix_of(self.stored_key(es@[i].0@)),
            r matches Ok(es) ==> forall|sk: Seq<u8>|
                #[trigger] self@.contains_key(sk) && self.stored_key(prefix@).is_prefix_of(sk)
                    ==> covers(self.spec_config(), es@, sk),
            r matches Ok(es) ==> forall|i: int, j: int|
                0 <= i < j < es@.len() ==> self.stored_key(#[trigger] es@[i].0@) != self.stored_key(
                    #[trigger] es@[j].0@,
                ),
    {
        let pv = encode_key(&self.config, prefix);
        let pairs = self.store.snapshot()?;
        let mut out: Vec<(String, StoredValue)> = Vec::new();
        let ghost mut src: Seq<int> = Seq::empty();
        let mut j: usize = 0;
        while j < pairs.len()
            invariant
                j <= pairs@.len(),
                src.len() == out@.len(),
                forall|u: int| 0 <= u < src.len() ==> 0 <= #[trigger] src[u] < j,
                forall|u: int|
                    0 <= u < out@.len() ==> self.stored_key(#[trigger] out@[u].0@) == pairs_view(
                        pairs@,
                    )[src[u]].0,
                forall|u1: int, u2: int| 0 <= u1 < u2 < src.len() ==> src[u1] < src[u2],
                forall|u: int|
                    0 <= u < out@.len() ==> self.entry_valid(#[trigger] out@[u].0@, out@[u].1@)
                        && self.stored_key(prefix@).is_prefix_of(self.stored_key(out@[u].0@)),
                forall|t: int|
                    0 <= t < j && self.stored_key(prefix@).is_prefix_of(
                        #[trigger] pairs_view(pairs@)[t].0,
                    ) ==> covers(self.spec_config(), out@, pairs_view(pairs@)[t].0),
            decreases pairs@.len() - j,
        {
            assert(pairs_view(pairs@)[j as int].0 == pairs@[j as int].0@);
            let ghost out_prev = out@;
            if bytes_starts_with(pairs[j].0.as_slice(), pv.as_slice()) {
                let key_str = decode_key(&self.config, pairs[j].0.as_slice())?;
                let value = decode_value(pairs[j].1.as_slice())?;
                proof {
                    lemma_stored_key_of_decoded(self.config, pairs@[j as int].0@);
                }
                let ghost pushed = (key_str, value);
                out.push((key_str, value));
                proof {
                    let src_prev = src;
                    src = src.push(j as int);
                    assert(out@ == out_prev.push(pushed));
                    assert(spec_stored_key_bytes(self.spec_config(), out@[out@.len() - 1].0@)
                        == pairs_view(pairs@)[j as int].0);
                    assert forall|u: int| 0 <= u < src.len() implies 0 <= #[trigger] src[u] < j
                        + 1 by {
                        if u < src.len() - 1 {
                            assert(src[u] == src_prev[u]);
                            assert(src_prev[u] < j);
                        } else {
                            assert(src[u] == j as int);
                        }
                    }
                    assert forall|u: int|
                        0 <= u < out@.len() implies self.stored_key(#[trigger] out@[u].0@)
                        == pairs_view(pairs@)[src[u]].0 by {
                        if u < out@.len() - 1 {
                            assert(out@[u] == out_prev[u]);
                            assert(src[u] == src_prev[u]);
                            assert(self.stored_key(out_prev[u].0@) == pairs_view(
                                pairs@,
                            )[src_prev[u]].0);
                        } else {
                            assert(src[u] == j as int);
                        }
                    }
                    assert forall|u1: int, u2: int|
                        0 <= u1 < u2 < src.len() implies src[u1] < src[u2] by {
                        if u2 < src.len() - 1 {
                            assert(src[u1] == src_prev[u1]);
                            assert(src[u2] == src_prev[u2]);
                        } else {
                            assert(src[u1] == src_prev[u1]);
                            assert(src_prev[u1] < j);
                            assert(src[u2] == j as int);
                        }
                    }
                    assert forall|t: int|
                        0 <= t < j + 1 && self.stored_key(prefix@).is_prefix_of(
                            #[trigger] pairs_view(pairs@)[t].0,
                        ) implies covers(
                        self.spec_config(),
                        out@,
                        pairs_view(pairs@)[t].0,
                    ) by {
                        if t < j {
                            lemma_covers_extend(
                                self.spec_config(),
                                out_prev,
                                pushed,
                                pairs_view(pairs@)[t].0,
                            );
                        }
                    }
                }
            }
            j = j + 1;
        }
        assert forall|sk: Seq<u8>|
            #[trigger] self@.contains_key(sk) && self.stored_key(prefix@).is_prefix_of(
                sk,
            ) implies covers(self.spec_config(), out@, sk) by {
            let t = choose|t: int|
                0 <= t < pairs_view(pairs@).len() && pairs_view(pairs@)[t].0 == sk;
            assert(covers(self.spec_config(), out@, pairs_view(pairs@)[t].0));
        }
        Ok(out)
    }

    /// Every live `(key, value)` pair whose logical key matches the glob
    /// pattern, from one read transaction snapshot.
    ///
    /// Every stored key is decoded for matching, so any key that is not
    /// valid UTF-8 fails the whole query, as does a malformed value blob of
    /// a matching entry.
    #[verifier::loop_isolation(false)]
    pub fn get_by_wildcard(&self, pattern: &str) -> (r: Result<
        Vec<(String, StoredValue)>,
        RedbBackendError,
    >)
        ensures
            r matches Ok(es) ==> forall|i: int|
                0 <= i < es@.len() ==> self.entry_valid(#[trigger] es@[i].0@, es@[i].1@)
                    && spec_matches(es@[i].0@, pattern@),
            r matches Ok(es) ==> forall|sk: Seq<u8>|
                #[trigger] self@.contains_key(sk) ==> self.decoded_key(sk) is Some,
            r matches Ok(es) ==> forall|sk: Seq<u8>|
                #[trigger] self@.contains_key(sk) && spec_matches(
                    self.decoded_key(sk)->Some_0,
                    pattern@,
                ) ==> covers(self.spec_config(), es@, sk),
            r matches Ok(es) ==> forall|i: int, j: int|
                0 <= i < j < es@.len() ==> self.stored_key(#[trigger] es@[i].0@) != self.stored_key(
                    #[trigger] es@[j].0@,
                ),
    {
        let pairs = self.store.snapshot()?;
        let mut out: Vec<(String, StoredValue)> = Vec::new();
        let ghost mut src: Seq<int> = Seq::empty();
        let mut j: usize = 0;
        while j < pairs.len()
            invariant
                j <= pairs@.len(),
                src.len() == out@.len(),
                forall|u: int| 0 <= u < src.len() ==> 0 <= #[trigger] src[u] < j,
                forall|u: int|
                    0 <= u < out@.len() ==> self.stored_key(#[trigger] out@[u].0@) == pairs_view(
                        pairs@,
                    )[src[u]].0,
                forall|u1: int, u2: int| 0 <= u1 < u2 < src.len() ==> src[u1] < src[u2],
                forall|u: int|
                    0 <= u < out@.len() ==> self.entry_valid(#[trigger] out@[u].0@, out@[u].1@)
                        && spec_matches(out@[u].0@, pattern@),
                forall|t: int|
                    0 <= t < j ==> self.decoded_key(#[trigger] pairs_view(pairs@)[t].0) is Some,
                forall|t: int|
                    0 <= t < j && spec_matches(
                        self.decoded_key(#[trigger] pairs_view(pairs@)[t].0)->Some_0,
                        pattern@,
                    ) ==> covers(self.spec_config(), out@, pairs_view(pairs@)[t].0),
            decreases pairs@.len() - j,
        {
            assert(pairs_view(pairs@)[j as int].0 == pairs@[j as int].0@);
            let key_str = decode_key(&self.config, pairs[j].0.as_slice())?;
            proof {
                lemma_stored_key_of_decoded(self.config, pairs@[j as int].0@);
            }
            let ghost out_prev = out@;
            if matches_wildcard(key_str.as_str(), pattern) {
                let value = decode_value(pairs[j].1.as_slice())?;
                let ghost pushed = (key_str, value);
                out.push((key_str, value));
                proof {
                    let src_prev = src;
                    src = src.push(j as int);
                    assert(out@ == out_prev.push(pushed));
                    assert(spec_stored_key_bytes(self.spec_config(), out@[out@.len() - 1].0@)
                        == pairs_view(pairs@)[j as int].0);
                    assert forall|u: int| 0 <= u < src.len() implies 0 <= #[trigger] src[u] < j
                        + 1 by {
                        if u < src.len() - 1 {
                            assert(src[u] == src_prev[u]);
                            assert(src_prev[u] < j);
                        } else {
                            assert(src[u] == j as int);
                        }
                    }
                    assert forall|u: int|
                        0 <= u < out@.len() implies self.stored_key(#[trigger] out@[u].0@)
                        == pairs_view(pairs@)[src[u]].0 by {
                        if u < out@.len() - 1 {
                            assert(out@[u] == out_prev[u]);
                            assert(src[u] == src_prev[u]);
                            assert(self.stored_key(out_prev[u].0@) == pairs_view(
                                pairs@,
                            )[src_prev[u]].0);
                        } else {
                            assert(src[u] == j as int);
                        }
                    }
                    assert forall|u1: int, u2: int|
                        0 <= u1 < u2 < src.len() implies src[u1] < src[u2] by {
                        if u2 < src.len() - 1 {
                            assert(src[u1] == src_prev[u1]);
                            assert(src[u2] == src_prev[u2]);
                        } else {
                            assert(src[u1] == src_prev[u1]);
                            assert(src_prev[u1] < j);
                            assert(src[u2] == j as int);
                        }
                    }
                    assert forall|t: int|
                        0 <= t < j + 1 && spec_matches(
                            self.decoded_key(#[trigger] pairs_view(pairs@)[t].0)->Some_0,
                            pattern@,
                        ) implies covers(
                        self.spec_config(),
                        out@,
                        pairs_view(pairs@)[t].0,
                    ) by {
                        if t < j {
                            lemma_covers_extend(
                                self.spec_config(),
                                out_prev,
                                pushed,
                                pairs_view(pairs@)[t].0,
                            );
                        }
                    }
                }
            }
            j = j + 1;
        }
        assert forall|sk: Seq<u8>| #[trigger] self@.contains_key(sk) implies self.decoded_key(
            sk,
        ) is Some by {
            let t = choose|t: int|
                0 <= t < pairs_view(pairs@).len() && pairs_view(pairs@)[t].0 == sk;
        }
        assert forall|sk: Seq<u8>|
            #[trigger] self@.contains_key(sk) && spec_matches(
                self.decoded_key(sk)->Some_0,
                pattern@,
            ) implies covers(self.spec_config(), out@, sk) by {
            let t = choose|t: int|
                0 <= t < pairs_view(pairs@).len() && pairs_view(pairs@)[t].0 == sk;
            assert(covers(self.spec_config(), out@, pairs_view(pairs@)[t].0));
        }
        Ok(out)
    }

    /// The values stored under the given keys, in input order, all read
    /// from one consistent snapshot. Absent keys yield `None`.
    ///
    /// Fails when the stored value blob of one of the keys is malformed.
    #[verifier::loop_isolation(false)]
    pub fn get_many(&self, keys: &Vec<String>) -> (r: Result<
        Vec<Option<StoredValue>>,
        RedbBackendError,
    >)
        ensures
            r matches Ok(os) ==> os@.len() == keys@.len(),
            r matches Ok(os) ==> forall|i: int|
                0 <= i < keys@.len() ==> (#[trigger] os@[i] is Some <==> self@.contains_key(
                    self.stored_key(keys@[i]@),
                )),
            r matches Ok(os) ==> forall|i: int|
                0 <= i < keys@.len() ==> (#[trigger] os@[i] matches Some(v) ==> spec_decode_value(
                    self@[self.stored_key(keys@[i]@)],
                ) == Some(v@)),
    {
        let pairs = self.store.snapshot()?;
        let mut out: Vec<Option<StoredValue>> = Vec::new();
        let mut i: usize = 0;
        while i < keys.len()
            invariant
                i <= keys@.len(),
                out@.len() == i,
                forall|t: int|
                    0 <= t < i ==> (#[trigger] out@[t] is Some <==> self@.contains_key(
                        self.stored_key(keys@[t]@),
                    )),
                forall|t: int|
                    0 <= t < i ==> (#[trigger] out@[t] matches Some(v) ==> spec_decode_value(
                        self@[self.stored_key(keys@[t]@)],
                    ) == Some(v@)),
            decreases keys@.len() - i,
        {
            let sk = encode_key(&self.config, keys[i].as_str());
            match find_pair(&pairs, sk.as_slice()) {
                Some(p) => {
                    assert(pairs_view(pairs@)[p as int].0 == sk@);
                    let v = decode_value(pairs[p].1.as_slice())?;
                    out.push(Some(v));
                },
                None => {
                    out.push(None);
                },
            }
            i = i + 1;
        }
        Ok(out)
    }

    /// Store every `(key, value)` entry of the batch in one committed write
    /// transaction: all entries become visible atomically, or none do. An
    /// empty batch is a no-op success. Within the batch, later entries win
    /// over earlier ones with the same key.
    ///
    /// Fails with [`RedbBackendError::ReadOnlyViolation`] on a read-only
    /// storage and with [`RedbBackendError::ValueEncodingError`] when an
    /// entry's encoding tag is oversized; the contents are then unchanged.
    /// On an engine failure the batch is all-or-nothing and the error
    /// carries one of the engine's variants.
    #[verifier::loop_isolation(false)]
    pub fn put_batch(&mut self, entries: &Vec<(String, StoredValue)>) -> (r: Result<
        (),
        RedbBackendError,
    >)
        ensures
            final(self).spec_config() == old(self).spec_config(),
            final(self).spec_name() == old(self).spec_name(),
            old(self).spec_config().read_only ==> (r matches Err(e) && e is ReadOnlyViolation)
                && *final(self) == *old(self),
            !old(self).spec_config().read_only && !entries_encodable(entries@) ==> (
            r matches Err(e) && e is ValueEncodingError) && *final(self) == *old(self),
            !old(self).spec_config().read_only && entries_encodable(entries@) ==> {
                &&& r is Ok ==> final(self)@ == kv_insert_all(
                    old(self)@,
                    spec_encoded_entries(old(self).spec_config(), entries@),
                )
                &&& r is Err ==> final(self)@ == old(self)@ || final(self)@ == kv_insert_all(
                    old(self)@,
                    spec_encoded_entries(old(self).spec_config(), entries@),
                )
                &&& r matches Err(e) ==> e is TransactionError || e is TableError
                    || e is StorageError || e is CommitError
            },
    {
        if self.config.read_only {
            return Err(RedbBackendError::ReadOnlyViolation);
        }
        let mut enc: Vec<(Vec<u8>, Vec<u8>)> = Vec::new();
        let mut i: usize = 0;
        while i < entries.len()
            invariant
                i <= entries@.len(),
                enc@.len() == i,
                forall|t: int|
                    0 <= t < i ==> encode_utf8(#[trigger] entries@[t].1.encoding@).len() <= 65535,
                forall|t: int|
                    0 <= t < i ==> (#[trigger] enc@[t]).0@ == spec_stored_key_bytes(
                        self.spec_config(),
                        entries@[t].0@,
                    ) && enc@[t].1@ == spec_encode_value(entries@[t].1@),
            decreases entries@.len() - i,
        {
            let k = encode_key(&self.config, entries[i].0.as_str());
            let v = match encode_value(&entries[i].1) {
                Ok(v) => v,
                Err(e) => {
                    assert(!entries_encodable(entries@));
                    return Err(e);
                },
            };
            enc.push((k, v));
            i = i + 1;
        }
        assert(pairs_view(enc@) =~= spec_encoded_entries(self.spec_config(), entries@));
        self.store.insert_many(&enc)
    }

    /// Remove every given key in one committed write transaction: all
    /// removals land atomically, or none do. Returns how many of the keys
    /// were present and removed; a key named twice counts once.
    ///
    /// Fails with [`RedbBackendError::ReadOnlyViolation`] on a read-only
    /// storage; the contents are then unchanged. On an engine failure the
    /// removals are all-or-nothing and the error carries one of the
    /// engine's variants.
    #[verifier::loop_isolation(false)]
    pub fn delete_many(&mut self, keys: &Vec<String>) -> (r: Result<usize, RedbBackendError>)
        ensures
            final(self).spec_config() == old(self).spec_config(),
            final(self).spec_name() == old(self).spec_name(),
            old(self).spec_config().read_only ==> (r matches Err(e) && e is ReadOnlyViolation)
                && *final(self) == *old(self),
            !old(self).spec_config().read_only ==> {
                &&& r matches Ok(n) ==> final(self)@ == kv_remove_all(
                    old(self)@,
                    spec_encoded_keys(old(self).spec_config(), keys@),
                ) && n == count_trues(
                    kv_removed_flags(
                        old(self)@,
                        spec_encoded_keys(old(self).spec_config(), keys@),
                    ),
                )
                &&& r is Err ==> final(self)@ == old(self)@ || final(self)@ == kv_remove_all(
                    old(self)@,
                    spec_encoded_keys(old(self).spec_config(), keys@),
                )
                &&& r matches Err(e) ==> e is TransactionError || e is TableError
                    || e is StorageError || e is CommitError
            },
    {
        if self.config.read_only {
            return Err(RedbBackendError::ReadOnlyViolation);
        }
        let mut eks: Vec<Vec<u8>> = Vec::new();
        let mut i: usize = 0;
        while i < keys.len()
            invariant
                i <= keys@.len(),
                eks@.len() == i,
                forall|t: int|
                    0 <= t < i ==> (#[trigger] eks@[t])@ == spec_stored_key_bytes(
                        self.spec_config(),
                        keys@[t]@,
                    ),
            decreases keys@.len() - i,
        {
            eks.push(encode_key(&self.config, keys[i].as_str()));
            i = i + 1;
        }
        assert(eks@.map(|t: int, k: Vec<u8>| k@) =~= spec_encoded_keys(
            self.spec_config(),
            keys@,
        ));
        let flags = self.store.remove_many(&eks)?;
        let mut n: usize = 0;
        let mut j: usize = 0;
        while j < flags.len()
            invariant
                j <= flags@.len(),
                n <= j,
                n == count_trues(flags@.subrange(0, j as int)),
            decreases flags@.len() - j,
        {
            proof {
                lemma_count_trues_push(flags@.subrange(0, j as int), flags@[j as int]);
                assert(flags@.subrange(0, j as int + 1) =~= flags@.subrange(0, j as int).push(
                    flags@[j as int],
                ));
            }
            if flags[j] {
                n = n + 1;
            }
            j = j + 1;
        }
        assert(flags@.subrange(0, flags@.len() as int) =~= flags@);
        Ok(n)
    }
}

/// Find the index of the pair holding the given key, if any.
fn find_pair(pairs: &Vec<(Vec<u8>, Vec<u8>)>, k: &[u8]) -> (r: Option<usize>)
    ensures
        r matches Some(i) ==> i < pairs@.len() && pairs_view(pairs@)[i as int].0 == k@,
        r is None ==> forall|j: int|
            0 <= j < pairs@.len() ==> pairs_view(pairs@)[j].0 != k@,
{
    let mut j: usize = 0;
    while j < pairs.len()
        invariant
            j <= pairs@.len(),
            forall|t: int| 0 <= t < j ==> pairs_view(pairs@)[t].0 != k@,
        decreases pairs@.len() - j,
    {
        assert(pairs_view(pairs@)[j as int].0 == pairs@[j as int].0@);
        if bytes_eq(pairs[j].0.as_slice(), k) {
            return Some(j);
        }
        j = j + 1;
    }
    None
}

/// Law: a put followed by a get of the same key yields exactly the value
/// put, in any storage state: the stored form of the key is live afterwards
/// and decodes to the value.
pub proof fn lemma_put_then_get(
    m: Map<Seq<u8>, Seq<u8>>,
    cfg: RedbStorageConfig,
    key: Seq<char>,
    v: StoredValueView,
)
    requires
        encode_utf8(v.encoding).len() <= 65535,
    ensures
        ({
            let sk = spec_stored_key_bytes(cfg, key);
            let m2 = m.insert(sk, spec_encode_value(v));
            m2.contains_key(sk) && spec_decode_value(m2[sk]) == Some(v)
        }),
{
    lemma_value_round_trip(v);
}

/// Law: a delete followed by a get of the same key finds nothing, in any
/// storage state.
pub proof fn lemma_delete_then_get(m: Map<Seq<u8>, Seq<u8>>, cfg: RedbStorageConfig, key: Seq<char>)
    ensures
        !m.remove(spec_stored_key_bytes(cfg, key)).contains_key(spec_stored_key_bytes(cfg, key)),
{
}

/// Law: of two puts to the same key, the second wins: a get afterwards
/// yields the second value.
pub proof fn lemma_put_overwrites(
    m: Map<Seq<u8>, Seq<u8>>,
    cfg: RedbStorageConfig,
    key: Seq<char>,
    v1: StoredValueView,
    v2: StoredValueView,
)
    requires
        encode_utf8(v2.encoding).len() <= 65535,
    ensures
        ({
            let sk = spec_stored_key_bytes(cfg, key);
            let m2 = m.insert(sk, spec_encode_value(v1)).insert(sk, spec_encode_value(v2));
            m2.contains_key(sk) && spec_decode_value(m2[sk]) == Some(v2)
        }),
{
    lemma_value_round_trip(v2);
}

/// Law: on a storage that began empty, putting one key leaves every key
/// with a different stored form absent, while the put key holds its value:
/// storage instances keep their own keys, so two storages never observe
/// each other's entries, even for identical key strings.
pub proof fn lemma_fresh_store_isolation(
    cfg: RedbStorageConfig,
    k1: Seq<char>,
    k2: Seq<char>,
    v: StoredValueView,
)
    requires
        encode_utf8(v.encoding).len() <= 65535,
        spec_stored_key_bytes(cfg, k1) != spec_stored_key_bytes(cfg, k2),
    ensures
        ({
            let m = kv_empty().insert(spec_stored_key_bytes(cfg, k1), spec_encode_value(v));
            &&& m.contains_key(spec_stored_key_bytes(cfg, k1))
            &&& spec_decode_value(m[spec_stored_key_bytes(cfg, k1)]) == Some(v)
            &&& !m.contains_key(spec_stored_key_bytes(cfg, k2))
        }),
{
    lemma_value_round_trip(v);
}

/// Law: after three puts on a storage that began empty, the live stored
/// keys that begin with a prefix's stored form are exactly the put keys
/// whose stored forms begin with it: a prefix query selects the first two
/// entries and leaves out the third.
pub proof fn lemma_prefix_isolation(
    cfg: RedbStorageConfig,
    p: Seq<char>,
    k1: Seq<char>,
    k2: Seq<char>,
    k3: Seq<char>,
    b1: Seq<u8>,
    b2: Seq<u8>,
    b3: Seq<u8>,
)
    requires
        spec_stored_key_bytes(cfg, p).is_prefix_of(spec_stored_key_bytes(cfg, k1)),
        spec_stored_key_bytes(cfg, p).is_prefix_of(spec_stored_key_bytes(cfg, k2)),
        !spec_stored_key_bytes(cfg, p).is_prefix_of(spec_stored_key_bytes(cfg, k3)),
    ensures
        ({
            let m = kv_empty().insert(spec_stored_key_bytes(cfg, k1), b1).insert(
                spec_stored_key_bytes(cfg, k2),
                b2,
            ).insert(spec_stored_key_bytes(cfg, k3), b3);
            forall|sk: Seq<u8>|
                (#[trigger] m.contains_key(sk) && spec_stored_key_bytes(cfg, p).is_prefix_of(sk))
                    <==> (sk == spec_stored_key_bytes(cfg, k1) || sk == spec_stored_key_bytes(
                    cfg,
                    k2,
                ))
        }),
{
}

/// Law: a batch write equals the same puts made one after another. Together
/// with `kv_insert_all(m, Seq::empty()) == m`, which holds by definition,
/// this shows by induction that the state after a batch of entries is the
/// state after putting each entry in order.
pub proof fn lemma_batch_is_sequential_puts(
    m: Map<Seq<u8>, Seq<u8>>,
    entries: Seq<(Seq<u8>, Seq<u8>)>,
    e: (Seq<u8>, Seq<u8>),
)
    ensures
        kv_insert_all(m, entries.push(e)) == kv_insert_all(m, entries).insert(e.0, e.1),
    decreases entries.len(),
{
    if entries.len() == 0 {
        assert(entries.push(e)[0] == e);
        assert(entries.push(e).drop_first() =~= Seq::<(Seq<u8>, Seq<u8>)>::empty());
        assert(kv_insert_all(m.insert(e.0, e.1), Seq::<(Seq<u8>, Seq<u8>)>::empty()) == m.insert(
            e.0,
            e.1,
        ));
    } else {
        assert(entries.push(e)[0] == entries[0]);
        assert(entries.push(e).drop_first() =~= entries.drop_first().push(e));
        lemma_batch_is_sequential_puts(m.insert(entries[0].0, entries[0].1), entries.drop_first(), e);
    }
}

} // verus!
