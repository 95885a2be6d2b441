//! Key transform between logical keys and stored keys.
//!
//! A storage can be configured with a key expression prefix and a
//! strip-prefix flag. With stripping on, a logical key that begins with the
//! prefix is stored as the suffix after the prefix; reading back prepends
//! the prefix again. Without stripping, keys are stored unchanged. Stored
//! keys are the UTF-8 bytes of the transformed key.

use vstd::prelude::*;
use vstd::slice::slice_to_vec;
use vstd::utf8::*;

use crate::codec::bytes_to_string;
use crate::config::RedbStorageConfig;
use crate::error::RedbBackendError;

verus! {

/// The bytes that stripping removes from the front of a key: the UTF-8 form
/// of the configured prefix when stripping is on, else nothing.
pub open spec fn spec_prefix_bytes(cfg: RedbStorageConfig) -> Seq<u8> {
    if cfg.strip_prefix && cfg.key_expr is Some {
        encode_utf8(cfg.key_expr->Some_0@)
    } else {
        Seq::<u8>::empty()
    }
}

/// The stored form of a logical key: its UTF-8 bytes, with the configured
/// prefix removed when stripping is on and the key begins with it.
pub open spec fn spec_stored_key_bytes(cfg: RedbStorageConfig, key: Seq<char>) -> Seq<u8> {
    let kb = encode_utf8(key);
    let pb = spec_prefix_bytes(cfg);
    if pb.len() > 0 && pb.is_prefix_of(kb) {
        kb.skip(pb.len() as int)
    } else {
        kb
    }
}

/// The logical key described by a stored key: the configured prefix
/// reattached, decoded from UTF-8; `None` when the bytes do not form valid
/// UTF-8.
pub open spec fn spec_decoded_key(cfg: RedbStorageConfig, stored: Seq<u8>) -> Option<Seq<char>> {
    let full = spec_prefix_bytes(cfg) + stored;
    if valid_utf8(full) {
        Some(decode_utf8(full))
    } else {
        None
    }
}

/// Whether a logical key is consistent with the storage's prefix
/// configuration: with stripping on, it must begin with the configured
/// prefix.
pub open spec fn key_consistent(cfg: RedbStorageConfig, key: Seq<char>) -> bool {
    cfg.strip_prefix && cfg.key_expr is Some ==> cfg.key_expr->Some_0@.is_prefix_of(key)
}

/// UTF-8 encoding distributes over concatenation.
pub proof fn lemma_encode_utf8_concat(a: Seq<char>, b: Seq<char>)
    ensures
        encode_utf8(a + b) == encode_utf8(a) + encode_utf8(b),
    decreases a.len(),
{
    if a.len() == 0 {
        assert(a + b =~= b);
        assert(encode_utf8(a) + encode_utf8(b) =~= encode_utf8(b));
    } else {
        assert((a + b).len() > 0);
        assert((a + b)[0] == a[0]);
        assert((a + b).drop_first() =~= a.drop_first() + b);
        lemma_encode_utf8_concat(a.drop_first(), b);
        assert(encode_scalar(a[0] as u32) + (encode_utf8(a.drop_first()) + encode_utf8(b)) =~= (
        encode_scalar(a[0] as u32) + encode_utf8(a.drop_first())) + encode_utf8(b));
    }
}

/// The key transform round-trips: decoding the stored form of any key that
/// is consistent with the configured prefix yields the key again.
pub proof fn lemma_key_round_trip(cfg: RedbStorageConfig, key: Seq<char>)
    requires
        key_consistent(cfg, key),
    ensures
        spec_decoded_key(cfg, spec_stored_key_bytes(cfg, key)) == Some(key),
{
    broadcast use encode_utf8_valid_utf8, encode_utf8_decode_utf8;

    let kb = encode_utf8(key);
    let pb = spec_prefix_bytes(cfg);
    if pb.len() > 0 && pb.is_prefix_of(kb) {
        let stored = kb.skip(pb.len() as int);
        assert(pb + stored =~= kb);
    } else {
        if pb.len() == 0 {
            assert(pb + kb =~= kb);
        } else {
            // Consistency makes a non-empty prefix a byte prefix of the
            // key, so this branch cannot be reached with one.
            let p = cfg.key_expr->Some_0@;
            let rest = key.skip(p.len() as int);
            assert(p + rest =~= key);
            lemma_encode_utf8_concat(p, rest);
            assert(pb.is_prefix_of(kb)) by {
                assert(kb =~= pb + encode_utf8(rest));
                assert(kb.subrange(0, pb.len() as int) =~= pb);
            }
        }
    }
}

/// Re-encoding the logical key of a stored key gives the stored key back:
/// the transform is invertible on everything that is on disk.
pub proof fn lemma_stored_key_of_decoded(cfg: RedbStorageConfig, sk: Seq<u8>)
    requires
        spec_decoded_key(cfg, sk) is Some,
    ensures
        spec_stored_key_bytes(cfg, spec_decoded_key(cfg, sk)->Some_0) == sk,
{
    broadcast use encode_utf8_valid_utf8, encode_utf8_decode_utf8, decode_utf8_encode_utf8;

    let pb = spec_prefix_bytes(cfg);
    let full = pb + sk;
    let k = decode_utf8(full);
    assert(encode_utf8(k) == full);
    if pb.len() > 0 {
        assert(pb.is_prefix_of(full)) by {
            assert(full.subrange(0, pb.len() as int) =~= pb);
        }
        assert(full.skip(pb.len() as int) =~= sk);
    } else {
        assert(full =~= sk);
    }
}

/// Whether `p` is a byte prefix of `a`.
pub(crate) fn bytes_starts_with(a: &[u8], p: &[u8]) -> (r: bool)
    ensures
        r == p@.is_prefix_of(a@),
{
    if p.len() > a.len() {
        assert(!p@.is_prefix_of(a@));
        return false;
    }
    let mut i: usize = 0;
    while i < p.len()
        invariant
            p@.len() <= a@.len(),
            i <= p@.len(),
            forall|j: int| 0 <= j < i ==> a@[j] == p@[j],
        decreases p@.len() - i,
    {
        if a[i] != p[i] {
            assert(p@ != a@.subrange(0, p@.len() as int));
            assert(!p@.is_prefix_of(a@));
            return false;
        }
        i = i + 1;
    }
    assert(p@ =~= a@.subrange(0, p@.len() as int));
    true
}

/// Whether two byte strings are equal.
pub(crate) fn bytes_eq(a: &[u8], b: &[u8]) -> (r: bool)
    ensures
        r <==> a@ == b@,
{
    if a.len() != b.len() {
        assert(a@ !~= b@);
        return false;
    }
    let mut i: usize = 0;
    while i < a.len()
        invariant
            a@.len() == b@.len(),
            i <= a@.len(),
            forall|j: int| 0 <= j < i ==> a@[j] == b@[j],
        decreases a@.len() - i,
    {
        if a[i] != b[i] {
            assert(a@ !~= b@);
            return false;
        }
        i = i + 1;
    }
    assert(a@ =~= b@);
    true
}

/// Whether two strings hold the same characters, compared through their
/// UTF-8 bytes.
pub(crate) fn str_eq(a: &str, b: &str) -> (r: bool)
    ensures
        r <==> a@ == b@,
{
    let r = bytes_eq(a.as_bytes(), b.as_bytes());
    proof {
        broadcast use encode_utf8_decode_utf8;

        if encode_utf8(a@) == encode_utf8(b@) {
            assert(decode_utf8(encode_utf8(a@)) == decode_utf8(encode_utf8(b@)));
        }
    }
    r
}

/// Encode a logical key into its stored byte form under the given
/// configuration.
pub fn encode_key(cfg: &RedbStorageConfig, key: &str) -> (r: Vec<u8>)
    ensures
        r@ == spec_stored_key_bytes(*cfg, key@),
{
    let kb = key.as_bytes();
    if cfg.strip_prefix {
        match &cfg.key_expr {
            Some(p) => {
                let pb = p.as_str().as_bytes();
                if pb.len() > 0 && bytes_starts_with(kb, pb) {
                    return slice_to_vec(&kb[pb.len()..kb.len()]);
                }
            },
            None => {},
        }
    }
    slice_to_vec(kb)
}

/// Decode a stored key back into the logical key it stands for.
///
/// Fails with a [`RedbBackendError::KeyEncodingError`] when the bytes do
/// not form valid UTF-8.
pub fn decode_key(cfg: &RedbStorageConfig, stored: &[u8]) -> (r: Result<String, RedbBackendError>)
    ensures
        spec_decoded_key(*cfg, stored@) matches Some(k) ==> (r matches Ok(s) && s@ == k),
        spec_decoded_key(*cfg, stored@) is None ==> (r matches Err(e) && e is KeyEncodingError),
{
    let mut full: Vec<u8> = Vec::new();
    if cfg.strip_prefix {
        match &cfg.key_expr {
            Some(p) => {
                full.extend_from_slice(p.as_str().as_bytes());
            },
            None => {},
        }
    }
    full.extend_from_slice(stored);
    assert(full@ =~= spec_prefix_bytes(*cfg) + stored@);
    match bytes_to_string(full.as_slice()) {
        Some(s) => Ok(s),
        None => Err(
            RedbBackendError::key_encoding("stored key is not valid UTF-8".to_owned()),
        ),
    }
}

} // verus!
