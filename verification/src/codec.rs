//! Binary codec for stored values.
//!
//! A stored value is a payload, a logical timestamp and an encoding tag. Its
//! on-disk form is fixed so that files are interoperable:
//!
//! ```text
//! [0..8)                u64 little-endian timestamp
//! [8..10)               u16 little-endian length of the encoding tag in bytes
//! [10..10+len)          UTF-8 bytes of the encoding tag
//! [10+len..)            payload bytes, verbatim
//! ```
//!
//! The payload consumes everything after the encoding tag, so it needs no
//! length field of its own.

use vstd::bytes::*;
use vstd::prelude::*;
use vstd::slice::slice_to_vec;
use vstd::utf8::*;

use crate::error::RedbBackendError;

verus! {

/// A value stored under a key, together with its metadata.
#[derive(Debug, Clone)]
pub struct StoredValue {
    /// The payload bytes; may be empty.
    pub payload: Vec<u8>,
    /// The logical timestamp supplied by the caller.
    pub timestamp: u64,
    /// The encoding tag of the payload, such as a MIME type.
    pub encoding: String,
}

/// The mathematical content of a [`StoredValue`].
#[verifier::ext_equal]
pub struct StoredValueView {
    /// The payload bytes.
    pub payload: Seq<u8>,
    /// The logical timestamp.
    pub timestamp: u64,
    /// The characters of the encoding tag.
    pub encoding: Seq<char>,
}

impl View for StoredValue {
    type V = StoredValueView;

    open spec fn view(&self) -> StoredValueView {
        StoredValueView { payload: self.payload@, timestamp: self.timestamp, encoding: self.encoding@ }
    }
}

impl StoredValue {
    /// Create a new stored value.
    pub fn new(payload: Vec<u8>, timestamp: u64, encoding: String) -> (r: Self)
        ensures
            r@ == (StoredValueView { payload: payload@, timestamp, encoding: encoding@ }),
    {
        StoredValue { payload, timestamp, encoding }
    }

    /// The logical timestamp.
    pub fn timestamp(&self) -> (r: u64)
        ensures
            r == self.timestamp,
    {
        self.timestamp
    }

    /// The encoding tag.
    pub fn encoding(&self) -> (r: &str)
        ensures
            r@ == self.encoding@,
    {
        self.encoding.as_str()
    }

    /// The payload bytes.
    pub fn payload(&self) -> (r: &[u8])
        ensures
            r@ == self.payload@,
    {
        self.payload.as_slice()
    }
}

/// The exact byte form of a stored value.
pub open spec fn spec_encode_value(v: StoredValueView) -> Seq<u8> {
    spec_u64_to_le_bytes(v.timestamp) + spec_u16_to_le_bytes(encode_utf8(v.encoding).len() as u16)
        + encode_utf8(v.encoding) + v.payload
}

/// The stored value described by the given bytes, or `None` when the bytes
/// are not a well-formed value: too short for the header, an encoding length
/// that overruns the buffer, or an encoding tag that is not valid UTF-8.
pub open spec fn spec_decode_value(b: Seq<u8>) -> Option<StoredValueView> {
    if b.len() < 10 {
        None
    } else {
        let el = spec_u16_from_le_bytes(b.subrange(8, 10)) as int;
        if b.len() - 10 < el {
            None
        } else {
            let eb = b.subrange(10, 10 + el);
            if !valid_utf8(eb) {
                None
            } else {
                Some(
                    StoredValueView {
                        payload: b.subrange(10 + el, b.len() as int),
                        timestamp: spec_u64_from_le_bytes(b.subrange(0, 8)),
                        encoding: decode_utf8(eb),
                    },
                )
            }
        }
    }
}

/// Decoding inverts encoding: every stored value whose encoding tag fits in
/// the length field comes back unchanged from its byte form.
pub proof fn lemma_value_round_trip(v: StoredValueView)
    requires
        encode_utf8(v.encoding).len() <= 65535,
    ensures
        spec_decode_value(spec_encode_value(v)) == Some(v),
{
    broadcast use encode_utf8_valid_utf8, encode_utf8_decode_utf8;

    lemma_auto_spec_u64_to_from_le_bytes();
    lemma_auto_spec_u16_to_from_le_bytes();
    let eb = encode_utf8(v.encoding);
    let el = eb.len() as u16;
    let b = spec_encode_value(v);
    assert(b.subrange(0, 8) =~= spec_u64_to_le_bytes(v.timestamp));
    assert(b.subrange(8, 10) =~= spec_u16_to_le_bytes(el));
    assert(b.subrange(10, 10 + el as int) =~= eb);
    assert(b.subrange(10 + el as int, b.len() as int) =~= v.payload);
    assert(spec_decode_value(b)->Some_0 =~= v);
}

/// Relies on `String::from_utf8`: it succeeds exactly on valid UTF-8 input
/// and returns the string those bytes encode.
#[verifier::external_body]
pub(crate) fn bytes_to_string(b: &[u8]) -> (r: Option<String>)
    ensures
        r matches Some(s) ==> valid_utf8(b@) && s@ == decode_utf8(b@),
        r is None ==> !valid_utf8(b@),
{
    String::from_utf8(b.to_vec()).ok()
}

/// Relies on `core::str::from_utf8`: it succeeds exactly on valid UTF-8
/// input and returns the borrowed string those bytes encode.
#[verifier::external_body]
fn bytes_as_str(b: &[u8]) -> (r: Option<&str>)
    ensures
        r matches Some(s) ==> valid_utf8(b@) && s@ == decode_utf8(b@),
        r is None ==> !valid_utf8(b@),
{
    core::str::from_utf8(b).ok()
}

/// Append the byte form of `v` to `out`.
///
/// Fails with a [`RedbBackendError::ValueEncodingError`] when the encoding
/// tag is longer than the length field can hold; `out` is then unchanged.
pub fn encode_value_into(v: &StoredValue, out: &mut Vec<u8>) -> (r: Result<
    (),
    RedbBackendError,
>)
    ensures
        encode_utf8(v.encoding@).len() <= 65535 ==> r is Ok && final(out)@ == old(out)@
            + spec_encode_value(v@),
        encode_utf8(v.encoding@).len() > 65535 ==> (r matches Err(e) && e is ValueEncodingError)
            && final(out)@ == old(out)@,
{
    let eb = v.encoding.as_str().as_bytes();
    if eb.len() > 65535 {
        return Err(
            RedbBackendError::value_encoding("encoding tag exceeds 65535 bytes".to_owned()),
        );
    }
    let mut tsb = u64_to_le_bytes(v.timestamp);
    let mut elb = u16_to_le_bytes(eb.len() as u16);
    out.append(&mut tsb);
    out.append(&mut elb);
    out.extend_from_slice(eb);
    out.extend_from_slice(v.payload.as_slice());
    assert(out@ =~= old(out)@ + spec_encode_value(v@));
    Ok(())
}

/// Encode `v` into its byte form.
///
/// Fails with a [`RedbBackendError::ValueEncodingError`] when the encoding
/// tag is longer than the length field can hold.
pub fn encode_value(v: &StoredValue) -> (r: Result<Vec<u8>, RedbBackendError>)
    ensures
        encode_utf8(v.encoding@).len() <= 65535 ==> (r matches Ok(b) && b@ == spec_encode_value(
            v@,
        )),
        encode_utf8(v.encoding@).len() > 65535 ==> (r matches Err(e) && e is ValueEncodingError),
{
    let mut out: Vec<u8> = Vec::new();
    encode_value_into(v, &mut out)?;
    Ok(out)
}

/// Decode the byte form of a stored value.
///
/// Fails with a [`RedbBackendError::SerializationError`] when the bytes are
/// not a well-formed value.
pub fn decode_value(bytes: &[u8]) -> (r: Result<StoredValue, RedbBackendError>)
    ensures
        spec_decode_value(bytes@) matches Some(w) ==> (r matches Ok(v) && v@ == w),
        spec_decode_value(bytes@) is None ==> (r matches Err(e) && e is SerializationError),
{
    if bytes.len() < 10 {
        return Err(
            RedbBackendError::serialization("value blob shorter than its header".to_owned()),
        );
    }
    let timestamp = u64_from_le_bytes(&bytes[0..8]);
    let el = u16_from_le_bytes(&bytes[8..10]) as usize;
    if bytes.len() - 10 < el {
        return Err(
            RedbBackendError::serialization(
                "encoding length overruns the value blob".to_owned(),
            ),
        );
    }
    let eb = &bytes[10..10 + el];
    let encoding = match bytes_to_string(eb) {
        Some(s) => s,
        None => {
            return Err(
                RedbBackendError::serialization(
                    "encoding tag is not valid UTF-8".to_owned(),
                ),
            );
        },
    };
    let payload = slice_to_vec(&bytes[10 + el..bytes.len()]);
    Ok(StoredValue { payload, timestamp, encoding })
}

/// Decode the byte form of a stored value without copying: the payload and
/// the encoding tag borrow from `bytes`.
///
/// Returns `(payload, timestamp, encoding)`; fails with a
/// [`RedbBackendError::SerializationError`] when the bytes are not a
/// well-formed value.
pub fn decode_value_borrowed(bytes: &[u8]) -> (r: Result<(&[u8], u64, &str), RedbBackendError>)
    ensures
        spec_decode_value(bytes@) matches Some(w) ==> (r matches Ok(t) && t.0@ == w.payload && t.1
            == w.timestamp && t.2@ == w.encoding),
        spec_decode_value(bytes@) is None ==> (r matches Err(e) && e is SerializationError),
{
    if bytes.len() < 10 {
        return Err(
            RedbBackendError::serialization("value blob shorter than its header".to_owned()),
        );
    }
    let timestamp = u64_from_le_bytes(&bytes[0..8]);
    let el = u16_from_le_bytes(&bytes[8..10]) as usize;
    if bytes.len() - 10 < el {
        return Err(
            RedbBackendError::serialization(
                "encoding length overruns the value blob".to_owned(),
            ),
        );
    }
    let eb = &bytes[10..10 + el];
    let encoding = match bytes_as_str(eb) {
        Some(s) => s,
        None => {
            return Err(
                RedbBackendError::serialization(
                    "encoding tag is not valid UTF-8".to_owned(),
                ),
            );
        },
    };
    let payload = &bytes[10 + el..bytes.len()];
    Ok((payload, timestamp, encoding))
}

} // verus!
