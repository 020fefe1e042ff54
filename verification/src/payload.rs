//! The bounded transmit buffer for one record's payload. The buffer has a
//! fixed capacity of 128 bytes; building a payload that would not fit is
//! refused loudly rather than truncated. The fixed-capacity vector of the
//! `heapless` crate holds the bytes.

use vstd::prelude::*;

use crate::codec::{encode_record, spec_encode, TelemetryRecord};

verus! {

#[verifier::external_type_specification]
#[verifier::external_body]
#[verifier::reject_recursive_types(T)]
pub struct ExHeaplessVec<T, const N: usize>(heapless::Vec<T, N>);

/// The bytes a transmit buffer holds.
pub uninterp spec fn payload_bytes(b: heapless::Vec<u8, 128>) -> Seq<u8>;

/// Relies on `heapless::Vec::new`: a new vector is empty.
#[verifier::external_body]
fn payload_new() -> (b: heapless::Vec<u8, 128>)
    ensures
        payload_bytes(b) == Seq::<u8>::empty(),
{
    heapless::Vec::new()
}

/// Relies on `heapless::Vec::extend_from_slice`: appends all of `data` when
/// it fits within the fixed capacity, and otherwise errs without modifying
/// anything.
#[verifier::external_body]
fn payload_extend(b: &mut heapless::Vec<u8, 128>, data: &[u8]) -> (r: Result<(), ()>)
    ensures
        r is Ok <==> payload_bytes(*old(b)).len() + data@.len() <= 128,
        r is Ok ==> payload_bytes(*final(b)) == payload_bytes(*old(b)) + data@,
        r is Err ==> payload_bytes(*final(b)) == payload_bytes(*old(b)),
{
    b.extend_from_slice(data)
}

/// Relies on `heapless::Vec::as_slice`: the bytes the buffer holds.
#[verifier::external_body]
fn payload_slice(b: &heapless::Vec<u8, 128>) -> (r: &[u8])
    ensures
        r@ == payload_bytes(*b),
{
    b.as_slice()
}

/// Building a payload failed.
#[derive(Clone, Copy, Debug, PartialEq, Eq, Structural)]
pub enum EncodeError {
    /// The record's encoding would not fit the fixed transmit buffer.
    BufferExceeded,
}

/// Build the bounded transmit buffer for one record. An encoding that would
/// exceed the buffer is refused with an error, never truncated silently.
pub fn build_payload(rec: &TelemetryRecord) -> (r: Result<heapless::Vec<u8, 128>, EncodeError>)
    ensures
        match r {
            Result::Ok(b) => spec_encode(rec@).len() <= 128 && payload_bytes(b) == spec_encode(
                rec@,
            ),
            Result::Err(e) => spec_encode(rec@).len() > 128 && e == EncodeError::BufferExceeded,
        },
{
    let encoded = encode_record(rec);
    let mut buf = payload_new();
    match payload_extend(&mut buf, encoded.as_slice()) {
        Result::Ok(_) => Result::Ok(buf),
        Result::Err(_) => Result::Err(EncodeError::BufferExceeded),
    }
}

/// Law: the payload of every well-formed record fits the fixed transmit
/// buffer, so building it never fails.
pub proof fn lemma_payload_fits(m: crate::codec::RecordModel)
    requires
        m.wf(),
    ensures
        spec_encode(m).len() <= 128,
{
    reveal_with_fuel(crate::text::spec_pow10, 21);
    assert(crate::text::spec_pow10(20nat) == 100000000000000000000);
    assert(crate::text::spec_pow10(16nat) == 10000000000000000);
    crate::codec::lemma_dec_bytes_len_le(m.timestamp_ms, 20);
    let mag = crate::codec::abs_int(m.value_milli);
    assert(mag <= 9223372036854775808);
    assert(mag / 1000 < 10000000000000000);
    crate::codec::lemma_dec_bytes_len_le(mag / 1000, 16);
}

/// Copy a built payload's bytes back out, for the transport hand-off.
pub fn payload_to_vec(b: &heapless::Vec<u8, 128>) -> (r: Vec<u8>)
    ensures
        r@ == payload_bytes(*b),
{
    let s = payload_slice(b);
    let mut out: Vec<u8> = Vec::new();
    let mut i: usize = 0;
    let n = s.len();
    while i < n
        invariant
            i <= n,
            n == s@.len(),
            s@ == payload_bytes(*b),
            out@ == s@.subrange(0, i as int),
        decreases n - i,
    {
        out.push(s[i]);
        assert(out@ =~= s@.subrange(0, i + 1));
        i = i + 1;
    }
    assert(out@ =~= s@);
    out
}

} // verus!
