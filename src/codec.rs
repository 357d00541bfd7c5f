//! The binary form of a record: the id's UTF-8 bytes behind their length,
//! then the elements behind their count, every integer little-endian and of
//! fixed width.
use vstd::prelude::*;
use vstd::utf8::encode_utf8;

use crate::error::PineError;
use crate::vector::Vector;

verus! {

/// The `k` low-order bytes of `n`, least significant first.
pub open spec fn le_bytes(n: nat, k: nat) -> Seq<u8>
    decreases k,
{
    if k == 0 {
        Seq::empty()
    } else {
        seq![(n % 256) as u8] + le_bytes(n / 256, (k - 1) as nat)
    }
}

/// Each element as four little-endian bytes, in order.
pub open spec fn words_bytes(data: Seq<u32>) -> Seq<u8>
    decreases data.len(),
{
    if data.len() == 0 {
        Seq::empty()
    } else {
        words_bytes(data.drop_last()) + le_bytes(data.last() as nat, 4)
    }
}

/// The encoding of a record with id `id` and elements `data`.
pub open spec fn record_bytes(id: Seq<char>, data: Seq<u32>) -> Seq<u8> {
    le_bytes(encode_utf8(id).len(), 8) + encode_utf8(id) + le_bytes(data.len(), 8)
        + words_bytes(data)
}

/// Whether the lengths of a record fit the 64-bit prefixes of its encoding.
pub open spec fn encodable(id: Seq<char>, data: Seq<u32>) -> bool {
    encode_utf8(id).len() <= u64::MAX && data.len() <= u64::MAX
}

#[verifier::external_type_specification]
#[verifier::external_body]
pub struct ExBincodeErrorKind(bincode::ErrorKind);

/// Relies on `bincode::serialize` of a `(&String, &Vec<u32>)` pair: with the
/// default fixed-width, little-endian options a string is its byte length as
/// a `u64` and then its bytes, a sequence is its element count as a `u64` and
/// then its elements, a `u32` is four bytes, and a tuple is its fields in order.
/// The byte limit of those options is unlimited, and a string or a `Vec`
/// always reports its length, so encoding such a pair cannot fail.
#[verifier::external_body]
fn serialize_record(id: &String, data: &Vec<u32>) -> (r: Result<Vec<u8>, bincode::Error>)
    ensures
        r is Ok,
        r matches Ok(b) ==> b@ == record_bytes(id@, data@),
{
    bincode::serialize(&(id, data))
}

/// Relies on `bincode::deserialize` into a `(String, Vec<u32>)` pair: bytes
/// that are exactly the encoding `bincode::serialize` gives a pair decode back
/// to that pair; other bytes give an error, never a panic.
#[verifier::external_body]
fn deserialize_record(bytes: &Vec<u8>) -> (r: Result<(String, Vec<u32>), bincode::Error>)
    ensures
        forall|id: Seq<char>, data: Seq<u32>|
            encodable(id, data) && #[trigger] record_bytes(id, data) == bytes@ ==> r.is_ok()
                && r.unwrap().0@ == id && r.unwrap().1@ == data,
{
    bincode::deserialize::<(String, Vec<u32>)>(bytes.as_slice())
}

/// Encodes a record; this always succeeds.
pub fn encode_vector(v: &Vector) -> (r: Result<Vec<u8>, PineError>)
    ensures
        r is Ok,
        r matches Ok(b) ==> b@ == record_bytes(v.id@, v.data@),
{
    match serialize_record(&v.id, &v.data) {
        Ok(b) => Ok(b),
        Err(_) => Err(PineError::Bincode),
    }
}

/// Decodes a record. The encoding of any record decodes back to it, exactly.
pub fn decode_vector(bytes: &Vec<u8>) -> (r: Result<Vector, PineError>)
    ensures
        forall|id: Seq<char>, data: Seq<u32>|
            encodable(id, data) && #[trigger] record_bytes(id, data) == bytes@ ==> r.is_ok()
                && r.unwrap().id@ == id && r.unwrap().data@ == data,
        r matches Err(e) ==> e == PineError::Bincode,
{
    match deserialize_record(bytes) {
        Ok(p) => Ok(Vector { id: p.0, data: p.1 }),
        Err(_) => Err(PineError::Bincode),
    }
}

} // verus!
