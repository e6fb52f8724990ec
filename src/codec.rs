//! Stable binary encoding of the plain artifacts (integers and coefficient
//! vectors), through bincode's default configuration: fixed-width
//! little-endian integers and a `u64` length before each sequence.

use vstd::prelude::*;

verus! {

#[verifier::external_type_specification]
#[verifier::external_body]
pub struct ExBincodeErrorKind(bincode::ErrorKind);

/// Why a buffer could not be decoded.
#[derive(Debug, Clone, Copy, PartialEq, Eq, Structural)]
pub enum CodecError {
    /// The buffer ends before the value does.
    Truncated,
    /// The value decoded but does not form a valid artifact.
    Malformed,
}

/// The eight little-endian bytes of `v`.
pub open spec fn le_bytes(v: u64) -> Seq<u8> {
    seq![
        v as u8,
        (v >> 8u64) as u8,
        (v >> 16u64) as u8,
        (v >> 24u64) as u8,
        (v >> 32u64) as u8,
        (v >> 40u64) as u8,
        (v >> 48u64) as u8,
        (v >> 56u64) as u8,
    ]
}

/// The `u64` whose little-endian bytes are the first eight of `b`.
pub open spec fn le_value(b: Seq<u8>) -> u64 {
    (b[0] as u64) | ((b[1] as u64) << 8u64) | ((b[2] as u64) << 16u64) | ((b[3] as u64)
        << 24u64) | ((b[4] as u64) << 32u64) | ((b[5] as u64) << 40u64) | ((b[6] as u64)
        << 48u64) | ((b[7] as u64) << 56u64)
}

/// The elements of `s`, eight little-endian bytes each, in order.
pub open spec fn words_bytes(s: Seq<u64>) -> Seq<u8>
    decreases s.len(),
{
    if s.len() == 0 {
        seq![]
    } else {
        words_bytes(s.drop_last()) + le_bytes(s.last())
    }
}

/// The encoding of a sequence of `u64`: its length, then its elements.
pub open spec fn seq_bytes(s: Seq<u64>) -> Seq<u8> {
    le_bytes(s.len() as u64) + words_bytes(s)
}

/// The elements that a sequence encoding `b` holds, after its length.
pub open spec fn words_of(b: Seq<u8>) -> Seq<u64> {
    Seq::new(le_value(b) as nat, |i: int| le_value(b.subrange(8 + 8 * i, 16 + 8 * i)))
}

/// Whether `b` starts with a length `n` followed by at least `n` eight-byte elements.
pub open spec fn holds_words(b: Seq<u8>) -> bool {
    b.len() >= 8 && (b.len() - 8) / 8 >= le_value(b) as int
}

/// Relies on bincode::serialize of a `u64`: eight little-endian bytes, and no
/// failure (the default configuration sets no size limit and a `Vec` writer
/// cannot fail).
#[verifier::external_body]
fn bincode_serialize_u64(v: u64) -> (r: Result<Vec<u8>, Box<bincode::ErrorKind>>)
    ensures
        r is Ok,
        r matches Ok(b) ==> b@ == le_bytes(v),
{
    bincode::serialize(&v)
}

/// Relies on bincode::deserialize into a `u64`: reads the first eight bytes as
/// little-endian, fails when fewer are given, and allows trailing bytes.
#[verifier::external_body]
fn bincode_deserialize_u64(b: &[u8]) -> (r: Result<u64, Box<bincode::ErrorKind>>)
    ensures
        r is Ok <==> b@.len() >= 8,
        r matches Ok(v) ==> v == le_value(b@),
{
    bincode::deserialize(b)
}

/// Relies on bincode::serialize of a `Vec<u64>`: the length as a little-endian
/// `u64`, then each element in eight little-endian bytes, and no failure.
#[verifier::external_body]
fn bincode_serialize_words(v: &Vec<u64>) -> (r: Result<Vec<u8>, Box<bincode::ErrorKind>>)
    ensures
        r is Ok,
        r matches Ok(b) ==> b@ == seq_bytes(v@),
{
    bincode::serialize(v)
}

/// Relies on bincode::deserialize into a `Vec<u64>`: reads a little-endian `u64`
/// length `n`, then `n` little-endian `u64` elements; fails when the buffer is
/// shorter, and allows trailing bytes.
#[verifier::external_body]
fn bincode_deserialize_words(b: &[u8]) -> (r: Result<Vec<u64>, Box<bincode::ErrorKind>>)
    ensures
        r is Ok <==> holds_words(b@),
        r matches Ok(v) ==> v@.len() == le_value(b@) && words_bytes(v@) == b@.subrange(
            8,
            8 + 8 * le_value(b@),
        ),
{
    bincode::deserialize(b)
}

/// Encodes `v` as eight little-endian bytes.
pub fn serialize_u64(v: u64) -> (r: Vec<u8>)
    ensures
        r@ == le_bytes(v),
{
    match bincode_serialize_u64(v) {
        Ok(b) => b,
        Err(_) => Vec::new(),
    }
}

/// Decodes a `u64` from the first eight bytes of `b`.
pub fn deserialize_u64(b: &[u8]) -> (r: Result<u64, CodecError>)
    ensures
        r is Ok <==> b@.len() >= 8,
        r matches Ok(v) ==> v == le_value(b@),
        r matches Err(e) ==> e == CodecError::Truncated,
{
    match bincode_deserialize_u64(b) {
        Ok(v) => Ok(v),
        Err(_) => Err(CodecError::Truncated),
    }
}

/// Encodes a coefficient vector: its length, then its elements.
pub fn serialize_words(v: &Vec<u64>) -> (r: Vec<u8>)
    ensures
        r@ == seq_bytes(v@),
{
    match bincode_serialize_words(v) {
        Ok(b) => b,
        Err(_) => Vec::new(),
    }
}

/// Decodes a coefficient vector written by `serialize_words`.
pub fn deserialize_words(b: &[u8]) -> (r: Result<Vec<u64>, CodecError>)
    ensures
        r is Ok <==> holds_words(b@),
        r matches Ok(v) ==> v@ == words_of(b@),
        r matches Err(e) ==> e == CodecError::Truncated,
{
    match bincode_deserialize_words(b) {
        Ok(v) => {
            proof {
                lemma_words_of(b@, v@);
            }
            Ok(v)
        },
        Err(_) => Err(CodecError::Truncated),
    }
}

/// Round trip of a `u64`: reading back its eight bytes gives `v`.
pub proof fn lemma_le_round_trip(v: u64)
    ensures
        le_bytes(v).len() == 8,
        le_value(le_bytes(v)) == v,
{
    let b = le_bytes(v);
    let b0 = v as u8;
    let b1 = (v >> 8u64) as u8;
    let b2 = (v >> 16u64) as u8;
    let b3 = (v >> 24u64) as u8;
    let b4 = (v >> 32u64) as u8;
    let b5 = (v >> 40u64) as u8;
    let b6 = (v >> 48u64) as u8;
    let b7 = (v >> 56u64) as u8;
    assert(b[0] == b0 && b[1] == b1 && b[2] == b2 && b[3] == b3);
    assert(b[4] == b4 && b[5] == b5 && b[6] == b6 && b[7] == b7);
    assert(((b0 as u64) | ((b1 as u64) << 8u64) | ((b2 as u64) << 16u64) | ((b3 as u64) << 24u64)
        | ((b4 as u64) << 32u64) | ((b5 as u64) << 40u64) | ((b6 as u64) << 48u64) | ((b7 as u64)
        << 56u64)) == v) by (bit_vector)
        requires
            b0 == v as u8,
            b1 == (v >> 8u64) as u8,
            b2 == (v >> 16u64) as u8,
            b3 == (v >> 24u64) as u8,
            b4 == (v >> 32u64) as u8,
            b5 == (v >> 40u64) as u8,
            b6 == (v >> 48u64) as u8,
            b7 == (v >> 56u64) as u8,
    ;
}

/// Only the first eight bytes of a buffer decide `le_value`.
pub proof fn lemma_le_value_prefix(a: Seq<u8>, b: Seq<u8>)
    requires
        a.len() >= 8,
        b.len() >= 8,
        a.subrange(0, 8) == b.subrange(0, 8),
    ensures
        le_value(a) == le_value(b),
{
    assert forall|i: int| 0 <= i < 8 implies a[i] == b[i] by {
        assert(a[i] == a.subrange(0, 8)[i]);
        assert(b[i] == b.subrange(0, 8)[i]);
    }
}

/// The encoding of `s` takes eight bytes per element.
pub proof fn lemma_words_bytes_len(s: Seq<u64>)
    ensures
        words_bytes(s).len() == 8 * s.len(),
    decreases s.len(),
{
    if s.len() > 0 {
        lemma_words_bytes_len(s.drop_last());
    }
}

proof fn lemma_words_bytes_elem(v: Seq<u64>, i: int)
    requires
        0 <= i < v.len(),
    ensures
        words_bytes(v).len() == 8 * v.len(),
        words_bytes(v).subrange(8 * i, 8 * i + 8) == le_bytes(v[i]),
    decreases v.len(),
{
    lemma_words_bytes_len(v);
    let p = v.drop_last();
    lemma_words_bytes_len(p);
    if i < v.len() - 1 {
        lemma_words_bytes_elem(p, i);
        assert(words_bytes(v).subrange(8 * i, 8 * i + 8) =~= words_bytes(p).subrange(
            8 * i,
            8 * i + 8,
        ));
    } else {
        assert(words_bytes(v).subrange(8 * i, 8 * i + 8) =~= le_bytes(v.last()));
    }
}

/// A decoded sequence is the one that `words_of` reads.
pub proof fn lemma_words_of(b: Seq<u8>, v: Seq<u64>)
    requires
        holds_words(b),
        v.len() == le_value(b),
        words_bytes(v) == b.subrange(8, 8 + 8 * le_value(b)),
    ensures
        v == words_of(b),
{
    assert forall|i: int| 0 <= i < v.len() implies v[i] == words_of(b)[i] by {
        lemma_words_bytes_elem(v, i);
        lemma_le_round_trip(v[i]);
        assert(b.subrange(8 + 8 * i, 16 + 8 * i) =~= words_bytes(v).subrange(8 * i, 8 * i + 8));
    }
    assert(v =~= words_of(b));
}

/// Decoding the encoding of a coefficient vector gives it back.
pub proof fn lemma_words_round_trip(s: Seq<u64>)
    requires
        s.len() <= u64::MAX,
    ensures
        holds_words(seq_bytes(s)),
        words_of(seq_bytes(s)) == s,
{
    let b = seq_bytes(s);
    lemma_le_round_trip(s.len() as u64);
    lemma_words_bytes_len(s);
    assert(b.subrange(0, 8) =~= le_bytes(s.len() as u64));
    assert(le_bytes(s.len() as u64).subrange(0, 8) =~= le_bytes(s.len() as u64));
    lemma_le_value_prefix(b, le_bytes(s.len() as u64));
    assert(le_value(b) == s.len());
    assert(b.subrange(8, 8 + 8 * s.len() as int) =~= words_bytes(s));
    lemma_words_of(b, s);
}

} // verus!
