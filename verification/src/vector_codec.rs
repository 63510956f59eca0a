//! The stored form of an embedding vector: each 32-bit value as four bytes,
//! most significant first, in the order of the values.
//!
//! A value is handled as its 32 bits, so every bit pattern, also that of a
//! NaN or an infinity, comes back from `decode` exactly as it went into
//! `encode`.

use vstd::prelude::*;
use vstd::arithmetic::div_mod::lemma_fundamental_div_mod_converse;
use crate::error::{Entity, Failure, FailureKind};

verus! {

/// The four bytes of `x`, most significant first.
pub open spec fn be_bytes(x: u32) -> Seq<u8> {
    seq![
        (x / 0x100_0000) as u8,
        (x / 0x1_0000 % 0x100) as u8,
        (x / 0x100 % 0x100) as u8,
        (x % 0x100) as u8,
    ]
}

/// The value whose bytes, most significant first, are `b0 b1 b2 b3`.
pub open spec fn from_be_bytes(b0: u8, b1: u8, b2: u8, b3: u8) -> u32 {
    (b0 * 0x100_0000 + b1 * 0x1_0000 + b2 * 0x100 + b3) as u32
}

/// The bytes that stand for `values`: four per value, in order.
pub open spec fn encoded(values: Seq<u32>) -> Seq<u8> {
    Seq::new(4 * values.len(), |i: int| be_bytes(values[i / 4])[i % 4])
}

/// The values that `bytes` stand for, one per group of four bytes.
pub open spec fn decoded(bytes: Seq<u8>) -> Seq<u32> {
    Seq::new(
        bytes.len() / 4,
        |i: int| from_be_bytes(bytes[4 * i], bytes[4 * i + 1], bytes[4 * i + 2], bytes[4 * i + 3]),
    )
}

/// Whether `bytes` can be decoded: its length is a multiple of four.
pub open spec fn decodable(bytes: Seq<u8>) -> bool {
    bytes.len() % 4 == 0
}

/// The error that `decode` gives for bytes that are not decodable.
pub open spec fn malformed() -> Failure {
    Failure { kind: FailureKind::FormatError, entity: Entity::EmbeddingVector }
}

/// The four bytes of a value give the value back.
pub proof fn lemma_from_be_bytes(x: u32)
    ensures
        be_bytes(x).len() == 4,
        from_be_bytes(be_bytes(x)[0], be_bytes(x)[1], be_bytes(x)[2], be_bytes(x)[3]) == x,
{
    let v = x as int;
    let b0 = v / 0x100_0000;
    let b1 = v / 0x1_0000 % 0x100;
    let b2 = v / 0x100 % 0x100;
    let b3 = v % 0x100;
    assert(0 <= b0 < 0x100);
    assert(v == b0 * 0x100_0000 + b1 * 0x1_0000 + b2 * 0x100 + b3);
}

/// A value made of four bytes has those four bytes.
pub proof fn lemma_be_bytes(b0: u8, b1: u8, b2: u8, b3: u8)
    ensures
        be_bytes(from_be_bytes(b0, b1, b2, b3)) == seq![b0, b1, b2, b3],
{
    let v = b0 * 0x100_0000 + b1 * 0x1_0000 + b2 * 0x100 + b3;
    assert(0 <= v <= u32::MAX);
    lemma_fundamental_div_mod_converse(v, 0x100_0000, b0 as int, b1 * 0x1_0000 + b2 * 0x100 + b3);
    lemma_fundamental_div_mod_converse(v, 0x1_0000, b0 * 0x100 + b1, b2 * 0x100 + b3);
    lemma_fundamental_div_mod_converse(b0 * 0x100 + b1, 0x100, b0 as int, b1 as int);
    lemma_fundamental_div_mod_converse(v, 0x100, b0 * 0x1_0000 + b1 * 0x100 + b2, b3 as int);
    lemma_fundamental_div_mod_converse(
        b0 * 0x1_0000 + b1 * 0x100 + b2,
        0x100,
        b0 * 0x100 + b1,
        b2 as int,
    );
    assert(be_bytes(from_be_bytes(b0, b1, b2, b3)) =~= seq![b0, b1, b2, b3]);
}

/// Decoding what was encoded gives the values back, bit for bit.
pub proof fn lemma_decode_encode(values: Seq<u32>)
    ensures
        decodable(encoded(values)),
        decoded(encoded(values)) == values,
{
    let bytes = encoded(values);
    assert(decoded(bytes).len() == values.len());
    assert forall|i: int| 0 <= i < values.len() implies decoded(bytes)[i] == values[i] by {
        let x = values[i];
        lemma_from_be_bytes(x);
        assert((4 * i) / 4 == i && (4 * i + 1) / 4 == i && (4 * i + 2) / 4 == i && (4 * i + 3) / 4
            == i);
        assert((4 * i) % 4 == 0 && (4 * i + 1) % 4 == 1 && (4 * i + 2) % 4 == 2 && (4 * i + 3) % 4
            == 3);
        assert(bytes[4 * i] == be_bytes(x)[0]);
        assert(bytes[4 * i + 1] == be_bytes(x)[1]);
        assert(bytes[4 * i + 2] == be_bytes(x)[2]);
        assert(bytes[4 * i + 3] == be_bytes(x)[3]);
    }
    assert(decoded(bytes) =~= values);
}

/// Encoding what was decoded gives the bytes back, where they are decodable.
pub proof fn lemma_encode_decode(bytes: Seq<u8>)
    requires
        decodable(bytes),
    ensures
        encoded(decoded(bytes)) == bytes,
{
    let values = decoded(bytes);
    assert(encoded(values).len() == bytes.len());
    assert forall|i: int| 0 <= i < bytes.len() implies encoded(values)[i] == bytes[i] by {
        let k = i / 4;
        let r = i % 4;
        assert(0 <= k < values.len());
        assert(i == 4 * k + r && 0 <= r < 4);
        lemma_be_bytes(bytes[4 * k], bytes[4 * k + 1], bytes[4 * k + 2], bytes[4 * k + 3]);
        assert(values[k] == from_be_bytes(
            bytes[4 * k],
            bytes[4 * k + 1],
            bytes[4 * k + 2],
            bytes[4 * k + 3],
        ));
        assert(encoded(values)[i] == be_bytes(values[k])[r]);
    }
    assert(encoded(values) =~= bytes);
}

/// Two vectors with the same stored form are the same vector.
pub proof fn lemma_encoded_injective(a: Seq<u32>, b: Seq<u32>)
    requires
        encoded(a) == encoded(b),
    ensures
        a == b,
{
    lemma_decode_encode(a);
    lemma_decode_encode(b);
}

/// Writes `values` in their stored form.
pub fn encode(values: &Vec<u32>) -> (bytes: Vec<u8>)
    ensures
        bytes@ == encoded(values@),
{
    let mut bytes: Vec<u8> = Vec::new();
    let mut i: usize = 0;
    while i < values.len()
        invariant
            i <= values.len(),
            bytes@.len() == 4 * i,
            forall|j: int| 0 <= j < 4 * i ==> bytes@[j] == #[trigger] encoded(values@)[j],
        decreases values.len() - i,
    {
        let x: u32 = values[i];
        let ghost before = bytes@;
        bytes.push((x / 0x100_0000) as u8);
        bytes.push((x / 0x1_0000 % 0x100) as u8);
        bytes.push((x / 0x100 % 0x100) as u8);
        bytes.push((x % 0x100) as u8);
        proof {
            assert forall|j: int| 0 <= j < 4 * (i + 1) implies bytes@[j] == #[trigger] encoded(
                values@,
            )[j] by {
                if j < 4 * i {
                    assert(bytes@[j] == before[j]);
                } else {
                    assert(j / 4 == i as int);
                    assert(j % 4 == j - 4 * i);
                }
            }
        }
        i += 1;
    }
    assert(bytes@ =~= encoded(values@));
    bytes
}

/// Reads values back from their stored form. Bytes whose number is not a
/// multiple of four are refused.
pub fn decode(bytes: &[u8]) -> (r: Result<Vec<u32>, Failure>)
    ensures
        decodable(bytes@) ==> r is Ok && r->Ok_0@ == decoded(bytes@),
        !decodable(bytes@) ==> r == Err::<Vec<u32>, Failure>(malformed()),
{
    if bytes.len() % 4 != 0 {
        return Err(Failure::new(FailureKind::FormatError, Entity::EmbeddingVector));
    }
    Ok(decode_whole(bytes))
}

/// Reads values back from bytes whose number is a multiple of four.
fn decode_whole(bytes: &[u8]) -> (values: Vec<u32>)
    requires
        decodable(bytes@),
    ensures
        values@ == decoded(bytes@),
{
    let count: usize = bytes.len() / 4;
    let mut values: Vec<u32> = Vec::new();
    let mut i: usize = 0;
    while i < count
        invariant
            i <= count,
            4 * count == bytes@.len(),
            bytes@.len() <= usize::MAX,
            values@.len() == i,
            forall|j: int| 0 <= j < i ==> values@[j] == #[trigger] decoded(bytes@)[j],
        decreases count - i,
    {
        let b0: u8 = bytes[4 * i];
        let b1: u8 = bytes[4 * i + 1];
        let b2: u8 = bytes[4 * i + 2];
        let b3: u8 = bytes[4 * i + 3];
        let x: u32 = (b0 as u32) * 0x100_0000 + (b1 as u32) * 0x1_0000 + (b2 as u32) * 0x100 + (
        b3 as u32);
        values.push(x);
        i += 1;
    }
    assert(values@ =~= decoded(bytes@));
    values
}

} // verus!
