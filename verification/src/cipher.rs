//! Byte-for-byte XOR combination of data with key material (Vernam style):
//! a single-key form truncated to the shorter input and a dual-key form that
//! treats missing key bytes as zero.

use vstd::prelude::*;

verus! {

/// The single-key combination: one output byte per index covered by both
/// inputs, each the XOR of the data byte with the key byte.
pub open spec fn xor_single_spec(data: Seq<u8>, key: Seq<u8>) -> Seq<u8> {
    Seq::new(
        if data.len() <= key.len() {
            data.len()
        } else {
            key.len()
        },
        |i: int| data[i] ^ key[i],
    )
}

/// A key byte when the key covers the index, zero once the key is exhausted.
pub open spec fn key_byte_or_zero(key: Seq<u8>, i: int) -> u8 {
    if i < key.len() {
        key[i]
    } else {
        0
    }
}

/// The dual-key combination: one output byte per data byte, each the XOR of
/// the data byte with both key bytes, a missing key byte counting as zero.
pub open spec fn xor_dual_spec(data: Seq<u8>, key_a: Seq<u8>, key_b: Seq<u8>) -> Seq<u8> {
    Seq::new(data.len(), |i: int| data[i] ^ key_byte_or_zero(key_a, i) ^ key_byte_or_zero(key_b, i))
}

/// XOR `data` with a single key, over the indices both inputs cover.
///
/// The same call encrypts and decrypts: XOR with the same key twice gives
/// the original bytes back (`lemma_xor_single_involution`).
pub fn xor_single(data: &[u8], key: &[u8]) -> (result: Vec<u8>)
    ensures
        result@ == xor_single_spec(data@, key@),
{
    let len = if data.len() <= key.len() {
        data.len()
    } else {
        key.len()
    };
    let mut result: Vec<u8> = Vec::new();
    let mut i: usize = 0;
    while i < len
        invariant
            len == xor_single_spec(data@, key@).len(),
            len <= data@.len() && len <= key@.len(),
            i <= len,
            result@ == xor_single_spec(data@, key@).take(i as int),
        decreases len - i,
    {
        result.push(data[i] ^ key[i]);
        proof {
            assert(result@ =~= xor_single_spec(data@, key@).take(i + 1));
        }
        i = i + 1;
    }
    proof {
        assert(result@ =~= xor_single_spec(data@, key@));
    }
    result
}

/// XOR `data` with two keys, one output byte per data byte; where a key is
/// shorter than the data its missing bytes count as zero, so callers must
/// supply keys at least as long as the data for full-strength combination.
pub fn xor_vernam(data: &[u8], key_a: &[u8], key_b: &[u8]) -> (result: Vec<u8>)
    ensures
        result@ == xor_dual_spec(data@, key_a@, key_b@),
{
    let mut result: Vec<u8> = Vec::new();
    let mut i: usize = 0;
    while i < data.len()
        invariant
            i <= data@.len(),
            result@ == xor_dual_spec(data@, key_a@, key_b@).take(i as int),
        decreases data@.len() - i,
    {
        let ka = if i < key_a.len() {
            key_a[i]
        } else {
            0
        };
        let kb = if i < key_b.len() {
            key_b[i]
        } else {
            0
        };
        result.push(data[i] ^ ka ^ kb);
        proof {
            assert(result@ =~= xor_dual_spec(data@, key_a@, key_b@).take(i + 1));
        }
        i = i + 1;
    }
    proof {
        assert(result@ =~= xor_dual_spec(data@, key_a@, key_b@));
    }
    result
}

/// XOR of a byte with the same byte twice gives the byte back.
proof fn lemma_byte_xor_involution(d: u8, k: u8)
    ensures
        (d ^ k) ^ k == d,
{
    assert((d ^ k) ^ k == d) by (bit_vector);
}

/// XOR of a byte with two keys twice, in the same order, gives the byte back.
proof fn lemma_byte_xor_dual_involution(d: u8, a: u8, b: u8)
    ensures
        ((d ^ a ^ b) ^ a) ^ b == d,
{
    assert(((d ^ a ^ b) ^ a) ^ b == d) by (bit_vector);
}

/// Involution law: for data and a key of equal length, combining twice with
/// the same key reproduces the data.
pub proof fn lemma_xor_single_involution(data: Seq<u8>, key: Seq<u8>)
    requires
        data.len() == key.len(),
    ensures
        xor_single_spec(xor_single_spec(data, key), key) == data,
{
    let once = xor_single_spec(data, key);
    let twice = xor_single_spec(once, key);
    assert forall|i: int| 0 <= i < data.len() implies twice[i] == data[i] by {
        lemma_byte_xor_involution(data[i], key[i]);
    }
    assert(twice =~= data);
}

/// Dual-key involution law: when both keys cover the data, combining twice
/// with the same pair of keys reproduces the data.
pub proof fn lemma_xor_dual_involution(data: Seq<u8>, key_a: Seq<u8>, key_b: Seq<u8>)
    requires
        key_a.len() >= data.len(),
        key_b.len() >= data.len(),
    ensures
        xor_dual_spec(xor_dual_spec(data, key_a, key_b), key_a, key_b) == data,
{
    let once = xor_dual_spec(data, key_a, key_b);
    let twice = xor_dual_spec(once, key_a, key_b);
    assert forall|i: int| 0 <= i < data.len() implies twice[i] == data[i] by {
        lemma_byte_xor_dual_involution(data[i], key_a[i], key_b[i]);
    }
    assert(twice =~= data);
}

} // verus!
