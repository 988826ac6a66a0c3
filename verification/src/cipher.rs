//! The keyed XOR transform that hides nested payloads.
//!
//! Byte `i` of a buffer of length `d` is XORed with the low eight bits of
//! `(23 XOR d) + 5 * i + KEY_CYCLE[i mod 9]`. The key stream depends on the
//! length of the whole buffer, so a buffer is transformed in one piece.

use vstd::prelude::*;

verus! {

/// The nine key bytes, used round and round.
pub const KEY_CYCLE: [u8; 9] = [0x84, 0x5E, 0x4E, 0x42, 0x39, 0xA2, 0x1F, 0x60, 0x1C];

/// The key byte for position `i` of a buffer of length `d`.
pub open spec fn spec_key_byte(d: usize, i: usize) -> u8 {
    (((23usize ^ d) + 5 * i + KEY_CYCLE[(i % 9) as int]) % 256) as u8
}

/// `data` with every byte XORed with its key byte.
pub open spec fn spec_deobfuscate(data: Seq<u8>) -> Seq<u8>
    recommends
        data.len() <= usize::MAX,
{
    Seq::new(data.len(), |i: int| data[i] ^ spec_key_byte(data.len() as usize, i as usize))
}

/// Applies the transform to `data` in place.
pub fn deobfuscate(data: &mut Vec<u8>)
    ensures
        final(data)@ == spec_deobfuscate(old(data)@),
{
    let d: usize = data.len();
    let seed: u128 = (23usize ^ d) as u128;
    let mut i: usize = 0;
    while i < d
        invariant
            i <= d,
            d == old(data)@.len(),
            data@.len() == d,
            seed == 23usize ^ d,
            forall|j: int| 0 <= j < i ==> data@[j] == old(data)@[j] ^ spec_key_byte(d, j as usize),
            forall|j: int| i <= j < d ==> data@[j] == old(data)@[j],
        decreases d - i,
    {
        let key: u128 = (seed + 5 * (i as u128) + KEY_CYCLE[i % 9] as u128) % 256;
        let byte: u8 = data[i];
        data.set(i, byte ^ (key as u8));
        i = i + 1;
    }
    assert(data@ =~= spec_deobfuscate(old(data)@));
}

/// The transform is its own inverse: applied twice to a buffer, it gives the
/// buffer back.
pub proof fn lemma_deobfuscate_involution(data: Seq<u8>)
    requires
        data.len() <= usize::MAX,
    ensures
        spec_deobfuscate(spec_deobfuscate(data)) == data,
{
    let once = spec_deobfuscate(data);
    let twice = spec_deobfuscate(once);
    assert forall|i: int| 0 <= i < data.len() implies twice[i] == data[i] by {
        let x = data[i];
        let k = spec_key_byte(data.len() as usize, i as usize);
        assert((x ^ k) ^ k == x) by (bit_vector);
    }
    assert(twice =~= data);
}

/// The key byte at a position is the same for two buffer lengths exactly
/// when the lengths agree in their low eight bits.
pub proof fn lemma_key_byte_depends_on_length(d1: usize, d2: usize, i: usize)
    ensures
        spec_key_byte(d1, i) == spec_key_byte(d2, i) <==> d1 % 256 == d2 % 256,
{
    let x1 = 23usize ^ d1;
    let x2 = 23usize ^ d2;
    assert((x1 % 256 == x2 % 256) <==> (d1 % 256 == d2 % 256)) by (bit_vector)
        requires
            x1 == 23usize ^ d1,
            x2 == 23usize ^ d2,
    ;
    let c = 5 * i + KEY_CYCLE[(i % 9) as int];
    let k1 = (x1 + c) % 256;
    let k2 = (x2 + c) % 256;
    assert(k1 == k2 <==> x1 % 256 == x2 % 256);
    assert(spec_key_byte(d1, i) == k1);
    assert(spec_key_byte(d2, i) == k2);
}

/// The transform depends on the buffer's length: where two buffers of
/// lengths that differ in their low eight bits hold the same byte at the same
/// position, their transforms differ there.
pub proof fn lemma_deobfuscate_depends_on_length(a: Seq<u8>, b: Seq<u8>, i: int)
    requires
        a.len() <= usize::MAX,
        b.len() <= usize::MAX,
        a.len() % 256 != b.len() % 256,
        0 <= i < a.len(),
        i < b.len(),
        a[i] == b[i],
    ensures
        spec_deobfuscate(a)[i] != spec_deobfuscate(b)[i],
{
    let x = a[i];
    let k1 = spec_key_byte(a.len() as usize, i as usize);
    let k2 = spec_key_byte(b.len() as usize, i as usize);
    lemma_key_byte_depends_on_length(a.len() as usize, b.len() as usize, i as usize);
    assert(x ^ k1 != x ^ k2) by (bit_vector)
        requires
            k1 != k2,
    ;
}

} // verus!
