//! Base-128 variable-length integers.

use crate::error::FormatError;
use vstd::prelude::*;

verus! {

/// The most bytes a variable-length integer of 64 bits can occupy.
pub const MAX_VARINT_LEN: usize = 10;

/// `128` raised to the power `n`.
pub open spec fn pow128(n: nat) -> nat
    decreases n,
{
    if n == 0 {
        1
    } else {
        128 * pow128((n - 1) as nat)
    }
}

/// How many bytes at the front of `s` have the continuation flag set.
pub open spec fn continuation_run(s: Seq<u8>) -> nat
    decreases s.len(),
{
    if s.len() == 0 || s[0] < 128 {
        0
    } else {
        1 + continuation_run(s.skip(1))
    }
}

/// The number whose base-128 digits, least significant first, are the low
/// seven bits of the first `n` bytes of `s`.
pub open spec fn payload_value(s: Seq<u8>, n: nat) -> nat
    decreases n,
{
    if n == 0 {
        0
    } else {
        payload_value(s, (n - 1) as nat) + ((s[n - 1] % 128) as nat) * pow128((n - 1) as nat)
    }
}

/// The variable-length integer at the front of `s`, with the number of bytes
/// it occupies.
///
/// At most ten bytes are looked at. The integer ends at the first byte whose
/// high bit is clear.
pub open spec fn spec_read_varint(s: Seq<u8>) -> Result<(u64, nat), FormatError> {
    let run = continuation_run(s);
    if run >= MAX_VARINT_LEN {
        Err(FormatError::OversizedVarint)
    } else if run >= s.len() {
        Err(FormatError::TruncatedVarint)
    } else if payload_value(s, run + 1) > u64::MAX {
        Err(FormatError::OversizedVarint)
    } else {
        Ok((payload_value(s, run + 1) as u64, run + 1))
    }
}

/// The variable-length integer that starts at position `pos` of `s`. A
/// position behind the end finds nothing to read.
pub open spec fn spec_varint_at(s: Seq<u8>, pos: nat) -> Result<(u64, nat), FormatError> {
    if pos > s.len() {
        Err(FormatError::TruncatedVarint)
    } else {
        spec_read_varint(s.skip(pos as int))
    }
}

/// The standard encoding of `value`: seven bits per byte, least significant
/// group first, the high bit set on every byte but the last.
pub open spec fn spec_encode_varint(value: nat) -> Seq<u8>
    decreases value,
{
    if value < 128 {
        seq![value as u8]
    } else {
        seq![(128 + value % 128) as u8] + spec_encode_varint(value / 128)
    }
}

/// The first powers of 128, up to the one that no longer fits in 64 bits.
pub proof fn lemma_pow128_values()
    ensures
        pow128(0) == 1,
        pow128(1) == 0x80,
        pow128(2) == 0x4000,
        pow128(3) == 0x20_0000,
        pow128(4) == 0x1000_0000,
        pow128(5) == 0x8_0000_0000,
        pow128(6) == 0x400_0000_0000,
        pow128(7) == 0x2_0000_0000_0000,
        pow128(8) == 0x100_0000_0000_0000,
        pow128(9) == 0x8000_0000_0000_0000,
        pow128(10) == 0x40_0000_0000_0000_0000,
{
    reveal_with_fuel(pow128, 11);
}

/// A run of `i` continuation bytes at the front of `s` bounds
/// [`continuation_run`] from below, and pins it when the run ends there.
pub proof fn lemma_continuation_run(s: Seq<u8>, i: nat)
    requires
        i <= s.len(),
        forall|j: int| 0 <= j < i ==> s[j] >= 128,
    ensures
        continuation_run(s) >= i,
        i == s.len() ==> continuation_run(s) == i,
        i < s.len() && s[i as int] < 128 ==> continuation_run(s) == i,
    decreases i,
{
    if i > 0 {
        let t = s.skip(1);
        assert forall|j: int| 0 <= j < i - 1 implies t[j] >= 128 by {
            assert(t[j] == s[j + 1]);
        }
        lemma_continuation_run(t, (i - 1) as nat);
    }
}

/// [`payload_value`] reads only the first `n` bytes.
proof fn lemma_payload_value_prefix(a: Seq<u8>, b: Seq<u8>, n: nat)
    requires
        n <= a.len(),
        n <= b.len(),
        forall|j: int| 0 <= j < n ==> a[j] == b[j],
    ensures
        payload_value(a, n) == payload_value(b, n),
    decreases n,
{
    if n > 0 {
        lemma_payload_value_prefix(a, b, (n - 1) as nat);
    }
}

/// Peeling the first byte off: its seven bits are the lowest digit.
proof fn lemma_payload_value_head(s: Seq<u8>, n: nat)
    requires
        n < s.len(),
    ensures
        payload_value(s, n + 1) == (s[0] % 128) + 128 * payload_value(s.skip(1), n),
    decreases n,
{
    let t = s.skip(1);
    if n == 0 {
        assert(payload_value(s, 0) == 0);
        assert(payload_value(t, 0) == 0);
        assert(pow128(0) == 1);
        assert(payload_value(s, 1) == payload_value(s, 0) + ((s[0] % 128) as nat) * pow128(0));
    } else {
        lemma_payload_value_head(s, (n - 1) as nat);
        let d = (s[n as int] % 128) as nat;
        let p = pow128((n - 1) as nat);
        assert(t[n - 1] == s[n as int]);
        assert(pow128(n) == 128 * p);
        assert(payload_value(s, n + 1) == payload_value(s, n) + d * pow128(n));
        assert(payload_value(t, n) == payload_value(t, (n - 1) as nat) + d * p);
        assert(d * (128 * p) == 128 * (d * p)) by (nonlinear_arith);
    }
}

/// Shape of the standard encoding: every byte but the last carries the
/// continuation flag, and the seven-bit groups spell `value`.
proof fn lemma_encode_varint_shape(value: nat)
    ensures
        spec_encode_varint(value).len() >= 1,
        forall|j: int|
            0 <= j < spec_encode_varint(value).len() - 1 ==> spec_encode_varint(value)[j] >= 128,
        spec_encode_varint(value).last() < 128,
        payload_value(spec_encode_varint(value), spec_encode_varint(value).len()) == value,
    decreases value,
{
    let e = spec_encode_varint(value);
    if value < 128 {
        assert(e =~= seq![value as u8]);
        assert(pow128(0) == 1);
        assert(payload_value(e, 1) == payload_value(e, 0) + ((e[0] % 128) as nat) * pow128(0));
    } else {
        let head = (128 + value % 128) as u8;
        let tail = spec_encode_varint(value / 128);
        lemma_encode_varint_shape(value / 128);
        assert(e =~= seq![head] + tail);
        assert(e.skip(1) =~= tail);
        assert forall|j: int| 0 <= j < e.len() - 1 implies e[j] >= 128 by {
            if j > 0 {
                assert(e[j] == tail[j - 1]);
            }
        }
        assert(e.last() == tail.last());
        lemma_payload_value_head(e, tail.len());
    }
}

/// A value below `128^k` is encoded in at most `k` bytes.
proof fn lemma_encode_varint_len(value: nat, k: nat)
    requires
        k >= 1,
        value < pow128(k),
    ensures
        spec_encode_varint(value).len() <= k,
    decreases value,
{
    if value >= 128 {
        assert(pow128(1) == 128) by {
            reveal_with_fuel(pow128, 2);
        }
        assert(k >= 2);
        assert(pow128(k) == 128 * pow128((k - 1) as nat));
        lemma_encode_varint_len(value / 128, (k - 1) as nat);
        assert(spec_encode_varint(value) =~= seq![(128 + value % 128) as u8] + spec_encode_varint(
            value / 128,
        ));
    }
}

/// Decoding undoes the standard encoding: the bytes that encode any 64-bit
/// `value`, followed by anything at all, read back as `value`, and exactly
/// the encoding is consumed.
pub proof fn lemma_varint_roundtrip(value: u64, rest: Seq<u8>)
    ensures
        spec_read_varint(spec_encode_varint(value as nat) + rest) == Ok::<
            (u64, nat),
            FormatError,
        >((value, spec_encode_varint(value as nat).len())),
{
    let e = spec_encode_varint(value as nat);
    let s = e + rest;
    lemma_pow128_values();
    lemma_encode_varint_shape(value as nat);
    lemma_encode_varint_len(value as nat, 10);
    let run = (e.len() - 1) as nat;
    assert forall|j: int| 0 <= j < run implies s[j] >= 128 by {
        assert(s[j] == e[j]);
    }
    assert(s[run as int] == e.last());
    lemma_continuation_run(s, run);
    lemma_payload_value_prefix(s, e, e.len());
}

/// Reads the variable-length integer that starts at `pos` in `buf` and moves
/// `pos` past it. On failure `pos` stays where it was.
pub fn parse_var_int(buf: &[u8], pos: &mut usize) -> (r: Result<u64, FormatError>)
    ensures
        match spec_varint_at(buf@, *old(pos) as nat) {
            Ok((value, len)) => r == Ok::<u64, FormatError>(value) && *final(pos) == *old(pos)
                + len,
            Err(e) => r == Err::<u64, FormatError>(e) && *final(pos) == *old(pos),
        },
{
    let start: usize = *pos;
    if start > buf.len() {
        return Err(FormatError::TruncatedVarint);
    }
    let avail: usize = buf.len() - start;
    let ghost s = buf@.skip(start as int);
    let mut value: u64 = 0;
    let mut scale: u64 = 1;
    let mut i: usize = 0;
    proof {
        lemma_pow128_values();
    }
    while i < MAX_VARINT_LEN
        invariant
            start == *old(pos),
            start <= buf.len(),
            avail == buf.len() - start,
            s == buf@.skip(start as int),
            *pos == start,
            i <= MAX_VARINT_LEN,
            i <= s.len(),
            forall|j: int| 0 <= j < i ==> s[j] >= 128,
            value == payload_value(s, i as nat),
            i < MAX_VARINT_LEN ==> value < pow128(i as nat),
            i < MAX_VARINT_LEN ==> scale == pow128(i as nat),
        decreases MAX_VARINT_LEN - i,
    {
        proof {
            lemma_pow128_values();
            lemma_continuation_run(s, i as nat);
        }
        if i >= avail {
            return Err(FormatError::TruncatedVarint);
        }
        let b: u8 = buf[start + i];
        let low: u8 = b & 0x7f;
        assert(low == b % 128 && low < 128 && (b & 0x80 == 0 <==> b < 128)) by (bit_vector)
            requires
                low == b & 0x7f,
        ;
        assert(s[i as int] == b);
        assert(payload_value(s, (i + 1) as nat) == value + (low as nat) * pow128(i as nat));
        if i == MAX_VARINT_LEN - 1 && low > 1 {
            proof {
                assert((low as nat) * pow128(9) >= 2 * pow128(9)) by (nonlinear_arith)
                    requires
                        low >= 2,
                ;
                if b >= 128 {
                    lemma_continuation_run(s, (i + 1) as nat);
                }
            }
            return Err(FormatError::OversizedVarint);
        }
        assert((low as nat) * pow128(i as nat) <= 127 * pow128(i as nat)) by (nonlinear_arith)
            requires
                low <= 127,
        ;
        assert(i == 9 ==> (low as nat) * pow128(9) <= pow128(9)) by (nonlinear_arith)
            requires
                i == 9 ==> low <= 1,
        ;
        value = value + (low as u64) * scale;
        if b & 0x80 == 0 {
            *pos = start + i + 1;
            return Ok(value);
        }
        i = i + 1;
        if i < MAX_VARINT_LEN {
            scale = scale * 128;
        }
    }
    proof {
        lemma_continuation_run(s, i as nat);
    }
    Err(FormatError::OversizedVarint)
}

} // verus!
