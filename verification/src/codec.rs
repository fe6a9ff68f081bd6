//! Little-endian byte encoding of unsigned integers.
//!
//! Every on-wire and in-region structure of the store is a sequence of
//! little-endian integers. The model is positional notation in base 256:
//! [`le_value`] reads a byte sequence as a number and [`le_digits`] writes a
//! number as a byte sequence of a given length.

use vstd::prelude::*;

verus! {

/// The number whose base-256 digits, least significant first, are `s`.
pub open spec fn le_value(s: Seq<u8>) -> nat
    decreases s.len(),
{
    if s.len() == 0 {
        0
    } else {
        s[0] as nat + 256 * le_value(s.drop_first())
    }
}

/// The `n` lowest base-256 digits of `v`, least significant first.
pub open spec fn le_digits(v: nat, n: nat) -> Seq<u8>
    decreases n,
{
    if n == 0 {
        Seq::empty()
    } else {
        seq![(v % 256) as u8] + le_digits(v / 256, (n - 1) as nat)
    }
}

/// `256` to the power `n`: one more than the largest `n`-byte number.
pub open spec fn byte_range(n: nat) -> nat
    decreases n,
{
    if n == 0 {
        1
    } else {
        256 * byte_range((n - 1) as nat)
    }
}

/// The four bytes of `s` that start at `at`, as a number.
pub open spec fn le_u32_at(s: Seq<u8>, at: int) -> nat {
    le_value(s.subrange(at, at + 4))
}

/// The eight bytes of `s` that start at `at`, as a number.
pub open spec fn le_u64_at(s: Seq<u8>, at: int) -> nat {
    le_value(s.subrange(at, at + 8))
}

/// `s` with the bytes from `at` on replaced by `bytes`.
pub open spec fn splice(s: Seq<u8>, at: int, bytes: Seq<u8>) -> Seq<u8> {
    s.subrange(0, at) + bytes + s.subrange(at + bytes.len(), s.len() as int)
}

/// A byte sequence of length `n` stands for a number below `256^n`.
pub proof fn lemma_le_value_bound(s: Seq<u8>)
    ensures
        le_value(s) < byte_range(s.len()),
    decreases s.len(),
{
    if s.len() > 0 {
        lemma_le_value_bound(s.drop_first());
    }
}

/// Encoding a number that fits and decoding the bytes gives the number back.
pub proof fn lemma_decode_encode(v: nat, n: nat)
    requires
        v < byte_range(n),
    ensures
        le_digits(v, n).len() == n,
        le_value(le_digits(v, n)) == v,
    decreases n,
{
    if n > 0 {
        lemma_decode_encode(v / 256, (n - 1) as nat);
        let d = le_digits(v, n);
        assert(d.drop_first() =~= le_digits(v / 256, (n - 1) as nat));
    }
}

/// Decoding a byte sequence and encoding the number gives the bytes back.
pub proof fn lemma_encode_decode(s: Seq<u8>)
    ensures
        le_digits(le_value(s), s.len()) == s,
    decreases s.len(),
{
    if s.len() == 0 {
        assert(le_digits(le_value(s), s.len()) =~= s);
    } else {
        let rest = s.drop_first();
        lemma_encode_decode(rest);
        let v = le_value(s);
        assert(v % 256 == s[0] as nat && v / 256 == le_value(rest));
        assert(seq![s[0]] + rest =~= s);
    }
}

/// The value of four bytes, written out.
pub proof fn lemma_le_value_4(s: Seq<u8>)
    requires
        s.len() == 4,
    ensures
        le_value(s) == s[0] + 0x100 * s[1] + 0x1_0000 * s[2] + 0x100_0000 * s[3],
        byte_range(4) == 0x1_0000_0000,
{
    reveal_with_fuel(le_value, 5);
    reveal_with_fuel(byte_range, 5);
}

/// The value of eight bytes, written out.
pub proof fn lemma_le_value_8(s: Seq<u8>)
    requires
        s.len() == 8,
    ensures
        le_value(s) == s[0] + 0x100 * s[1] + 0x1_0000 * s[2] + 0x100_0000 * s[3] + 0x1_0000_0000
            * s[4] + 0x100_0000_0000 * s[5] + 0x1_0000_0000_0000 * s[6] + 0x100_0000_0000_0000
            * s[7],
        byte_range(8) == 0x1_0000_0000_0000_0000,
{
    reveal_with_fuel(le_value, 9);
    reveal_with_fuel(byte_range, 9);
}

/// Decodes the `u32` at `at`.
pub fn read_u32(s: &[u8], at: usize) -> (v: u32)
    requires
        at + 4 <= s@.len(),
    ensures
        v == le_u32_at(s@, at as int),
{
    proof {
        lemma_le_value_4(s@.subrange(at as int, at + 4));
    }
    s[at] as u32 + 0x100 * s[at + 1] as u32 + 0x1_0000 * s[at + 2] as u32 + 0x100_0000
        * s[at + 3] as u32
}

/// Decodes the `u64` at `at`.
pub fn read_u64(s: &[u8], at: usize) -> (v: u64)
    requires
        at + 8 <= s@.len(),
    ensures
        v == le_u64_at(s@, at as int),
{
    proof {
        lemma_le_value_8(s@.subrange(at as int, at + 8));
    }
    s[at] as u64 + 0x100 * s[at + 1] as u64 + 0x1_0000 * s[at + 2] as u64 + 0x100_0000
        * s[at + 3] as u64 + 0x1_0000_0000 * s[at + 4] as u64 + 0x100_0000_0000
        * s[at + 5] as u64 + 0x1_0000_0000_0000 * s[at + 6] as u64 + 0x100_0000_0000_0000
        * s[at + 7] as u64
}

/// Encodes a `u32` as four bytes.
pub fn encode_u32(v: u32) -> (r: [u8; 4])
    ensures
        r@ == le_digits(v as nat, 4),
        le_value(r@) == v,
{
    let q1: u32 = v / 256;
    let q2: u32 = q1 / 256;
    let q3: u32 = q2 / 256;
    let r: [u8; 4] = [(v % 256) as u8, (q1 % 256) as u8, (q2 % 256) as u8, (q3 % 256) as u8];
    proof {
        reveal_with_fuel(le_digits, 5);
        reveal_with_fuel(byte_range, 5);
        assert(r@ =~= le_digits(v as nat, 4));
        lemma_decode_encode(v as nat, 4);
    }
    r
}

/// Encodes a `u64` as eight bytes.
pub fn encode_u64(v: u64) -> (r: [u8; 8])
    ensures
        r@ == le_digits(v as nat, 8),
        le_value(r@) == v,
{
    let q1: u64 = v / 256;
    let q2: u64 = q1 / 256;
    let q3: u64 = q2 / 256;
    let q4: u64 = q3 / 256;
    let q5: u64 = q4 / 256;
    let q6: u64 = q5 / 256;
    let q7: u64 = q6 / 256;
    let r: [u8; 8] = [
        (v % 256) as u8,
        (q1 % 256) as u8,
        (q2 % 256) as u8,
        (q3 % 256) as u8,
        (q4 % 256) as u8,
        (q5 % 256) as u8,
        (q6 % 256) as u8,
        (q7 % 256) as u8,
    ];
    proof {
        reveal_with_fuel(le_digits, 9);
        reveal_with_fuel(byte_range, 9);
        assert(r@ =~= le_digits(v as nat, 8));
        lemma_decode_encode(v as nat, 8);
    }
    r
}

/// Overwrites `buf[at..at + bytes.len()]` with `bytes`.
pub fn write_at(buf: &mut [u8], at: usize, bytes: &[u8])
    requires
        at + bytes@.len() <= old(buf)@.len(),
    ensures
        final(buf)@ == splice(old(buf)@, at as int, bytes@),
{
    let n: usize = buf.len();
    let mut i: usize = 0;
    while i < bytes.len()
        invariant
            i <= bytes@.len(),
            at + bytes@.len() <= n,
            n == old(buf)@.len(),
            buf@.len() == n,
            buf@ == splice(old(buf)@, at as int, bytes@.subrange(0, i as int)),
        decreases bytes@.len() - i,
    {
        buf[at + i] = bytes[i];
        i = i + 1;
        assert(buf@ =~= splice(old(buf)@, at as int, bytes@.subrange(0, i as int)));
    }
    assert(bytes@.subrange(0, i as int) =~= bytes@);
}

/// Bytes that are written into a buffer stand where they were written, and all others
/// stay.
pub proof fn law_splice(s: Seq<u8>, at: int, bytes: Seq<u8>)
    requires
        0 <= at,
        at + bytes.len() <= s.len(),
    ensures
        splice(s, at, bytes).len() == s.len(),
        splice(s, at, bytes).subrange(at, at + bytes.len()) == bytes,
        forall|i: int|
            0 <= i < s.len() && (i < at || at + bytes.len() <= i) ==> #[trigger] splice(
                s,
                at,
                bytes,
            )[i] == s[i],
{
    assert(splice(s, at, bytes).subrange(at, at + bytes.len()) =~= bytes);
}

/// The four and the eight bytes of a number, the lowest first.
pub proof fn law_little_endian(v: u32, w: u64)
    ensures
        ({
            let d = le_digits(v as nat, 4);
            d.len() == 4 && v == d[0] + 0x100 * d[1] + 0x1_0000 * d[2] + 0x100_0000 * d[3]
        }),
        ({
            let d = le_digits(w as nat, 8);
            d.len() == 8 && w == d[0] + 0x100 * d[1] + 0x1_0000 * d[2] + 0x100_0000 * d[3]
                + 0x1_0000_0000 * d[4] + 0x100_0000_0000 * d[5] + 0x1_0000_0000_0000 * d[6]
                + 0x100_0000_0000_0000 * d[7]
        }),
{
    reveal_with_fuel(byte_range, 9);
    lemma_decode_encode(v as nat, 4);
    lemma_decode_encode(w as nat, 8);
    lemma_le_value_4(le_digits(v as nat, 4));
    lemma_le_value_8(le_digits(w as nat, 8));
}

} // verus!
