//! Byte-level decoding and encoding of the integer fields that make up MDF blocks.
//!
//! Every field of an MDF block is a fixed-width integer stored either least
//! significant byte first (little endian) or most significant byte first (big
//! endian). The spec functions below give the value that a run of bytes stands
//! for; the executable readers and writers are proved against them.
use vstd::arithmetic::div_mod::{
    lemma_div_denominator, lemma_div_multiples_vanish, lemma_fundamental_div_mod_converse,
};
use vstd::prelude::*;
use vstd::string::StrSliceExecFns;

verus! {

/// 256 to the power `n`: the number of distinct values an `n`-byte field holds.
pub open spec fn byte_range(n: nat) -> nat
    decreases n,
{
    if n == 0 {
        1
    } else {
        256 * byte_range((n - 1) as nat)
    }
}

/// Unsigned value of the `n` bytes of `s` that start at `p`, least significant byte first.
pub open spec fn uint_le(s: Seq<u8>, p: int, n: nat) -> nat
    decreases n,
{
    if n == 0 {
        0
    } else {
        s[p] as nat + 256 * uint_le(s, p + 1, (n - 1) as nat)
    }
}

/// Unsigned value of the `n` bytes of `s` that start at `p`, most significant byte first.
pub open spec fn uint_be(s: Seq<u8>, p: int, n: nat) -> nat
    decreases n,
{
    if n == 0 {
        0
    } else {
        uint_be(s, p, (n - 1) as nat) * 256 + s[p + n - 1] as nat
    }
}

/// Unsigned value of an `n`-byte field at `p` in the given byte order.
pub open spec fn uint_at(s: Seq<u8>, p: int, n: nat, little_endian: bool) -> nat {
    if little_endian {
        uint_le(s, p, n)
    } else {
        uint_be(s, p, n)
    }
}

/// Two's complement value of an `n`-byte field at `p` in the given byte order.
pub open spec fn int_at(s: Seq<u8>, p: int, n: nat, little_endian: bool) -> int {
    let u = uint_at(s, p, n, little_endian);
    if 2 * u >= byte_range(n) {
        u - byte_range(n)
    } else {
        u as int
    }
}

pub open spec fn u16_at(s: Seq<u8>, p: int, little_endian: bool) -> u16 {
    uint_at(s, p, 2, little_endian) as u16
}

pub open spec fn u32_at(s: Seq<u8>, p: int, little_endian: bool) -> u32 {
    uint_at(s, p, 4, little_endian) as u32
}

pub open spec fn u64_at(s: Seq<u8>, p: int, little_endian: bool) -> u64 {
    uint_at(s, p, 8, little_endian) as u64
}

pub open spec fn i8_at(s: Seq<u8>, p: int) -> i8 {
    int_at(s, p, 1, true) as i8
}

pub open spec fn i16_at(s: Seq<u8>, p: int, little_endian: bool) -> i16 {
    int_at(s, p, 2, little_endian) as i16
}

pub open spec fn i32_at(s: Seq<u8>, p: int, little_endian: bool) -> i32 {
    int_at(s, p, 4, little_endian) as i32
}

pub open spec fn i64_at(s: Seq<u8>, p: int, little_endian: bool) -> i64 {
    int_at(s, p, 8, little_endian) as i64
}

/// The values of `byte_range` that fixed-width integers use.
pub proof fn lemma_byte_range_values()
    ensures
        byte_range(0) == 1,
        byte_range(1) == 256,
        byte_range(2) == 0x1_0000,
        byte_range(3) == 0x100_0000,
        byte_range(4) == 0x1_0000_0000,
        byte_range(5) == 0x100_0000_0000,
        byte_range(6) == 0x1_0000_0000_0000,
        byte_range(7) == 0x100_0000_0000_0000,
        byte_range(8) == 0x1_0000_0000_0000_0000,
{
    reveal_with_fuel(byte_range, 9);
}

pub proof fn lemma_byte_range_positive(n: nat)
    ensures
        byte_range(n) > 0,
    decreases n,
{
    if n > 0 {
        lemma_byte_range_positive((n - 1) as nat);
    }
}

pub proof fn lemma_byte_range_monotone(a: nat, b: nat)
    requires
        a <= b,
    ensures
        byte_range(a) <= byte_range(b),
    decreases b,
{
    if a < b {
        lemma_byte_range_monotone(a, (b - 1) as nat);
        lemma_byte_range_positive((b - 1) as nat);
    }
}

/// An `n`-byte field holds a value below `256^n`.
pub proof fn lemma_uint_bound(s: Seq<u8>, p: int, n: nat)
    ensures
        uint_le(s, p, n) < byte_range(n),
        uint_be(s, p, n) < byte_range(n),
    decreases n,
{
    if n > 0 {
        lemma_uint_bound(s, p + 1, (n - 1) as nat);
        lemma_uint_bound(s, p, (n - 1) as nat);
    }
}

/// The value of a field depends only on its own bytes.
pub proof fn lemma_uint_ext(s1: Seq<u8>, p1: int, s2: Seq<u8>, p2: int, n: nat)
    requires
        forall|i: int| p1 <= i < p1 + n ==> #[trigger] s1[i] == s2[p2 + (i - p1)],
    ensures
        uint_le(s1, p1, n) == uint_le(s2, p2, n),
        uint_be(s1, p1, n) == uint_be(s2, p2, n),
    decreases n,
{
    if n > 0 {
        assert(s1[p1] == s2[p2 + (p1 - p1)]);
        assert(s1[p1 + n - 1] == s2[p2 + ((p1 + n - 1) - p1)]);
        lemma_uint_ext(s1, p1 + 1, s2, p2 + 1, (n - 1) as nat);
        lemma_uint_ext(s1, p1, s2, p2, (n - 1) as nat);
    }
}

/// Reads the unsigned value of the `n` bytes at `position` (at most eight).
pub fn read_uint(stream: &[u8], position: usize, n: usize, little_endian: bool) -> (r: u64)
    requires
        n <= 8,
        position + n <= stream.len(),
    ensures
        r as nat == uint_at(stream@, position as int, n as nat, little_endian),
{
    proof {
        lemma_byte_range_values();
    }
    let mut acc: u64 = 0;
    if little_endian {
        let mut i: usize = n;
        while i > 0
            invariant
                n <= 8,
                i <= n,
                position + n <= stream.len(),
                acc as nat == uint_le(stream@, position + i, (n - i) as nat),
                byte_range(8) == 0x1_0000_0000_0000_0000,
            decreases i,
        {
            proof {
                lemma_uint_bound(stream@, position + i, (n - i) as nat);
                lemma_byte_range_monotone((n - i) as nat, 7);
                lemma_byte_range_values();
            }
            let b = stream[position + i - 1];
            acc = acc * 256 + b as u64;
            i = i - 1;
        }
    } else {
        let mut i: usize = 0;
        while i < n
            invariant
                n <= 8,
                i <= n,
                position + n <= stream.len(),
                acc as nat == uint_be(stream@, position as int, i as nat),
            decreases n - i,
        {
            proof {
                lemma_uint_bound(stream@, position as int, i as nat);
                lemma_byte_range_monotone(i as nat, 7);
                lemma_byte_range_values();
            }
            let b = stream[position + i];
            acc = acc * 256 + b as u64;
            i = i + 1;
        }
    }
    acc
}

/// Reads one byte at `*position` and moves the position past it.
pub fn read_u8(stream: &[u8], position: &mut usize) -> (r: u8)
    requires
        *old(position) + 1 <= stream.len(),
    ensures
        *final(position) == *old(position) + 1,
        r == stream@[*old(position) as int],
{
    let p = *position;
    *position = p + 1;
    stream[p]
}

/// Reads a two-byte unsigned field at `*position` and moves the position past it.
pub fn read_u16(stream: &[u8], little_endian: bool, position: &mut usize) -> (r: u16)
    requires
        *old(position) + 2 <= stream.len(),
    ensures
        *final(position) == *old(position) + 2,
        r == u16_at(stream@, *old(position) as int, little_endian),
{
    let p = *position;
    proof {
        lemma_uint_bound(stream@, p as int, 2);
        lemma_byte_range_values();
    }
    let v = read_uint(stream, p, 2, little_endian);
    *position = p + 2;
    v as u16
}

/// Reads a four-byte unsigned field at `*position` and moves the position past it.
pub fn read_u32(stream: &[u8], little_endian: bool, position: &mut usize) -> (r: u32)
    requires
        *old(position) + 4 <= stream.len(),
    ensures
        *final(position) == *old(position) + 4,
        r == u32_at(stream@, *old(position) as int, little_endian),
{
    let p = *position;
    proof {
        lemma_uint_bound(stream@, p as int, 4);
        lemma_byte_range_values();
    }
    let v = read_uint(stream, p, 4, little_endian);
    *position = p + 4;
    v as u32
}

/// Reads an eight-byte unsigned field at `*position` and moves the position past it.
pub fn read_u64(stream: &[u8], little_endian: bool, position: &mut usize) -> (r: u64)
    requires
        *old(position) + 8 <= stream.len(),
    ensures
        *final(position) == *old(position) + 8,
        r == u64_at(stream@, *old(position) as int, little_endian),
{
    let p = *position;
    let v = read_uint(stream, p, 8, little_endian);
    *position = p + 8;
    v
}

/// Reads a one-byte two's complement field at `*position`.
pub fn read_i8(stream: &[u8], position: &mut usize) -> (r: i8)
    requires
        *old(position) + 1 <= stream.len(),
    ensures
        *final(position) == *old(position) + 1,
        r == i8_at(stream@, *old(position) as int),
{
    let p = *position;
    proof {
        lemma_uint_bound(stream@, p as int, 1);
        lemma_byte_range_values();
    }
    let u = read_uint(stream, p, 1, true);
    *position = p + 1;
    if u >= 128 {
        (u as i16 - 256) as i8
    } else {
        u as i8
    }
}

/// Reads a two-byte two's complement field at `*position`.
pub fn read_i16(stream: &[u8], little_endian: bool, position: &mut usize) -> (r: i16)
    requires
        *old(position) + 2 <= stream.len(),
    ensures
        *final(position) == *old(position) + 2,
        r == i16_at(stream@, *old(position) as int, little_endian),
{
    let p = *position;
    proof {
        lemma_uint_bound(stream@, p as int, 2);
        lemma_byte_range_values();
    }
    let u = read_uint(stream, p, 2, little_endian);
    *position = p + 2;
    if u >= 0x8000 {
        (u as i32 - 0x1_0000) as i16
    } else {
        u as i16
    }
}

/// Reads a four-byte two's complement field at `*position`.
pub fn read_i32(stream: &[u8], little_endian: bool, position: &mut usize) -> (r: i32)
    requires
        *old(position) + 4 <= stream.len(),
    ensures
        *final(position) == *old(position) + 4,
        r == i32_at(stream@, *old(position) as int, little_endian),
{
    let p = *position;
    proof {
        lemma_uint_bound(stream@, p as int, 4);
        lemma_byte_range_values();
    }
    let u = read_uint(stream, p, 4, little_endian);
    *position = p + 4;
    if u >= 0x8000_0000 {
        (u as i64 - 0x1_0000_0000) as i32
    } else {
        u as i32
    }
}

/// Reads an eight-byte two's complement field at `*position`.
pub fn read_i64(stream: &[u8], little_endian: bool, position: &mut usize) -> (r: i64)
    requires
        *old(position) + 8 <= stream.len(),
    ensures
        *final(position) == *old(position) + 8,
        r == i64_at(stream@, *old(position) as int, little_endian),
{
    let p = *position;
    proof {
        lemma_uint_bound(stream@, p as int, 8);
        lemma_byte_range_values();
    }
    let u = read_uint(stream, p, 8, little_endian);
    *position = p + 8;
    if u >= 0x8000_0000_0000_0000 {
        let c = u64::MAX - u;
        -(c as i64) - 1
    } else {
        u as i64
    }
}

/// Copies the `N` bytes at `*position` into `dst` and moves the position past them.
pub fn read_array<const N: usize>(stream: &[u8], dst: &mut [u8; N], position: &mut usize)
    requires
        *old(position) + N <= stream.len(),
    ensures
        *final(position) == *old(position) + N,
        final(dst)@ == stream@.subrange(*old(position) as int, *old(position) + N),
{
    let p = *position;
    let mut i: usize = 0;
    while i < N
        invariant
            i <= N,
            p + N <= stream.len(),
            dst@.len() == N,
            forall|j: int| 0 <= j < i ==> dst@[j] == stream@[p + j],
        decreases N - i,
    {
        dst[i] = stream[p + i];
        i = i + 1;
    }
    assert(dst@ =~= stream@.subrange(p as int, p + N));
    *position = p + N;
}

/// Element-wise equality of two byte slices over the length of the shorter one.
pub fn eq(array1: &[u8], other: &[u8]) -> (r: bool)
    ensures
        r == (forall|i: int|
            0 <= i < array1@.len() && i < other@.len() ==> #[trigger] array1@[i] == other@[i]),
{
    let n = if array1.len() < other.len() {
        array1.len()
    } else {
        other.len()
    };
    let mut i: usize = 0;
    while i < n
        invariant
            i <= n,
            n <= array1@.len(),
            n <= other@.len(),
            n == array1@.len() || n == other@.len(),
            forall|j: int| 0 <= j < i ==> #[trigger] array1@[j] == other@[j],
        decreases n - i,
    {
        if array1[i] != other[i] {
            return false;
        }
        i = i + 1;
    }
    true
}

/// The `n` bytes that encode `v`, least significant byte first.
pub open spec fn uint_bytes_le(v: nat, n: nat) -> Seq<u8> {
    Seq::new(n, |i: int| ((v / byte_range(i as nat)) % 256) as u8)
}

/// The `n` bytes that encode `v`, most significant byte first.
pub open spec fn uint_bytes_be(v: nat, n: nat) -> Seq<u8> {
    Seq::new(n, |i: int| ((v / byte_range((n - 1 - i) as nat)) % 256) as u8)
}

/// The `n` bytes that encode `v` in the given byte order.
pub open spec fn uint_bytes(v: nat, n: nat, little_endian: bool) -> Seq<u8> {
    if little_endian {
        uint_bytes_le(v, n)
    } else {
        uint_bytes_be(v, n)
    }
}

proof fn lemma_split_low_byte(u: nat, low: nat, high: nat)
    requires
        u == low + 256 * high,
        low < 256,
    ensures
        u % 256 == low,
        u / 256 == high,
{
    lemma_fundamental_div_mod_converse(u as int, 256, high as int, low as int);
}

proof fn lemma_div_step(u: nat, k: nat)
    requires
        k > 0,
    ensures
        u / byte_range(k) == (u / 256) / byte_range((k - 1) as nat),
{
    lemma_byte_range_positive((k - 1) as nat);
    lemma_div_denominator(u as int, 256, byte_range((k - 1) as nat) as int);
}

/// Byte `i` of a little-endian field is digit `i` of its value in base 256.
proof fn lemma_le_digit(s: Seq<u8>, p: int, n: nat, i: nat)
    requires
        i < n,
    ensures
        (uint_le(s, p, n) / byte_range(i)) % 256 == s[p + i],
    decreases i,
{
    let u = uint_le(s, p, n);
    let u1 = uint_le(s, p + 1, (n - 1) as nat);
    lemma_split_low_byte(u, s[p] as nat, u1);
    if i == 0 {
        assert(byte_range(0) == 1);
        assert(u / 1 == u) by (nonlinear_arith);
    } else {
        lemma_div_step(u, i);
        lemma_le_digit(s, p + 1, (n - 1) as nat, (i - 1) as nat);
    }
}

/// Byte `i` of a big-endian field is digit `n - 1 - i` of its value in base 256.
proof fn lemma_be_digit(s: Seq<u8>, p: int, n: nat, i: nat)
    requires
        i < n,
    ensures
        (uint_be(s, p, n) / byte_range((n - 1 - i) as nat)) % 256 == s[p + i],
    decreases n,
{
    let u = uint_be(s, p, n);
    let u1 = uint_be(s, p, (n - 1) as nat);
    lemma_split_low_byte(u, s[p + n - 1] as nat, u1);
    if i == n - 1 {
        assert(byte_range(0) == 1);
        assert(u / 1 == u) by (nonlinear_arith);
    } else {
        lemma_div_step(u, (n - 1 - i) as nat);
        lemma_be_digit(s, p, (n - 1) as nat, i);
    }
}

/// Encoding the value of a field gives back the field's bytes.
pub proof fn lemma_encode_decode(s: Seq<u8>, p: int, n: nat)
    requires
        0 <= p,
        p + n <= s.len(),
    ensures
        uint_bytes_le(uint_le(s, p, n), n) == s.subrange(p, p + n),
        uint_bytes_be(uint_be(s, p, n), n) == s.subrange(p, p + n),
{
    assert forall|i: int| 0 <= i < n implies #[trigger] uint_bytes_le(uint_le(s, p, n), n)[i]
        == s.subrange(p, p + n)[i] by {
        lemma_le_digit(s, p, n, i as nat);
    }
    assert forall|i: int| 0 <= i < n implies #[trigger] uint_bytes_be(uint_be(s, p, n), n)[i]
        == s.subrange(p, p + n)[i] by {
        lemma_be_digit(s, p, n, i as nat);
    }
    assert(uint_bytes_le(uint_le(s, p, n), n) =~= s.subrange(p, p + n));
    assert(uint_bytes_be(uint_be(s, p, n), n) =~= s.subrange(p, p + n));
}

/// Decoding the encoding of a value that fits in `n` bytes gives back the value.
pub proof fn lemma_decode_encode(v: nat, n: nat)
    requires
        v < byte_range(n),
    ensures
        uint_le(uint_bytes_le(v, n), 0, n) == v,
        uint_be(uint_bytes_be(v, n), 0, n) == v,
    decreases n,
{
    if n > 0 {
        let hi = v / 256;
        lemma_fundamental_div_mod_converse(v as int, 256, (v / 256) as int, (v % 256) as int);
        assert(hi < byte_range((n - 1) as nat));
        lemma_decode_encode(hi, (n - 1) as nat);
        let t = uint_bytes_le(v, n);
        let t1 = uint_bytes_le(hi, (n - 1) as nat);
        assert forall|i: int| 1 <= i < 1 + (n - 1) implies #[trigger] t[i] == t1[0 + (i - 1)] by {
            lemma_div_step(v, i as nat);
        }
        lemma_uint_ext(t, 1, t1, 0, (n - 1) as nat);
        assert(byte_range(0) == 1);
        assert(v / 1 == v) by (nonlinear_arith);
        assert(t[0] == v % 256);
        let b = uint_bytes_be(v, n);
        let b1 = uint_bytes_be(hi, (n - 1) as nat);
        assert forall|i: int| 0 <= i < 0 + (n - 1) implies #[trigger] b[i] == b1[0 + (i - 0)] by {
            lemma_div_step(v, (n - 1 - i) as nat);
        }
        lemma_uint_ext(b, 0, b1, 0, (n - 1) as nat);
        assert(b[n - 1] == v % 256);
    }
}

/// Encodes the low `n` bytes of `v` (at most eight) in the given byte order.
pub fn write_uint(v: u64, n: usize, little_endian: bool) -> (r: Vec<u8>)
    requires
        n <= 8,
    ensures
        r@ == uint_bytes(v as nat, n as nat, little_endian),
{
    proof {
        lemma_byte_range_values();
    }
    let mut out: Vec<u8> = Vec::new();
    if little_endian {
        let mut d: u64 = 1;
        let mut i: usize = 0;
        while i < n
            invariant
                n <= 8,
                i <= n,
                out@.len() == i,
                d > 0,
                i < n ==> d as nat == byte_range(i as nat),
                forall|j: int| 0 <= j < i ==> #[trigger] out@[j] == ((v as nat / byte_range(j as nat)) % 256) as u8,
            decreases n - i,
        {
            out.push(((v / d) % 256) as u8);
            if i + 1 < n {
                proof {
                    lemma_byte_range_monotone((i + 1) as nat, 7);
                    lemma_byte_range_values();
                }
                d = d * 256;
            }
            i = i + 1;
        }
        assert(out@ =~= uint_bytes_le(v as nat, n as nat));
    } else {
        let mut d: u64 = 1;
        let mut k: usize = 1;
        while k < n
            invariant
                n <= 8,
                1 <= k,
                k <= n || n == 0,
                d as nat == byte_range((k - 1) as nat),
                d > 0,
            decreases n - k,
        {
            proof {
                lemma_byte_range_monotone(k as nat, 7);
                lemma_byte_range_values();
            }
            d = d * 256;
            k = k + 1;
        }
        let mut i: usize = 0;
        while i < n
            invariant
                n <= 8,
                i <= n,
                out@.len() == i,
                d > 0,
                i < n ==> d as nat == byte_range((n - 1 - i) as nat),
                forall|j: int| 0 <= j < i ==> #[trigger] out@[j] == ((v as nat / byte_range((n - 1 - j) as nat)) % 256) as u8,
            decreases n - i,
        {
            out.push(((v / d) % 256) as u8);
            if i + 1 < n {
                proof {
                    lemma_div_multiples_vanish(byte_range((n - 2 - i) as nat) as int, 256);
                }
                d = d / 256;
            }
            i = i + 1;
        }
        assert(out@ =~= uint_bytes_be(v as nat, n as nat));
    }
    out
}

/// Encodes a two-byte unsigned value.
pub fn write_u16(v: u16, little_endian: bool) -> (r: Vec<u8>)
    ensures
        r@ == uint_bytes(v as nat, 2, little_endian),
{
    write_uint(v as u64, 2, little_endian)
}

/// Encodes a four-byte unsigned value.
pub fn write_u32(v: u32, little_endian: bool) -> (r: Vec<u8>)
    ensures
        r@ == uint_bytes(v as nat, 4, little_endian),
{
    write_uint(v as u64, 4, little_endian)
}

/// Encodes an eight-byte unsigned value.
pub fn write_u64(v: u64, little_endian: bool) -> (r: Vec<u8>)
    ensures
        r@ == uint_bytes(v as nat, 8, little_endian),
{
    write_uint(v, 8, little_endian)
}

/// A copy of the bytes of `a`.
pub fn bytes_to_vec(a: &[u8]) -> (r: Vec<u8>)
    ensures
        r@ == a@,
{
    let mut out: Vec<u8> = Vec::new();
    let mut i: usize = 0;
    while i < a.len()
        invariant
            i <= a@.len(),
            out@ == a@.subrange(0, i as int),
        decreases a@.len() - i,
    {
        out.push(a[i]);
        i = i + 1;
        assert(out@ =~= a@.subrange(0, i as int));
    }
    assert(a@.subrange(0, a@.len() as int) =~= a@);
    out
}

/// A field whose bytes are the encoding of `v` reads back as `v`.
pub proof fn lemma_read_written(s: Seq<u8>, p: int, v: nat, n: nat, little_endian: bool)
    requires
        0 <= p,
        p + n <= s.len(),
        v < byte_range(n),
        s.subrange(p, p + n) == uint_bytes(v, n, little_endian),
    ensures
        uint_at(s, p, n, little_endian) == v,
{
    let t = uint_bytes(v, n, little_endian);
    assert forall|i: int| p <= i < p + n implies #[trigger] s[i] == t[0 + (i - p)] by {
        assert(s.subrange(p, p + n)[i - p] == s[i]);
    }
    lemma_uint_ext(s, p, t, 0, n);
    lemma_decode_encode(v, n);
}

/// Writing back the value of a field gives the field's bytes.
pub proof fn lemma_field_bytes(s: Seq<u8>, q: int, n: nat, little_endian: bool)
    requires
        0 <= q,
        q + n <= s.len(),
    ensures
        uint_bytes(uint_at(s, q, n, little_endian), n, little_endian) == s.subrange(q, q + n),
        uint_at(s, q, n, little_endian) < byte_range(n),
{
    lemma_encode_decode(s, q, n);
    lemma_uint_bound(s, q, n);
}

/// Values that can be decoded from the leading bytes of a slice.
pub trait FromBytes: Sized {
    /// How many leading bytes a value takes.
    spec fn spec_width() -> nat;

    /// The value that the leading bytes of `a` encode, most significant byte first.
    spec fn spec_from_be_bytes(a: Seq<u8>) -> Self;

    /// The value that the leading bytes of `a` encode, least significant byte first.
    spec fn spec_from_le_bytes(a: Seq<u8>) -> Self;

    /// How many leading bytes a value takes.
    fn width() -> (r: usize)
        ensures
            r == Self::spec_width(),
    ;

    fn from_be_bytes(a: &[u8]) -> (r: Self)
        requires
            Self::spec_width() <= a@.len(),
        ensures
            r == Self::spec_from_be_bytes(a@),
    ;

    fn from_le_bytes(a: &[u8]) -> (r: Self)
        requires
            Self::spec_width() <= a@.len(),
        ensures
            r == Self::spec_from_le_bytes(a@),
    ;
}

/// The array that holds the first `N` bytes of `a`.
pub open spec fn leading_bytes<const N: usize>(a: Seq<u8>) -> [u8; N] {
    choose|r: [u8; N]| r@ == a.subrange(0, N as int)
}

/// Copies the first `N` bytes of `a` into an array.
fn copy_leading<const N: usize>(a: &[u8]) -> (r: [u8; N])
    requires
        N <= a@.len(),
    ensures
        r@ == a@.subrange(0, N as int),
        r == leading_bytes::<N>(a@),
{
    broadcast use vstd::array::group_array_axioms;

    let mut me = [0u8; N];
    let mut i: usize = 0;
    while i < N
        invariant
            i <= N,
            N <= a@.len(),
            me@.len() == N,
            forall|j: int| 0 <= j < i ==> me@[j] == a@[j],
        decreases N - i,
    {
        me[i] = a[i];
        i = i + 1;
    }
    assert(me@ =~= a@.subrange(0, N as int));
    let ghost c = leading_bytes::<N>(a@);
    assert(c@ == a@.subrange(0, N as int));
    assert(c =~= me) by {
        assert forall|j: int| 0 <= j < N implies c[j] == me[j] by {
            assert(c@[j] == me@[j]);
        }
    }
    me
}

/// An array of bytes is copied as stored, in either byte order.
impl<const N: usize> FromBytes for [u8; N] {
    open spec fn spec_width() -> nat {
        N as nat
    }

    open spec fn spec_from_be_bytes(a: Seq<u8>) -> [u8; N] {
        leading_bytes::<N>(a)
    }

    open spec fn spec_from_le_bytes(a: Seq<u8>) -> [u8; N] {
        leading_bytes::<N>(a)
    }

    fn width() -> (r: usize) {
        N
    }

    fn from_be_bytes(a: &[u8]) -> (r: [u8; N]) {
        copy_leading(a)
    }

    fn from_le_bytes(a: &[u8]) -> (r: [u8; N]) {
        copy_leading(a)
    }
}

/// An array of `N` bytes that holds the first `k` bytes of `a` and zeros after them.
spec fn leading_prefix<const N: usize>(a: Seq<u8>, k: nat) -> [u8; N]
    decreases k,
{
    if k == 0 {
        vstd::array::spec_array_fill_for_copy_type::<u8, N>(0u8)
    } else {
        vstd::array::spec_array_update(leading_prefix::<N>(a, (k - 1) as nat), k - 1, a[k - 1])
    }
}

proof fn lemma_leading_prefix<const N: usize>(a: Seq<u8>, k: nat)
    requires
        k <= N,
        N <= a.len(),
    ensures
        forall|i: int| 0 <= i < k ==> #[trigger] leading_prefix::<N>(a, k)@[i] == a[i],
        leading_prefix::<N>(a, k)@.len() == N,
    decreases k,
{
    broadcast use vstd::array::group_array_axioms;

    if k > 0 {
        lemma_leading_prefix::<N>(a, (k - 1) as nat);
    }
}

/// An array of `N` bytes is read as the first `N` bytes of `a`, in stream
/// order whatever the byte order; the bytes after them are not looked at.
pub proof fn lemma_leading_bytes<const N: usize>(a: Seq<u8>)
    requires
        N <= a.len(),
    ensures
        leading_bytes::<N>(a)@ == a.subrange(0, N as int),
        <[u8; N] as FromBytes>::spec_from_le_bytes(a)@ == a.subrange(0, N as int),
        <[u8; N] as FromBytes>::spec_from_be_bytes(a) == <[u8; N] as FromBytes>::spec_from_le_bytes(
            a,
        ),
{
    lemma_leading_prefix::<N>(a, N as nat);
    let w = leading_prefix::<N>(a, N as nat);
    assert(w@ =~= a.subrange(0, N as int));
}

impl FromBytes for u64 {
    open spec fn spec_width() -> nat {
        8
    }

    fn width() -> (r: usize) {
        8
    }

    open spec fn spec_from_be_bytes(a: Seq<u8>) -> u64 {
        u64_at(a, 0, false)
    }

    open spec fn spec_from_le_bytes(a: Seq<u8>) -> u64 {
        u64_at(a, 0, true)
    }

    fn from_be_bytes(a: &[u8]) -> (r: u64) {
        let mut p: usize = 0;
        read_u64(a, false, &mut p)
    }

    fn from_le_bytes(a: &[u8]) -> (r: u64) {
        let mut p: usize = 0;
        read_u64(a, true, &mut p)
    }
}

impl FromBytes for u32 {
    open spec fn spec_width() -> nat {
        4
    }

    fn width() -> (r: usize) {
        4
    }

    open spec fn spec_from_be_bytes(a: Seq<u8>) -> u32 {
        u32_at(a, 0, false)
    }

    open spec fn spec_from_le_bytes(a: Seq<u8>) -> u32 {
        u32_at(a, 0, true)
    }

    fn from_be_bytes(a: &[u8]) -> (r: u32) {
        let mut p: usize = 0;
        read_u32(a, false, &mut p)
    }

    fn from_le_bytes(a: &[u8]) -> (r: u32) {
        let mut p: usize = 0;
        read_u32(a, true, &mut p)
    }
}

impl FromBytes for u16 {
    open spec fn spec_width() -> nat {
        2
    }

    fn width() -> (r: usize) {
        2
    }

    open spec fn spec_from_be_bytes(a: Seq<u8>) -> u16 {
        u16_at(a, 0, false)
    }

    open spec fn spec_from_le_bytes(a: Seq<u8>) -> u16 {
        u16_at(a, 0, true)
    }

    fn from_be_bytes(a: &[u8]) -> (r: u16) {
        let mut p: usize = 0;
        read_u16(a, false, &mut p)
    }

    fn from_le_bytes(a: &[u8]) -> (r: u16) {
        let mut p: usize = 0;
        read_u16(a, true, &mut p)
    }
}

impl FromBytes for u8 {
    open spec fn spec_width() -> nat {
        1
    }

    fn width() -> (r: usize) {
        1
    }

    open spec fn spec_from_be_bytes(a: Seq<u8>) -> u8 {
        a[0]
    }

    open spec fn spec_from_le_bytes(a: Seq<u8>) -> u8 {
        a[0]
    }

    fn from_be_bytes(a: &[u8]) -> (r: u8) {
        a[0]
    }

    fn from_le_bytes(a: &[u8]) -> (r: u8) {
        a[0]
    }
}

impl FromBytes for i64 {
    open spec fn spec_width() -> nat {
        8
    }

    fn width() -> (r: usize) {
        8
    }

    open spec fn spec_from_be_bytes(a: Seq<u8>) -> i64 {
        i64_at(a, 0, false)
    }

    open spec fn spec_from_le_bytes(a: Seq<u8>) -> i64 {
        i64_at(a, 0, true)
    }

    fn from_be_bytes(a: &[u8]) -> (r: i64) {
        let mut p: usize = 0;
        read_i64(a, false, &mut p)
    }

    fn from_le_bytes(a: &[u8]) -> (r: i64) {
        let mut p: usize = 0;
        read_i64(a, true, &mut p)
    }
}

impl FromBytes for i32 {
    open spec fn spec_width() -> nat {
        4
    }

    fn width() -> (r: usize) {
        4
    }

    open spec fn spec_from_be_bytes(a: Seq<u8>) -> i32 {
        i32_at(a, 0, false)
    }

    open spec fn spec_from_le_bytes(a: Seq<u8>) -> i32 {
        i32_at(a, 0, true)
    }

    fn from_be_bytes(a: &[u8]) -> (r: i32) {
        let mut p: usize = 0;
        read_i32(a, false, &mut p)
    }

    fn from_le_bytes(a: &[u8]) -> (r: i32) {
        let mut p: usize = 0;
        read_i32(a, true, &mut p)
    }
}

impl FromBytes for i16 {
    open spec fn spec_width() -> nat {
        2
    }

    fn width() -> (r: usize) {
        2
    }

    open spec fn spec_from_be_bytes(a: Seq<u8>) -> i16 {
        i16_at(a, 0, false)
    }

    open spec fn spec_from_le_bytes(a: Seq<u8>) -> i16 {
        i16_at(a, 0, true)
    }

    fn from_be_bytes(a: &[u8]) -> (r: i16) {
        let mut p: usize = 0;
        read_i16(a, false, &mut p)
    }

    fn from_le_bytes(a: &[u8]) -> (r: i16) {
        let mut p: usize = 0;
        read_i16(a, true, &mut p)
    }
}

impl FromBytes for i8 {
    open spec fn spec_width() -> nat {
        1
    }

    fn width() -> (r: usize) {
        1
    }

    open spec fn spec_from_be_bytes(a: Seq<u8>) -> i8 {
        i8_at(a, 0)
    }

    open spec fn spec_from_le_bytes(a: Seq<u8>) -> i8 {
        i8_at(a, 0)
    }

    fn from_be_bytes(a: &[u8]) -> (r: i8) {
        let mut p: usize = 0;
        read_i8(a, &mut p)
    }

    fn from_le_bytes(a: &[u8]) -> (r: i8) {
        let mut p: usize = 0;
        read_i8(a, &mut p)
    }
}

/// A field read most significant byte first has the value that its bytes,
/// taken in reverse order, have when read least significant byte first.
pub proof fn lemma_be_is_reversed_le(s: Seq<u8>, p: int, n: nat)
    requires
        0 <= p,
        p + n <= s.len(),
    ensures
        uint_be(s, p, n) == uint_le(s.subrange(p, p + n).reverse(), 0, n),
    decreases n,
{
    if n > 0 {
        let r = s.subrange(p, p + n).reverse();
        let r1 = s.subrange(p, p + n - 1).reverse();
        lemma_be_is_reversed_le(s, p, (n - 1) as nat);
        assert forall|i: int| 1 <= i < 1 + (n - 1) implies #[trigger] r[i] == r1[0 + (i - 1)] by {}
        lemma_uint_ext(r, 1, r1, 0, (n - 1) as nat);
        assert(r[0] == s[p + n - 1]);
    }
}

/// Reading an integer most significant byte first gives what reading its
/// bytes in swapped order, least significant byte first, gives; the bytes
/// after the integer's own are not looked at.
pub proof fn lemma_read_be_is_swapped_read_le(a: Seq<u8>)
    ensures
        a.len() >= 2 ==> {
            &&& <u16 as FromBytes>::spec_from_be_bytes(a) == <u16 as FromBytes>::spec_from_le_bytes(
                a.subrange(0, 2).reverse(),
            )
            &&& <i16 as FromBytes>::spec_from_be_bytes(a) == <i16 as FromBytes>::spec_from_le_bytes(
                a.subrange(0, 2).reverse(),
            )
        },
        a.len() >= 4 ==> {
            &&& <u32 as FromBytes>::spec_from_be_bytes(a) == <u32 as FromBytes>::spec_from_le_bytes(
                a.subrange(0, 4).reverse(),
            )
            &&& <i32 as FromBytes>::spec_from_be_bytes(a) == <i32 as FromBytes>::spec_from_le_bytes(
                a.subrange(0, 4).reverse(),
            )
        },
        a.len() >= 8 ==> {
            &&& <u64 as FromBytes>::spec_from_be_bytes(a) == <u64 as FromBytes>::spec_from_le_bytes(
                a.subrange(0, 8).reverse(),
            )
            &&& <i64 as FromBytes>::spec_from_be_bytes(a) == <i64 as FromBytes>::spec_from_le_bytes(
                a.subrange(0, 8).reverse(),
            )
        },
{
    if a.len() >= 2 {
        lemma_be_is_reversed_le(a, 0, 2);
    }
    if a.len() >= 4 {
        lemma_be_is_reversed_le(a, 0, 4);
    }
    if a.len() >= 8 {
        lemma_be_is_reversed_le(a, 0, 8);
    }
}

/// Decodes the leading bytes of `input`, most significant byte first.
pub fn read_be<T: FromBytes>(input: &[u8]) -> (r: T)
    requires
        T::spec_width() <= input@.len(),
    ensures
        r == T::spec_from_be_bytes(input@),
{
    T::from_be_bytes(input)
}

/// Decodes the leading bytes of `input`, least significant byte first.
pub fn read_le<T: FromBytes>(input: &[u8]) -> (r: T)
    requires
        T::spec_width() <= input@.len(),
    ensures
        r == T::spec_from_le_bytes(input@),
{
    T::from_le_bytes(input)
}

/// Decodes the value at `*position` in the given byte order and moves the
/// position past it.
pub fn read<T: FromBytes>(input: &[u8], little_endian: bool, position: &mut usize) -> (r: T)
    requires
        *old(position) + T::spec_width() <= input.len(),
    ensures
        *final(position) == *old(position) + T::spec_width(),
        r == (if little_endian {
            T::spec_from_le_bytes(input@.subrange(*old(position) as int, input@.len() as int))
        } else {
            T::spec_from_be_bytes(input@.subrange(*old(position) as int, input@.len() as int))
        }),
{
    let old_position = *position;
    let size = T::width();
    *position = old_position + size;
    let rest = vstd::slice::slice_subrange(input, old_position, input.len());
    if little_endian {
        read_le(rest)
    } else {
        read_be(rest)
    }
}

/// One event of an XML parse, with element names written out in full
/// (`{namespace}prefix:local`).
#[derive(Debug, Clone)]
pub enum XmlItem {
    Start(String),
    Characters(String),
    End(String),
    Failure,
    Other,
}

/// The text that an XML event carries.
pub enum XmlEvent {
    Start(Seq<char>),
    Characters(Seq<char>),
    End(Seq<char>),
    Failure,
    Other,
}

impl View for XmlItem {
    type V = XmlEvent;

    open spec fn view(&self) -> XmlEvent {
        match self {
            XmlItem::Start(n) => XmlEvent::Start(n@),
            XmlItem::Characters(t) => XmlEvent::Characters(t@),
            XmlItem::End(n) => XmlEvent::End(n@),
            XmlItem::Failure => XmlEvent::Failure,
            XmlItem::Other => XmlEvent::Other,
        }
    }
}

/// The events that parsing `text` as XML yields, in order; the sequence ends
/// at the end of the document or at the first error.
pub uninterp spec fn xml_parse(text: Seq<u8>) -> Seq<XmlEvent>;

/// `xml::reader::EventReader` over `text`, its events collected in order.
/// Claimed: the events are `xml_parse(text)`, a function of the bytes alone;
/// element start and end events carry the element's full name, character
/// events their text.
#[verifier::external_body]
fn xml_events(text: &[u8]) -> (r: Vec<XmlItem>)
    ensures
        r@.map_values(|e: XmlItem| e@) == xml_parse(text@),
{
    xml::reader::EventReader::new(text).into_iter().map(|e| match e {
        Ok(xml::reader::XmlEvent::StartElement { name, .. }) => XmlItem::Start(name.to_string()),
        Ok(xml::reader::XmlEvent::Characters(t)) => XmlItem::Characters(t),
        Ok(xml::reader::XmlEvent::EndElement { name }) => XmlItem::End(name.to_string()),
        Err(_) => XmlItem::Failure,
        Ok(_) => XmlItem::Other,
    }).collect()
}

/// The word that marks the element holding a display name.
pub open spec fn display_word() -> Seq<char> {
    seq!['d', 'i', 's', 'p', 'l', 'a', 'y']
}

/// `name` contains the word `display`.
pub open spec fn mentions_display(name: Seq<char>) -> bool {
    exists|k: int| 0 <= k && k + 7 <= name.len() && #[trigger] name.subrange(k, k + 7) == display_word()
}

/// The display name that walking `events` leaves, starting inside or outside
/// a display element and with `name` found so far: the text of the last
/// character event inside an element whose name mentions `display`; the walk
/// stops at the first error.
pub open spec fn display_name_from(events: Seq<XmlEvent>, display: bool, name: Seq<char>) -> Seq<char>
    decreases events.len(),
{
    if events.len() == 0 {
        name
    } else {
        let rest = events.drop_first();
        match events[0] {
            XmlEvent::Start(n) => display_name_from(rest, display || mentions_display(n), name),
            XmlEvent::Characters(t) => display_name_from(rest, display, if display { t } else { name }),
            XmlEvent::End(n) => display_name_from(rest, display && !mentions_display(n), name),
            XmlEvent::Failure => name,
            XmlEvent::Other => display_name_from(rest, display, name),
        }
    }
}

/// The event opens an element whose name contains the word `display`.
pub open spec fn opens_display(e: XmlEvent) -> bool {
    e matches XmlEvent::Start(n) && mentions_display(n)
}

/// Text that lies outside every display element never becomes the display
/// name: where no display element opens among `events`, walking them from
/// outside one keeps the name found so far.
pub proof fn lemma_text_outside_display_is_ignored(events: Seq<XmlEvent>, name: Seq<char>)
    requires
        forall|i: int| 0 <= i < events.len() ==> !opens_display(#[trigger] events[i]),
    ensures
        display_name_from(events, false, name) == name,
    decreases events.len(),
{
    if events.len() > 0 {
        let rest = events.drop_first();
        assert(!opens_display(events[0]));
        assert forall|i: int| 0 <= i < rest.len() implies !opens_display(#[trigger] rest[i]) by {
            assert(rest[i] == events[i + 1]);
        }
        lemma_text_outside_display_is_ignored(rest, name);
    }
}

/// The end tag of a display element closes it: what follows is walked as
/// outside any display element, so the text found so far is kept unless a
/// new display element opens.
pub proof fn lemma_display_end_closes(
    n: Seq<char>,
    rest: Seq<XmlEvent>,
    display: bool,
    name: Seq<char>,
)
    requires
        mentions_display(n),
    ensures
        display_name_from(seq![XmlEvent::End(n)] + rest, display, name) == display_name_from(
            rest,
            false,
            name,
        ),
{
    assert((seq![XmlEvent::End(n)] + rest).drop_first() =~= rest);
}

/// Tags of elements whose names do not contain `display` neither open nor
/// close a display element: inside one, text still becomes the name.
pub proof fn lemma_other_tags_keep_state(
    m: Seq<char>,
    t: Seq<char>,
    rest: Seq<XmlEvent>,
    name: Seq<char>,
)
    requires
        !mentions_display(m),
    ensures
        display_name_from(
            seq![XmlEvent::End(m), XmlEvent::Characters(t)] + rest,
            true,
            name,
        ) == display_name_from(rest, true, t),
        display_name_from(
            seq![XmlEvent::Start(m), XmlEvent::Characters(t)] + rest,
            true,
            name,
        ) == display_name_from(rest, true, t),
        display_name_from(
            seq![XmlEvent::Start(m), XmlEvent::Characters(t)] + rest,
            false,
            name,
        ) == display_name_from(rest, false, name),
{
    let e = seq![XmlEvent::End(m), XmlEvent::Characters(t)] + rest;
    let st = seq![XmlEvent::Start(m), XmlEvent::Characters(t)] + rest;
    assert(e.drop_first().drop_first() =~= rest);
    assert(st.drop_first().drop_first() =~= rest);
    assert(e[0] == XmlEvent::End(m));
    assert(st[0] == XmlEvent::Start(m));
    assert(e.drop_first()[0] == XmlEvent::Characters(t));
    assert(st.drop_first()[0] == XmlEvent::Characters(t));
    assert(display_name_from(e.drop_first(), true, name) == display_name_from(rest, true, t));
    assert(display_name_from(st.drop_first(), true, name) == display_name_from(rest, true, t));
    assert(display_name_from(e, true, name) == display_name_from(e.drop_first(), true, name));
    assert(display_name_from(st, true, name) == display_name_from(st.drop_first(), true, name));
    assert(display_name_from(st.drop_first(), false, name) == display_name_from(rest, false, name));
    assert(display_name_from(st, false, name) == display_name_from(st.drop_first(), false, name));
}

/// A display element with text `t`, followed by no other display element,
/// gives `t` as the display name, whatever text comes after it.
pub proof fn lemma_display_element_gives_its_text(
    before: Seq<XmlEvent>,
    n: Seq<char>,
    t: Seq<char>,
    rest: Seq<XmlEvent>,
    name: Seq<char>,
)
    requires
        mentions_display(n),
        forall|i: int| 0 <= i < before.len() ==> !opens_display(#[trigger] before[i]),
        forall|i: int| 0 <= i < before.len() ==> !(#[trigger] before[i] is Failure),
        forall|i: int| 0 <= i < rest.len() ==> !opens_display(#[trigger] rest[i]),
    ensures
        display_name_from(
            before + seq![XmlEvent::Start(n), XmlEvent::Characters(t), XmlEvent::End(n)] + rest,
            false,
            name,
        ) == t,
    decreases before.len(),
{
    let tail = seq![XmlEvent::Start(n), XmlEvent::Characters(t), XmlEvent::End(n)] + rest;
    if before.len() > 0 {
        let b1 = before.drop_first();
        assert((before + tail).drop_first() =~= b1 + tail);
        assert(before + tail =~= before + seq![
            XmlEvent::Start(n),
            XmlEvent::Characters(t),
            XmlEvent::End(n),
        ] + rest);
        assert(b1 + tail =~= b1 + seq![
            XmlEvent::Start(n),
            XmlEvent::Characters(t),
            XmlEvent::End(n),
        ] + rest);
        assert(!opens_display(before[0]));
        assert(!(before[0] is Failure));
        assert forall|i: int| 0 <= i < b1.len() implies !opens_display(#[trigger] b1[i]) by {
            assert(b1[i] == before[i + 1]);
        }
        assert forall|i: int| 0 <= i < b1.len() implies !(#[trigger] b1[i] is Failure) by {
            assert(b1[i] == before[i + 1]);
        }
        match before[0] {
            XmlEvent::Start(m) => {
                assert(!mentions_display(m));
            },
            _ => {},
        }
        assert(display_name_from(before + tail, false, name) == display_name_from(
            b1 + tail,
            false,
            name,
        ));
        lemma_display_element_gives_its_text(b1, n, t, rest, name);
    } else {
        assert(before + tail =~= tail);
        assert(tail.drop_first() =~= seq![XmlEvent::Characters(t), XmlEvent::End(n)] + rest);
        assert(tail.drop_first().drop_first() =~= seq![XmlEvent::End(n)] + rest);
        lemma_display_end_closes(n, rest, true, t);
        lemma_text_outside_display_is_ignored(rest, t);
        let t1 = tail.drop_first();
        assert(tail[0] == XmlEvent::Start(n));
        assert(t1[0] == XmlEvent::Characters(t));
        assert(display_name_from(t1.drop_first(), true, t) == t);
        assert(display_name_from(t1, true, name) == t);
        assert(display_name_from(tail, false, name) == t);
    }
}

/// Whether `name` contains the word `display`.
pub fn mentions_display_exec(name: &String) -> (r: bool)
    ensures
        r == mentions_display(name@),
{
    let s = name.as_str();
    let n = s.unicode_len();
    if n < 7 {
        return false;
    }
    let mut k: usize = 0;
    while k <= n - 7
        invariant
            n >= 7,
            n == s@.len(),
            s@ == name@,
            forall|j: int| 0 <= j < k ==> #[trigger] name@.subrange(j, j + 7) != display_word(),
        decreases n - k,
    {
        if s.get_char(k) == 'd' && s.get_char(k + 1) == 'i' && s.get_char(k + 2) == 's'
            && s.get_char(k + 3) == 'p' && s.get_char(k + 4) == 'l' && s.get_char(k + 5) == 'a'
            && s.get_char(k + 6) == 'y' {
            assert(name@.subrange(k as int, k + 7) =~= display_word());
            return true;
        }
        assert(name@.subrange(k as int, k + 7)[0] == name@[k as int]);
        assert(name@.subrange(k as int, k + 7)[1] == name@[k + 1]);
        assert(name@.subrange(k as int, k + 7)[2] == name@[k + 2]);
        assert(name@.subrange(k as int, k + 7)[3] == name@[k + 3]);
        assert(name@.subrange(k as int, k + 7)[4] == name@[k + 4]);
        assert(name@.subrange(k as int, k + 7)[5] == name@[k + 5]);
        assert(name@.subrange(k as int, k + 7)[6] == name@[k + 6]);
        k = k + 1;
    }
    false
}

/// The display name in the XML text `text`: the text of the last character
/// event inside an element whose name contains `display`, or empty text.
pub fn extract_name(text: &[u8]) -> (r: String)
    ensures
        r@ == display_name_from(xml_parse(text@), false, Seq::empty()),
{
    let events = xml_events(text);
    let ghost all = events@.map_values(|e: XmlItem| e@);
    let mut display_name = String::new();
    let mut display = false;
    let mut i: usize = 0;
    assert(all.subrange(0, all.len() as int) =~= all);
    while i < events.len()
        invariant
            i <= events@.len(),
            all == events@.map_values(|e: XmlItem| e@),
            all == xml_parse(text@),
            display_name_from(all, false, Seq::empty()) == display_name_from(
                all.subrange(i as int, all.len() as int),
                display,
                display_name@,
            ),
        ensures
            display_name_from(all, false, Seq::empty()) == display_name@,
        decreases events@.len() - i,
    {
        let ghost rest = all.subrange(i as int, all.len() as int);
        assert(rest.drop_first() =~= all.subrange(i + 1, all.len() as int));
        assert(rest[0] == events@[i as int]@);
        match &events[i] {
            XmlItem::Start(name) => {
                if mentions_display_exec(name) {
                    display = true;
                }
            },
            XmlItem::Characters(t) => {
                if display {
                    display_name = t.clone();
                }
            },
            XmlItem::End(name) => {
                if mentions_display_exec(name) {
                    display = false;
                }
            },
            XmlItem::Failure => {
                break ;
            },
            XmlItem::Other => {},
        }
        i = i + 1;
        proof {
            if i == events@.len() {
                assert(all.subrange(i as int, all.len() as int) =~= Seq::<XmlEvent>::empty());
            }
        }
    }
    display_name
}

} // verus!
