//! Low-level byte emission: little-endian encodings of fixed-width fields and
//! decimal ASCII renderings, the two primitive layouts every container format
//! in this crate is built from.

use vstd::prelude::*;

verus! {

/// The `n` little-endian bytes of `x`. Euclidean `%` and `/` make this the
/// two's-complement encoding when `x` is negative, so one definition serves
/// signed and unsigned fields alike; a field narrower than `x` keeps the low
/// bytes, which is exactly what storing through a narrower integer type does.
pub open spec fn le_bytes(x: int, n: nat) -> Seq<u8>
    decreases n,
{
    if n == 0 {
        Seq::empty()
    } else {
        seq![(x % 256) as u8] + le_bytes(x / 256, (n - 1) as nat)
    }
}

pub proof fn lemma_le_bytes_len(x: int, n: nat)
    ensures
        le_bytes(x, n).len() == n,
    decreases n,
{
    if n > 0 {
        lemma_le_bytes_len(x / 256, (n - 1) as nat);
    }
}

pub proof fn lemma_le_bytes_len_auto()
    ensures
        forall|x: int, n: nat| (#[trigger] le_bytes(x, n)).len() == n,
{
    assert forall|x: int, n: nat| (#[trigger] le_bytes(x, n)).len() == n by {
        lemma_le_bytes_len(x, n);
    }
}

/// `le_bytes` reads only the value modulo `256^n`: shifting `x` by any
/// multiple of `256^n` leaves the encoding unchanged.
pub proof fn lemma_le_bytes_mod(x: int, m: int, n: nat)
    ensures
        le_bytes(x + m * vstd::arithmetic::power::pow(256, n), n) == le_bytes(x, n),
    decreases n,
{
    reveal(vstd::arithmetic::power::pow);
    if n > 0 {
        let p = vstd::arithmetic::power::pow(256, (n - 1) as nat);
        let shifted = x + m * (256 * p);
        vstd::arithmetic::div_mod::lemma_mod_bound(x, 256);
        vstd::arithmetic::div_mod::lemma_fundamental_div_mod(x, 256);
        assert(shifted == (x / 256 + m * p) * 256 + x % 256) by (nonlinear_arith)
            requires
                shifted == x + m * (256 * p),
                x == 256 * (x / 256) + x % 256,
        ;
        vstd::arithmetic::div_mod::lemma_fundamental_div_mod_converse(
            shifted,
            256,
            x / 256 + m * p,
            x % 256,
        );
        lemma_le_bytes_mod(x / 256, m, (n - 1) as nat);
    }
}

/// Append the `n`-byte little-endian encoding of `x` to `out`.
pub fn push_le(out: &mut Vec<u8>, x: u128, n: usize)
    ensures
        final(out)@ == old(out)@ + le_bytes(x as int, n as nat),
    decreases n,
{
    if n == 0 {
        assert(out@ =~= out@ + le_bytes(x as int, 0));
    } else {
        let b: u8 = (x % 256) as u8;
        out.push(b);
        push_le(out, x / 256, n - 1);
        assert(out@ =~= old(out)@ + le_bytes(x as int, n as nat));
    }
}

/// The unsigned 64-bit value whose two's-complement bit pattern is `x`.
pub open spec fn as_unsigned_64(x: i64) -> u64 {
    if x >= 0 {
        x as u64
    } else {
        (x + 0x1_0000_0000_0000_0000) as u64
    }
}

/// Append the `n`-byte little-endian two's-complement encoding of `x`.
pub fn push_le_signed(out: &mut Vec<u8>, x: i64, n: usize)
    requires
        n <= 8,
    ensures
        final(out)@ == old(out)@ + le_bytes(x as int, n as nat),
{
    let u: u64 = if x >= 0 {
        x as u64
    } else {
        ((x + 0x7fff_ffff_ffff_ffff) + 1) as u64 + 0x8000_0000_0000_0000
    };
    assert(u == as_unsigned_64(x));
    proof {
        lemma_le_signed_unsigned(x, n as nat);
    }
    push_le(out, u as u128, n);
}

/// Truncating to at most 8 bytes cannot tell `x` from its 64-bit unsigned
/// reinterpretation.
pub proof fn lemma_le_signed_unsigned(x: i64, n: nat)
    requires
        n <= 8,
    ensures
        le_bytes(as_unsigned_64(x) as int, n) == le_bytes(x as int, n),
{
    if x < 0 {
        let big = vstd::arithmetic::power::pow(256, n);
        let q = vstd::arithmetic::power::pow(256, (8 - n) as nat);
        let full: int = 0x1_0000_0000_0000_0000;
        assert(vstd::arithmetic::power::pow(256, 8) == full) by {
            reveal_with_fuel(vstd::arithmetic::power::pow, 9);
        }
        vstd::arithmetic::power::lemma_pow_adds(256, n, (8 - n) as nat);
        lemma_le_bytes_mod(x as int, q, n);
        assert(x + q * big == as_unsigned_64(x));
    }
}

/// The decimal ASCII digits of `x`, most significant first; `0` renders as
/// a single `'0'` byte.
pub open spec fn dec_bytes(x: nat) -> Seq<u8> {
    if x == 0 {
        seq![48u8]
    } else {
        dec_bytes_rec(x)
    }
}

pub open spec fn dec_bytes_rec(x: nat) -> Seq<u8>
    decreases x,
{
    if x == 0 {
        Seq::empty()
    } else {
        dec_bytes_rec(x / 10) + seq![(48 + x % 10) as u8]
    }
}

/// Render `x` as decimal ASCII.
pub fn to_decimal(x: u64) -> (r: Vec<u8>)
    ensures
        r@ == dec_bytes(x as nat),
{
    if x == 0 {
        let mut v: Vec<u8> = Vec::new();
        v.push(48u8);
        assert(v@ =~= dec_bytes(0));
        v
    } else {
        let mut v: Vec<u8> = Vec::new();
        to_decimal_rec(&mut v, x);
        v
    }
}

fn to_decimal_rec(out: &mut Vec<u8>, x: u64)
    ensures
        final(out)@ == old(out)@ + dec_bytes_rec(x as nat),
    decreases x,
{
    if x == 0 {
        assert(out@ =~= out@ + dec_bytes_rec(0));
    } else {
        to_decimal_rec(out, x / 10);
        out.push((48 + x % 10) as u8);
        assert(out@ =~= old(out)@ + dec_bytes_rec(x as nat));
    }
}

/// `(a + b) % 2^32`: one step of a file-offset accumulator that mirrors
/// 32-bit wrapping arithmetic.
pub fn add_mod32(a: u64, b: u64) -> (r: u64)
    ensures
        r == (a + b) % 0x1_0000_0000,
        r < 0x1_0000_0000,
{
    proof {
        vstd::arithmetic::div_mod::lemma_mod_bound(a + b, 0x1_0000_0000);
    }
    ((a as u128 + b as u128) % 0x1_0000_0000) as u64
}

/// `(a + b + c) % 2^32`.
pub fn add3_mod32(a: u64, b: u64, c: u64) -> (r: u64)
    ensures
        r == (a + b + c) % 0x1_0000_0000,
        r < 0x1_0000_0000,
{
    proof {
        vstd::arithmetic::div_mod::lemma_mod_bound(a + b + c, 0x1_0000_0000);
    }
    ((a as u128 + b as u128 + c as u128) % 0x1_0000_0000) as u64
}

/// `(a + (b % 2^32) * c) % 2^32`: an offset advanced by a count that was
/// first truncated to 32 bits, then scaled.
pub fn addmul_mod32(a: u64, b: u64, c: u64) -> (r: u64)
    ensures
        r == (a + (b % 0x1_0000_0000) * c) % 0x1_0000_0000,
        r < 0x1_0000_0000,
{
    proof {
        vstd::arithmetic::div_mod::lemma_mod_bound(b as int, 0x1_0000_0000);
        vstd::arithmetic::mul::lemma_mul_upper_bound(
            b as int % 0x1_0000_0000,
            0xFFFF_FFFF,
            c as int,
            0xFFFF_FFFF_FFFF_FFFF,
        );
        vstd::arithmetic::div_mod::lemma_mod_bound(
            a + (b as int % 0x1_0000_0000) * c,
            0x1_0000_0000,
        );
        vstd::arithmetic::mul::lemma_mul_nonnegative(b as int % 0x1_0000_0000, c as int);
    }
    ((a as u128 + (b as u128 % 0x1_0000_0000) * c as u128) % 0x1_0000_0000) as u64
}

/// Append every byte of `bs` to `out`.
pub fn push_bytes(out: &mut Vec<u8>, bs: &[u8])
    ensures
        final(out)@ == old(out)@ + bs@,
{
    let mut i: usize = 0;
    while i < bs.len()
        invariant
            i <= bs.len(),
            out@ == old(out)@ + bs@.take(i as int),
        decreases bs.len() - i,
    {
        out.push(bs[i]);
        i = i + 1;
        assert(out@ =~= old(out)@ + bs@.take(i as int));
    }
    assert(out@ =~= old(out)@ + bs@);
}

/// Append `n` copies of `b` to `out`.
pub fn push_repeat(out: &mut Vec<u8>, b: u8, n: usize)
    ensures
        final(out)@ == old(out)@ + Seq::new(n as nat, |i: int| b),
{
    let mut i: usize = 0;
    while i < n
        invariant
            i <= n,
            out@ == old(out)@ + Seq::new(i as nat, |j: int| b),
        decreases n - i,
    {
        out.push(b);
        i = i + 1;
        assert(out@ =~= old(out)@ + Seq::new(i as nat, |j: int| b));
    }
}

} // verus!
