//! The packed time-window field of a power limit: an exponent `y` in bits
//! 4:0 and a fraction numerator `z` in bits 6:5, for a window of
//! `2^y * (1 + z/4)` time units. Windows are handled here in quarters of a
//! time unit, so that every packed window is a whole number of them.
use vstd::arithmetic::power2::{lemma2_to64, pow2};
use vstd::bits::{lemma_u64_shl_is_mul, lemma_u64_shr_is_div};
use vstd::prelude::*;

verus! {

/// The exponent of the largest power of two that is at most `n` (0 for 0).
pub open spec fn log2_floor(n: nat) -> nat
    decreases n,
{
    if n < 2 {
        0
    } else {
        1 + log2_floor(n / 2)
    }
}

/// The exponent `y` of a packed window.
pub open spec fn window_exp(code: u8) -> nat {
    (code % 32) as nat
}

/// The fraction numerator `z` of a packed window.
pub open spec fn window_frac(code: u8) -> nat {
    ((code / 32) % 4) as nat
}

/// The length of a packed window in quarters of a time unit:
/// `2^y * (1 + z/4) * 4`.
pub open spec fn window_quarters(code: u8) -> nat {
    pow2(window_exp(code)) * (4 + window_frac(code))
}

/// The packed window for a time of `q` quarters of a time unit (rounded down
/// to a whole quarter): `y` is the integral part of log2 of the time in time
/// units, kept to five bits, and `z` the number of whole quarters of `2^y`
/// past `2^y`, kept to two bits. A time under one unit gives `y = z = 0`.
pub open spec fn window_code(q: u64) -> u8 {
    if q < 4 {
        0
    } else {
        let y = ((log2_floor(q as nat) - 2) as nat) % 32;
        let z = (q as nat / pow2(y)) % 4;
        (y + 32 * z) as u8
    }
}

/// The integral part of log2 of `n`, for `n >= 1`.
fn log2_u64(n: u64) -> (r: u32)
    requires
        n >= 1,
    ensures
        r as nat == log2_floor(n as nat),
        r < 64,
{
    let mut v: u64 = n;
    let mut e: u32 = 0;
    proof {
        lemma_log2_floor_u64(n);
    }
    while v >= 2
        invariant
            v >= 1,
            log2_floor(n as nat) == e + log2_floor(v as nat),
            e + log2_floor(v as nat) < 64,
        decreases v,
    {
        assert(v >> 1u64 == v / 2) by (bit_vector);
        v = v >> 1u64;
        e = e + 1;
    }
    e
}

/// `log2_floor` of a 64-bit value is below 64.
proof fn lemma_log2_floor_u64(n: u64)
    ensures
        log2_floor(n as nat) < 64,
{
    lemma2_to64();
    lemma_log2_floor_bound(n as nat, 64);
}

/// `log2_floor(n) < k` whenever `n < 2^k`.
proof fn lemma_log2_floor_bound(n: nat, k: nat)
    requires
        n < pow2(k),
    ensures
        log2_floor(n) < k || n == 0 && k == 0,
    decreases n,
{
    lemma2_to64();
    if n >= 2 {
        assert(k >= 1);
        vstd::arithmetic::power2::lemma_pow2_unfold(k);
        lemma_log2_floor_bound(n / 2, (k - 1) as nat);
    }
}

/// Packs a time of `q` quarters of a time unit into a window field.
pub fn encode_window(q: u64) -> (r: u8)
    ensures
        r == window_code(q),
        r <= 0x7f,
{
    if q < 4 {
        return 0;
    }
    let e = log2_u64(q);
    assert(e >= 2) by {
        reveal_with_fuel(log2_floor, 3);
    }
    let y: u64 = ((e - 2) as u64) & 0x1f;
    assert(((e - 2) as u64) & 0x1f == ((e - 2) as u64) % 32) by (bit_vector);
    proof {
        lemma_u64_shr_is_div(q, y);
    }
    let z: u64 = (q >> y) & 3;
    assert((q >> y) & 3 == (q >> y) % 4) by (bit_vector);
    assert((y | (z << 5u64)) == y + 32 * z && y + 32 * z <= 0x7f) by (bit_vector)
        requires
            y < 32,
            z < 4,
    ;
    (y | (z << 5u64)) as u8
}

/// The length of a packed window in quarters of a time unit.
pub fn decode_window(code: u8) -> (r: u64)
    ensures
        r as nat == window_quarters(code),
{
    let y: u8 = code & 0x1f;
    let z: u8 = (code >> 5u8) & 3;
    assert(code & 0x1f == code % 32 && (code >> 5u8) & 3 == (code / 32) % 4) by (bit_vector);
    proof {
        lemma2_to64();
        if y < 31 {
            vstd::arithmetic::power2::lemma_pow2_strictly_increases(y as nat, 31);
        }
        assert((4 + z) * pow2(y as nat) <= 7 * pow2(31)) by (nonlinear_arith)
            requires
                z < 4,
                pow2(y as nat) <= pow2(31),
        ;
        lemma_u64_shl_is_mul((4 + z) as u64, y as u64);
        assert(window_exp(code) == y as nat && window_frac(code) == z as nat);
        assert(pow2(y as nat) * (4 + z) == (4 + z) * pow2(y as nat)) by (nonlinear_arith);
    }
    ((4 + z) as u64) << (y as u64)
}

/// `2^log2_floor(n) <= n < 2^(log2_floor(n) + 1)` for `n >= 1`.
proof fn lemma_log2_floor_brackets(n: nat)
    requires
        n >= 1,
    ensures
        pow2(log2_floor(n)) <= n < pow2(log2_floor(n) + 1),
    decreases n,
{
    lemma2_to64();
    if n >= 2 {
        let l = log2_floor(n / 2);
        lemma_log2_floor_brackets(n / 2);
        vstd::arithmetic::power2::lemma_pow2_unfold(l + 1);
        vstd::arithmetic::power2::lemma_pow2_unfold(l + 2);
    }
}

/// For a time of at least one and under 2^32 time units, packing rounds
/// down: the window packed from `q` quarters is at most `q` quarters, and
/// falls short of it by less than `2^y` quarters, one step of the fraction.
pub proof fn lemma_window_rounds_down(q: u64)
    requires
        4 <= q < 0x4_0000_0000,
    ensures
        window_quarters(window_code(q)) <= q,
        q < window_quarters(window_code(q)) + pow2(window_exp(window_code(q))),
{
    let e = log2_floor(q as nat);
    lemma2_to64();
    vstd::arithmetic::power2::lemma_pow2_adds(32, 2);
    lemma_log2_floor_bound(q as nat, 34);
    lemma_log2_floor_brackets(q as nat);
    assert(e >= 2) by {
        reveal_with_fuel(log2_floor, 3);
    }
    let y = (e - 2) as nat;
    let p = pow2(y);
    vstd::arithmetic::power2::lemma_pow2_adds(y, 2);
    vstd::arithmetic::power2::lemma_pow2_adds(y, 3);
    assert(p > 0) by {
        vstd::arithmetic::power2::lemma_pow2_pos(y);
    }
    let k = q as nat / p;
    assert(4 <= k < 8 && k * p <= q < k * p + p) by (nonlinear_arith)
        requires
            p > 0,
            4 * p <= q,
            q < 8 * p,
            k == q as nat / p,
    {
        vstd::arithmetic::div_mod::lemma_fundamental_div_mod(q as int, p as int);
        vstd::arithmetic::div_mod::lemma_div_is_ordered(4 * p as int, q as int, p as int);
        vstd::arithmetic::div_mod::lemma_div_multiples_vanish(4, p as int);
    };
    let z = k % 4;
    let code = window_code(q);
    assert(code == (y + 32 * z) as u8);
    assert(window_exp(code) == y && window_frac(code) == z);
    assert(p * (4 + z) == k * p) by (nonlinear_arith)
        requires
            4 <= k < 8,
            z == k % 4,
    ;
}

} // verus!
