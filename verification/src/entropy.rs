//! Shannon entropy of a byte buffer, in fixed point.
//!
//! Entropy is reported in units of 1/1024 bit per byte, so the full range
//! [0, 8] bits maps to [0, 8192]. The base-2 logarithm is computed in the
//! same fixed point by mantissa normalisation and repeated squaring; the
//! result is a deterministic, integer-only quantity, exact on powers of
//! two and within a quantisation step of the real logarithm elsewhere.

use vstd::arithmetic::div_mod::{
    lemma_div_by_multiple, lemma_div_denominator, lemma_div_is_ordered, lemma_div_multiples_vanish,
};
use vstd::arithmetic::power2::{
    lemma2_to64, lemma2_to64_rest, lemma_pow2_adds, lemma_pow2_pos, lemma_pow2_strictly_increases,
    pow2,
};
use vstd::prelude::*;

verus! {

/// Floor of the base-2 logarithm of `x`, for `x >= 1`.
pub open spec fn flog2(x: int) -> int
    recommends
        x >= 1,
    decreases x,
{
    if x < 2 {
        0
    } else {
        1 + flog2(x / 2)
    }
}

/// `x` normalised to the range [2^15, 2^16), truncating low bits.
pub open spec fn mantissa(x: int) -> int
    recommends
        x >= 1,
{
    let k = flog2(x);
    if k <= 15 {
        x * pow2((15 - k) as nat)
    } else {
        x / pow2((k - 15) as nat) as int
    }
}

/// `steps` fractional bits of log2 of `m / 2^15`, extracted by repeated
/// squaring with truncation to a 16-bit mantissa.
pub open spec fn frac_bits(m: int, steps: nat) -> int
    decreases steps,
{
    if steps == 0 {
        0
    } else {
        let s = (m * m) / 0x8000;
        if s >= 0x10000 {
            pow2((steps - 1) as nat) as int + frac_bits(s / 2, (steps - 1) as nat)
        } else {
            frac_bits(s, (steps - 1) as nat)
        }
    }
}

/// Fixed-point base-2 logarithm of `x`, in 1/1024 bit units: the integer
/// part from `flog2` and ten fractional bits from `frac_bits`.
pub open spec fn log2q(x: int) -> int
    recommends
        x >= 1,
{
    1024 * flog2(x) + frac_bits(mantissa(x), 10)
}

proof fn lemma_flog2_bounds(x: int)
    requires
        x >= 1,
    ensures
        0 <= flog2(x),
        pow2(flog2(x) as nat) <= x < 2 * pow2(flog2(x) as nat),
    decreases x,
{
    if x < 2 {
        assert(pow2(0) == 1) by {
            lemma2_to64();
        }
    } else {
        lemma_flog2_bounds(x / 2);
        let k = flog2(x / 2);
        assert(pow2((k + 1) as nat) == 2 * pow2(k as nat)) by {
            lemma_pow2_adds(1, k as nat);
            lemma2_to64();
        }
    }
}

proof fn lemma_frac_bits_bound(m: int, steps: nat)
    ensures
        0 <= frac_bits(m, steps) < pow2(steps),
    decreases steps,
{
    lemma_pow2_pos(steps);
    if steps == 0 {
    } else {
        let s = (m * m) / 0x8000;
        lemma_pow2_pos((steps - 1) as nat);
        assert(pow2(steps) == 2 * pow2((steps - 1) as nat)) by {
            lemma_pow2_adds(1, (steps - 1) as nat);
            lemma2_to64();
        }
        if s >= 0x10000 {
            lemma_frac_bits_bound(s / 2, (steps - 1) as nat);
        } else {
            lemma_frac_bits_bound(s, (steps - 1) as nat);
        }
    }
}

/// Bounds of the fixed-point logarithm: `log2q(x)` is non-negative and,
/// for `x < 2^64`, below 2^16.
pub proof fn lemma_log2q_bounds(x: int)
    requires
        1 <= x < 0x10000000000000000,
    ensures
        0 <= log2q(x) <= 65535,
{
    lemma_flog2_bounds(x);
    let k = flog2(x);
    assert(k <= 63) by {
        if k >= 64 {
            if k > 64 {
                lemma_pow2_strictly_increases(64, k as nat);
            }
            lemma2_to64();
            lemma2_to64_rest();
        }
    }
    lemma_frac_bits_bound(mantissa(x), 10);
    assert(pow2(10) == 1024) by {
        lemma2_to64();
    }
}

/// Floor of log2, computed by repeated halving.
fn floor_log2(x: u64) -> (k: u32)
    requires
        x >= 1,
    ensures
        k == flog2(x as int),
        k <= 63,
{
    let mut y: u64 = x;
    let mut k: u32 = 0;
    proof {
        lemma2_to64();
    }
    while y >= 2
        invariant
            y >= 1,
            x >= 1,
            flog2(x as int) == k + flog2(y as int),
            pow2(k as nat) * y <= x,
            k <= 63,
        decreases y,
    {
        proof {
            assert(flog2(y as int) == 1 + flog2((y / 2) as int));
            let p = pow2(k as nat) as int;
            lemma_pow2_pos(k as nat);
            assert(pow2((k + 1) as nat) == 2 * p) by {
                lemma_pow2_adds(1, k as nat);
                lemma2_to64();
            }
            assert(2 * ((y / 2) as int) <= y as int);
            assert((2 * p) * ((y / 2) as int) <= p * (y as int)) by (nonlinear_arith)
                requires
                    p >= 1,
                    2 * ((y / 2) as int) <= y as int,
            ;
            assert(k + 1 <= 63) by {
                if k + 1 >= 64 {
                    assert(2 * p <= p * (y as int)) by (nonlinear_arith)
                        requires
                            p >= 1,
                            y >= 2,
                    ;
                    if k + 1 > 64 {
                        lemma_pow2_strictly_increases(64, (k + 1) as nat);
                    }
                    lemma2_to64();
                    lemma2_to64_rest();
                }
            }
        }
        y = y / 2;
        k = k + 1;
    }
    k
}

/// Normalise `x` into [2^15, 2^16) by shifting, truncating low bits.
fn normalise(x: u64, k: u32) -> (m: u64)
    requires
        x >= 1,
        k == flog2(x as int),
        k <= 63,
    ensures
        m == mantissa(x as int),
        0x8000 <= m < 0x10000,
{
    proof {
        lemma_flog2_bounds(x as int);
    }
    let mut m: u64 = x;
    if k <= 15 {
        proof {
            lemma2_to64();
            lemma_pow2_adds(1, k as nat);
            assert(x as int * pow2(0) == x) by (nonlinear_arith)
                requires
                    pow2(0) == 1,
            ;
        }
        let mut j: u32 = k;
        while j < 15
            invariant
                x >= 1,
                k <= j <= 15,
                m == x as int * pow2((j - k) as nat),
                m < pow2((j + 1) as nat),
                k == flog2(x as int),
                (x as int) < 2 * pow2(k as nat),
            decreases 15 - j,
        {
            proof {
                let d = (j - k) as nat;
                lemma_pow2_pos(d);
                lemma_pow2_adds(d, 1);
                lemma_pow2_adds((j + 1) as nat, 1);
                lemma2_to64();
                assert(x as int * pow2(d + 1) == 2 * (x as int * pow2(d))) by (nonlinear_arith)
                    requires
                        pow2(d + 1) == pow2(d) * 2,
                ;
            }
            m = m * 2;
            j = j + 1;
        }
        proof {
            assert(pow2(16) == 0x10000) by {
                lemma2_to64();
            }
            let d = (15 - k) as nat;
            lemma_pow2_pos(d);
            assert(pow2(k as nat) * pow2(d) == pow2(15)) by {
                lemma_pow2_adds(k as nat, d);
            }
            assert(x as int * pow2(d) >= pow2(k as nat) * pow2(d)) by (nonlinear_arith)
                requires
                    x as int >= pow2(k as nat),
                    pow2(d) >= 1,
            ;
            assert(pow2(15) == 0x8000) by {
                lemma2_to64();
            }
        }
    } else {
        proof {
            lemma2_to64();
            assert(x as int / pow2(0) as int == x as int);
        }
        let mut j: u32 = k;
        while j > 15
            invariant
                15 <= j <= k,
                m == x as int / pow2((k - j) as nat) as int,
                k == flog2(x as int),
                x >= 1,
            decreases j,
        {
            proof {
                let d = (k - j) as nat;
                lemma_pow2_pos(d);
                lemma_pow2_adds(d, 1);
                lemma2_to64();
                lemma_div_denominator(x as int, pow2(d) as int, 2);
            }
            m = m / 2;
            j = j - 1;
        }
        proof {
            let d = (k - 15) as nat;
            lemma_pow2_pos(d);
            assert(pow2(k as nat) == pow2(d) * pow2(15)) by {
                lemma_pow2_adds(d, 15);
            }
            assert(pow2((k + 1) as nat) == pow2(d) * pow2(16)) by {
                lemma_pow2_adds(d, 16);
                lemma_pow2_adds(k as nat, 1);
                lemma_pow2_adds(15, 1);
                lemma2_to64();
            }
            // lower bound: x >= pow2(d) * pow2(15) ==> x / pow2(d) >= pow2(15)
            lemma_div_is_ordered(pow2(d) as int * pow2(15) as int, x as int, pow2(d) as int);
            lemma_div_by_multiple(pow2(15) as int, pow2(d) as int);
            assert(pow2(15) as int * pow2(d) as int == pow2(d) as int * pow2(15) as int)
                by (nonlinear_arith);
            // upper bound: x < pow2(d) * pow2(16) ==> x / pow2(d) < pow2(16)
            assert(pow2((k + 1) as nat) == 2 * pow2(k as nat)) by {
                lemma_pow2_adds(k as nat, 1);
                lemma2_to64();
            }
            assert((x as int / pow2(d) as int) < pow2(16) as int) by {
                let q = x as int / pow2(d) as int;
                vstd::arithmetic::div_mod::lemma_fundamental_div_mod(x as int, pow2(d) as int);
                vstd::arithmetic::div_mod::lemma_mod_bound(x as int, pow2(d) as int);
                if q >= pow2(16) {
                    assert(pow2(d) as int * q >= pow2(d) as int * pow2(16) as int)
                        by (nonlinear_arith)
                        requires
                            pow2(d) >= 1,
                            q >= pow2(16),
                    ;
                    assert(x as int >= pow2(d) as int * pow2(16) as int);
                    assert(false);
                }
            }
            assert(pow2(15) == 0x8000 && pow2(16) == 0x10000) by {
                lemma2_to64();
            }
        }
    }
    m
}

/// Ten fractional bits of log2 of `m / 2^15`, by repeated squaring.
fn frac_bits_exec(m0: u64) -> (r: u32)
    requires
        0x8000 <= m0 < 0x10000,
    ensures
        r == frac_bits(m0 as int, 10),
        r < 1024,
{
    let mut m: u64 = m0;
    let mut acc: u32 = 0;
    let mut i: u32 = 0;
    proof {
        lemma_frac_bits_bound(m0 as int, 10);
        lemma2_to64();
        assert(acc * pow2(10) == 0) by (nonlinear_arith)
            requires
                acc == 0,
        ;
    }
    while i < 10
        invariant
            i <= 10,
            0x8000 <= m < 0x10000,
            acc < pow2(i as nat),
            frac_bits(m0 as int, 10) == acc * pow2((10 - i) as nat) + frac_bits(
                m as int,
                (10 - i) as nat,
            ),
        decreases 10 - i,
    {
        proof {
            lemma_frac_bits_bound(m as int, (10 - i) as nat);
            lemma_pow2_pos((10 - i) as nat);
            lemma_pow2_pos(i as nat);
            lemma_pow2_adds(i as nat, 1);
            lemma_pow2_adds((9 - i) as nat, 1);
            lemma2_to64();
        }
        proof {
            assert(m * m < 0x100000000) by (nonlinear_arith)
                requires
                    m < 0x10000,
            ;
            assert(m * m >= 0x8000 * 0x8000) by (nonlinear_arith)
                requires
                    m >= 0x8000,
            ;
        }
        let s: u64 = (m * m) / 0x8000;
        let ghost rem = (10 - i) as nat;
        proof {
            assert(frac_bits(m as int, rem) == if s >= 0x10000 {
                pow2((rem - 1) as nat) as int + frac_bits(s as int / 2, (rem - 1) as nat)
            } else {
                frac_bits(s as int, (rem - 1) as nat)
            });
        }
        if s >= 0x10000 {
            proof {
                let b = pow2((9 - i) as nat) as int;
                assert((acc * 2 + 1) * b == acc * (2 * b) + b) by (nonlinear_arith);
            }
            acc = acc * 2 + 1;
            m = s / 2;
            proof {
                assert(s / 2 < 0x10000);
                assert(s / 2 >= 0x8000);
            }
        } else {
            proof {
                let b = pow2((9 - i) as nat) as int;
                assert((acc * 2) * b == acc * (2 * b)) by (nonlinear_arith);
            }
            acc = acc * 2;
            m = s;
        }
        i = i + 1;
    }
    proof {
        lemma2_to64();
        assert(frac_bits(m as int, 0) == 0);
        assert(acc * pow2(0) == acc) by (nonlinear_arith)
            requires
                pow2(0) == 1,
        ;
    }
    acc
}

/// Fixed-point base-2 logarithm in 1/1024 bit units.
pub fn log2q_exec(x: u64) -> (r: u32)
    requires
        x >= 1,
    ensures
        r == log2q(x as int),
        r <= 65535,
{
    let k = floor_log2(x);
    let m = normalise(x, k);
    let f = frac_bits_exec(m);
    proof {
        lemma_log2q_bounds(x as int);
        lemma2_to64();
        lemma2_to64_rest();
    }
    1024 * k + f
}

/// Doubling a value raises its fixed-point logarithm by exactly one bit.
proof fn lemma_log2q_double(x: int)
    requires
        x >= 1,
    ensures
        log2q(2 * x) == 1024 + log2q(x),
{
    lemma_flog2_bounds(x);
    let k = flog2(x);
    assert((2 * x) / 2 == x) by {
        lemma_div_multiples_vanish(x, 2);
    }
    assert(flog2(2 * x) == 1 + k);
    assert(mantissa(2 * x) == mantissa(x)) by {
        lemma2_to64();
        if k + 1 <= 15 {
            assert(pow2((15 - k) as nat) == 2 * pow2((14 - k) as nat)) by {
                lemma_pow2_adds(1, (14 - k) as nat);
            }
            assert((2 * x) * pow2((14 - k) as nat) == x * (2 * pow2((14 - k) as nat)))
                by (nonlinear_arith);
        } else if k == 15 {
            assert((2 * x) / pow2(1) as int == x) by {
                lemma_div_multiples_vanish(x, 2);
            }
            assert(x * pow2(0) == x) by (nonlinear_arith)
                requires
                    pow2(0) == 1,
            ;
        } else {
            let d = pow2((k - 15) as nat) as int;
            lemma_pow2_pos((k - 15) as nat);
            assert(pow2((k - 14) as nat) == 2 * d) by {
                lemma_pow2_adds(1, (k - 15) as nat);
            }
            assert(((2 * x) / 2) / d == (2 * x) / (2 * d)) by {
                lemma_div_denominator(2 * x, 2, d);
            }
        }
    }
}

/// Multiplying by 256 raises the fixed-point logarithm by exactly 8 bits.
pub proof fn lemma_log2q_times_256(x: int)
    requires
        x >= 1,
    ensures
        log2q(256 * x) == 8192 + log2q(x),
{
    lemma_log2q_double(x);
    lemma_log2q_double(2 * x);
    lemma_log2q_double(4 * x);
    lemma_log2q_double(8 * x);
    lemma_log2q_double(16 * x);
    lemma_log2q_double(32 * x);
    lemma_log2q_double(64 * x);
    lemma_log2q_double(128 * x);
}

/// How many times the byte `b` occurs in `s`.
pub open spec fn count_in(s: Seq<u8>, b: u8) -> nat
    decreases s.len(),
{
    if s.len() == 0 {
        0
    } else {
        count_in(s.drop_last(), b) + if s.last() == b {
            1nat
        } else {
            0nat
        }
    }
}

/// One byte value's contribution to the entropy sum: `c * log2q(c)`.
pub open spec fn entropy_term(c: nat) -> int {
    if c == 0 {
        0
    } else {
        c * log2q(c as int)
    }
}

/// Sum of the entropy terms of the byte values below `b`.
pub open spec fn entropy_sum_below(s: Seq<u8>, b: int) -> int
    decreases b,
{
    if b <= 0 {
        0
    } else {
        entropy_sum_below(s, b - 1) + entropy_term(count_in(s, (b - 1) as u8))
    }
}

/// Shannon entropy of `s` in 1/1024 bit units, clamped to [0, 8192]:
/// `(n * log2q(n) - sum_c count_c * log2q(count_c)) / n`, the fixed-point
/// form of `log2(n) - (1/n) * sum_c count_c * log2(count_c)`.
pub open spec fn entropy_q(s: Seq<u8>) -> int {
    if s.len() == 0 {
        0
    } else {
        let n = s.len() as int;
        let raw = n * log2q(n) - entropy_sum_below(s, 256);
        if raw <= 0 {
            0
        } else if raw / n >= 8192 {
            8192
        } else {
            raw / n
        }
    }
}

/// Byte counts of `s`, one per byte value.
fn count_bytes(data: &[u8]) -> (counts: Vec<u64>)
    ensures
        counts@.len() == 256,
        forall|b: int| 0 <= b < 256 ==> counts@[b] == count_in(data@, b as u8),
        forall|b: int| 0 <= b < 256 ==> counts@[b] <= data@.len(),
{
    let mut counts: Vec<u64> = Vec::new();
    for _z in 0..256usize
        invariant
            counts@.len() == _z,
            forall|b: int| 0 <= b < _z ==> counts@[b] == 0,
    {
        counts.push(0);
    }
    let n = data.len();
    assert(data@.take(0).len() == 0);
    for i in 0..n
        invariant
            n == data@.len(),
            counts@.len() == 256,
            forall|b: int| 0 <= b < 256 ==> counts@[b] == count_in(data@.take(i as int), b as u8),
            forall|b: int| 0 <= b < 256 ==> counts@[b] <= i,
    {
        let idx = data[i] as usize;
        let c = counts[idx];
        counts[idx] = c + 1;
        proof {
            assert(data@.take(i + 1).drop_last() =~= data@.take(i as int));
            assert(data@.take(i + 1).last() == data@[i as int]);
            assert forall|b: int| 0 <= b < 256 implies counts@[b] == count_in(
                data@.take(i + 1),
                b as u8,
            ) by {
                assert(count_in(data@.take(i + 1), b as u8) == count_in(
                    data@.take(i as int),
                    b as u8,
                ) + if data@[i as int] == b as u8 {
                    1nat
                } else {
                    0nat
                });
            }
        }
    }
    proof {
        assert(data@.take(n as int) =~= data@);
    }
    counts
}

/// Shannon entropy of a buffer, in 1/1024 bit units (8192 = 8 bits).
pub fn shannon_entropy_q(data: &[u8]) -> (r: u32)
    ensures
        r == entropy_q(data@),
        r <= 8192,
{
    let n = data.len();
    if n == 0 {
        return 0;
    }
    let counts = count_bytes(data);
    let mut total: u128 = 0;
    let ghost s = data@;
    for b in 0..256usize
        invariant
            n == s.len(),
            n >= 1,
            data@ == s,
            counts@.len() == 256,
            forall|b2: int| 0 <= b2 < 256 ==> counts@[b2] == count_in(s, b2 as u8),
            forall|b2: int| 0 <= b2 < 256 ==> counts@[b2] <= n,
            total == entropy_sum_below(s, b as int),
            total <= b as int * 0x100000000000000000000,
    {
        let c = counts[b];
        if c > 0 {
            let lg = log2q_exec(c);
            proof {
                assert((c as int) * (lg as int) < 0x100000000000000000000) by (nonlinear_arith)
                    requires
                        c < 0x10000000000000000,
                        lg <= 65535,
                ;
                assert((c as int) * (lg as int) >= 0) by (nonlinear_arith)
                    requires
                        c >= 0,
                        lg >= 0,
                ;
            }
            total = total + (c as u128) * (lg as u128);
        }
    }
    let lg_n = log2q_exec(n as u64);
    proof {
        assert((n as int) * (lg_n as int) < 0x100000000000000000000) by (nonlinear_arith)
            requires
                n < 0x10000000000000000,
                lg_n <= 65535,
        ;
        assert((n as int) * (lg_n as int) >= 0) by (nonlinear_arith)
            requires
                n >= 0,
                lg_n >= 0,
        ;
    }
    let nl: u128 = (n as u128) * (lg_n as u128);
    let ghost raw = s.len() as int * log2q(s.len() as int) - entropy_sum_below(s, 256);
    if total >= nl {
        proof {
            assert(raw <= 0);
        }
        return 0;
    }
    let diff: u128 = nl - total;
    let q: u128 = diff / (n as u128);
    proof {
        assert(raw == diff);
        assert(q == raw / (s.len() as int));
    }
    if q >= 8192 {
        8192
    } else {
        q as u32
    }
}

/// The clamp in `entropy_q` keeps every entropy inside [0, 8] bits.
pub proof fn lemma_entropy_range(s: Seq<u8>)
    ensures
        0 <= entropy_q(s) <= 8192,
{
    if s.len() != 0 {
        let n = s.len() as int;
        let raw = n * log2q(n) - entropy_sum_below(s, 256);
        if raw > 0 {
            vstd::arithmetic::div_mod::lemma_div_pos_is_pos(raw, n);
        }
    }
}

proof fn lemma_count_const(s: Seq<u8>, v: u8)
    requires
        forall|i: int| 0 <= i < s.len() ==> s[i] == v,
    ensures
        count_in(s, v) == s.len(),
        forall|b: u8| b != v ==> count_in(s, b) == 0,
    decreases s.len(),
{
    if s.len() > 0 {
        lemma_count_const(s.drop_last(), v);
        assert forall|b: u8| b != v implies count_in(s, b) == 0 by {
            assert(count_in(s, b) == count_in(s.drop_last(), b) + if s.last() == b {
                1nat
            } else {
                0nat
            });
        }
    }
}

proof fn lemma_sum_single(s: Seq<u8>, v: u8, b: int)
    requires
        count_in(s, v) == s.len(),
        forall|b2: u8| b2 != v ==> count_in(s, b2) == 0,
        0 <= b <= 256,
    ensures
        entropy_sum_below(s, b) == if (v as int) < b {
            entropy_term(s.len())
        } else {
            0
        },
    decreases b,
{
    if b > 0 {
        lemma_sum_single(s, v, b - 1);
    }
}

/// A buffer of one repeated byte value has entropy 0.
pub proof fn lemma_entropy_constant(s: Seq<u8>, v: u8)
    requires
        s.len() > 0,
        forall|i: int| 0 <= i < s.len() ==> s[i] == v,
    ensures
        entropy_q(s) == 0,
{
    lemma_count_const(s, v);
    lemma_sum_single(s, v, 256);
    let n = s.len() as int;
    assert(entropy_sum_below(s, 256) == entropy_term(s.len()));
    assert(entropy_term(s.len()) == n * log2q(n));
}

proof fn lemma_sum_uniform(s: Seq<u8>, k: nat, b: int)
    requires
        forall|b2: u8| count_in(s, b2) == k,
        0 <= b <= 256,
    ensures
        entropy_sum_below(s, b) == b * entropy_term(k),
    decreases b,
{
    if b > 0 {
        lemma_sum_uniform(s, k, b - 1);
        assert(count_in(s, (b - 1) as u8) == k);
        assert(b * entropy_term(k) == (b - 1) * entropy_term(k) + entropy_term(k))
            by (nonlinear_arith);
    } else {
        assert(0 * entropy_term(k) == 0) by (nonlinear_arith);
    }
}

/// A buffer in which every byte value occurs equally often has the
/// maximal entropy of exactly 8 bits per byte.
pub proof fn lemma_entropy_uniform(s: Seq<u8>, k: nat)
    requires
        k >= 1,
        s.len() == 256 * k,
        forall|b: u8| count_in(s, b) == k,
    ensures
        entropy_q(s) == 8192,
{
    lemma_sum_uniform(s, k, 256);
    let n = s.len() as int;
    lemma_log2q_times_256(k as int);
    assert(log2q(n) == 8192 + log2q(k as int));
    let lk = log2q(k as int);
    assert(entropy_term(k) == k * lk);
    let raw = n * log2q(n) - entropy_sum_below(s, 256);
    assert(raw == n * 8192) by {
        assert(n * (8192 + lk) == n * 8192 + n * lk) by (nonlinear_arith);
        assert(n * lk == 256 * (k * lk)) by (nonlinear_arith)
            requires
                n == 256 * k,
        ;
    }
    assert(raw / n == 8192) by {
        lemma_div_multiples_vanish(8192, n);
        assert(n * 8192 == 8192 * n) by (nonlinear_arith);
    }
    assert(raw > 0) by {
        assert(n * 8192 >= 1 * 8192) by (nonlinear_arith)
            requires
                n >= 1,
        ;
    }
}

} // verus!
