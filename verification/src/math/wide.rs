//! Wide unsigned arithmetic behind the Q64.64 operations.
//!
//! A Q64.64 product or quotient passes through values of up to 255 bits
//! before it is scaled back; these helpers compute the scaled result from
//! 128-bit halves so that nothing wider than `u128` is ever needed.
use vstd::arithmetic::div_mod::*;
use vstd::arithmetic::mul::*;
use vstd::arithmetic::power2::*;
use vstd::prelude::*;

verus! {

/// 2^64 as an unsigned 128-bit value.
pub const TWO_POW_64: u128 = 0x1_0000_0000_0000_0000;

/// 2^127: the magnitude of `i128::MIN`.
pub const TWO_POW_127: u128 = 0x8000_0000_0000_0000_0000_0000_0000_0000;

/// Absolute value of an integer.
pub open spec fn int_abs(x: int) -> int {
    if x < 0 {
        -x
    } else {
        x
    }
}

/// Whether `r` is the integer square root of `n`: the largest `r` with `r*r <= n`.
pub open spec fn is_floor_sqrt(n: int, r: int) -> bool {
    &&& 0 <= r
    &&& r * r <= n
    &&& n < (r + 1) * (r + 1)
}

/// The integer square root of `n` (meaningful for `n >= 0`).
pub open spec fn isqrt(n: int) -> int {
    choose|r: int| is_floor_sqrt(n, r)
}

/// The integer square root is unique.
pub proof fn lemma_floor_sqrt_unique(n: int, r1: int, r2: int)
    requires
        is_floor_sqrt(n, r1),
        is_floor_sqrt(n, r2),
    ensures
        r1 == r2,
{
    if r1 < r2 {
        assert((r1 + 1) * (r1 + 1) <= r2 * r2) by (nonlinear_arith)
            requires
                0 <= r1,
                r1 + 1 <= r2,
        ;
    } else if r2 < r1 {
        assert((r2 + 1) * (r2 + 1) <= r1 * r1) by (nonlinear_arith)
            requires
                0 <= r2,
                r2 + 1 <= r1,
        ;
    }
}

/// Any witness of the floor square root is what `isqrt` names.
pub proof fn lemma_isqrt_is(n: int, r: int)
    requires
        is_floor_sqrt(n, r),
    ensures
        isqrt(n) == r,
{
    let c = isqrt(n);
    assert(is_floor_sqrt(n, c));
    lemma_floor_sqrt_unique(n, r, c);
}

/// Every non-negative integer has a floor square root, so `isqrt` is one.
pub proof fn lemma_isqrt_floor(n: int)
    requires
        n >= 0,
    ensures
        is_floor_sqrt(n, isqrt(n)),
    decreases n,
{
    if n == 0 {
        assert(is_floor_sqrt(0, 0));
        lemma_isqrt_is(0, 0);
    } else {
        lemma_isqrt_floor(n - 1);
        let r = isqrt(n - 1);
        if (r + 1) * (r + 1) <= n {
            assert(n < (r + 2) * (r + 2)) by (nonlinear_arith)
                requires
                    (r + 1) * (r + 1) <= n,
                    n - 1 < (r + 1) * (r + 1),
                    r >= 0,
            ;
            assert(0 <= r + 1);
            lemma_isqrt_is(n, r + 1);
        } else {
            assert(r * r <= n);
            lemma_isqrt_is(n, r);
        }
    }
}

/// Floor division of a negated non-negative number by a positive divisor.
pub proof fn lemma_neg_floor_div(p: int, m: int)
    requires
        p >= 0,
        m > 0,
    ensures
        (-p) / m == if p % m == 0 {
            -(p / m)
        } else {
            -(p / m) - 1
        },
{
    lemma_fundamental_div_mod(p, m);
    lemma_mod_bound(p, m);
    let q = p / m;
    let r = p % m;
    if r == 0 {
        assert(-p == (-q) * m + 0) by (nonlinear_arith)
            requires
                p == m * q + r,
                r == 0,
        ;
        lemma_fundamental_div_mod_converse(-p, m, -q, 0);
    } else {
        assert(-p == (-q - 1) * m + (m - r)) by (nonlinear_arith)
            requires
                p == m * q + r,
        ;
        lemma_fundamental_div_mod_converse(-p, m, -q - 1, m - r);
    }
}

/// Magnitude of a signed 128-bit value, which always fits in `u128`.
pub fn magnitude(x: i128) -> (r: u128)
    ensures
        r == int_abs(x as int),
        r <= TWO_POW_127,
{
    if x >= 0 {
        x as u128
    } else if x == i128::MIN {
        TWO_POW_127
    } else {
        (-x) as u128
    }
}

/// `floor(a*b / 2^64)` together with whether the division left a remainder.
/// Returns `None` when the quotient does not fit in `u128`.
pub fn mul_shr64(a: u128, b: u128) -> (r: Option<(u128, bool)>)
    ensures
        match r {
            Some((q, inexact)) => {
                &&& q == (a * b) / (TWO_POW_64 as int)
                &&& inexact == ((a * b) % (TWO_POW_64 as int) != 0)
            },
            None => (a * b) / (TWO_POW_64 as int) > u128::MAX,
        },
{
    let m: u128 = TWO_POW_64;
    let a1 = a / m;
    let a0 = a % m;
    let b1 = b / m;
    let b0 = b % m;
    proof {
        lemma_fundamental_div_mod(a as int, m as int);
        lemma_fundamental_div_mod(b as int, m as int);
        lemma_mod_bound(a as int, m as int);
        lemma_mod_bound(b as int, m as int);
        assert(a1 < m) by (nonlinear_arith)
            requires
                a1 == a / m,
                a <= u128::MAX,
                m == 0x1_0000_0000_0000_0000u128,
        ;
        assert(b1 < m) by (nonlinear_arith)
            requires
                b1 == b / m,
                b <= u128::MAX,
                m == 0x1_0000_0000_0000_0000u128,
        ;
        assert(a1 * b1 < m * m) by (nonlinear_arith)
            requires
                a1 < m,
                b1 < m,
        ;
        assert(a1 * b0 < m * m) by (nonlinear_arith)
            requires
                a1 < m,
                b0 < m,
        ;
        assert(a0 * b1 < m * m) by (nonlinear_arith)
            requires
                a0 < m,
                b1 < m,
        ;
        assert(a0 * b0 < m * m) by (nonlinear_arith)
            requires
                a0 < m,
                b0 < m,
        ;
    }
    let hh = a1 * b1;
    let hl = a1 * b0;
    let lh = a0 * b1;
    let ll = a0 * b0;
    let ll_hi = ll / m;
    let ll_lo = ll % m;
    let ghost big_q: int = hh * (m as int) + hl + lh + ll_hi;
    proof {
        lemma_fundamental_div_mod(ll as int, m as int);
        lemma_mod_bound(ll as int, m as int);
        assert(a * b == (a1 * m + a0) * (b1 * m + b0)) by (nonlinear_arith)
            requires
                a == m * a1 + a0,
                b == m * b1 + b0,
        ;
        assert(a * b == big_q * m + ll_lo) by (nonlinear_arith)
            requires
                a * b == (a1 * m + a0) * (b1 * m + b0),
                hh == a1 * b1,
                hl == a1 * b0,
                lh == a0 * b1,
                ll == a0 * b0,
                ll == m * ll_hi + ll_lo,
                big_q == hh * m + hl + lh + ll_hi,
        ;
        lemma_fundamental_div_mod_converse(a * b, m as int, big_q, ll_lo as int);
        assert(hh * m >= 0) by (nonlinear_arith)
            requires
                hh >= 0,
                m > 0,
        ;
    }
    match hh.checked_mul(m) {
        None => None,
        Some(t) => match t.checked_add(hl) {
            None => None,
            Some(t) => match t.checked_add(lh) {
                None => None,
                Some(t) => match t.checked_add(ll_hi) {
                    None => None,
                    Some(q) => Some((q, ll_lo != 0)),
                },
            },
        },
    }
}

/// `floor(a * 2^64 / b)`, or `None` when that quotient does not fit in `u128`.
pub fn shl64_div(a: u128, b: u128) -> (r: Option<u128>)
    requires
        0 < b <= TWO_POW_127,
    ensures
        match r {
            Some(q) => q == (a * (TWO_POW_64 as int)) / (b as int),
            None => (a * (TWO_POW_64 as int)) / (b as int) > u128::MAX,
        },
{
    let q_hi = a / b;
    let r0 = a % b;
    proof {
        lemma_fundamental_div_mod(a as int, b as int);
        lemma_mod_bound(a as int, b as int);
    }
    let mut rem: u128 = r0;
    let mut q_lo: u128 = 0;
    let mut i: u32 = 0;
    proof {
        lemma2_to64();
    }
    while i < 64
        invariant
            0 <= i <= 64,
            0 < b <= TWO_POW_127,
            r0 < b,
            rem < b,
            q_lo < pow2(i as nat),
            r0 * pow2(i as nat) == q_lo * b + rem,
        decreases 64 - i,
    {
        proof {
            lemma_pow2_unfold((i + 1) as nat);
            lemma_pow2_strictly_increases(i as nat, 64);
            lemma2_to64_rest();
        }
        let ghost old_q = q_lo;
        let ghost old_rem = rem;
        rem = rem * 2;
        q_lo = q_lo * 2;
        if rem >= b {
            rem = rem - b;
            q_lo = q_lo + 1;
        }
        proof {
            assert(r0 * pow2((i + 1) as nat) == 2 * (r0 * pow2(i as nat))) by (nonlinear_arith)
                requires
                    pow2((i + 1) as nat) == 2 * pow2(i as nat),
            ;
            assert(r0 * pow2((i + 1) as nat) == q_lo * b + rem) by (nonlinear_arith)
                requires
                    r0 * pow2((i + 1) as nat) == 2 * (r0 * pow2(i as nat)),
                    r0 * pow2(i as nat) == old_q * b + old_rem,
                    (q_lo == 2 * old_q && rem == 2 * old_rem) || (q_lo == 2 * old_q + 1 && rem
                        == 2 * old_rem - b),
            ;
        }
        i = i + 1;
    }
    proof {
        lemma2_to64_rest();
        let m = TWO_POW_64 as int;
        assert(pow2(64) == m);
        assert(a * m == (q_hi * m + q_lo) * b + rem) by (nonlinear_arith)
            requires
                a == b * q_hi + r0,
                r0 * m == q_lo * b + rem,
        ;
        lemma_fundamental_div_mod_converse(a * m, b as int, q_hi * m + q_lo, rem as int);
        assert(q_hi * m >= 0) by (nonlinear_arith)
            requires
                q_hi >= 0,
                m > 0,
        ;
    }
    match q_hi.checked_mul(TWO_POW_64) {
        None => None,
        Some(t) => t.checked_add(q_lo),
    }
}

/// Integer square root of `x * 2^64` for `x < 2^127`, computed digit by digit.
pub fn isqrt_shl64(x: u128) -> (r: u128)
    requires
        x < TWO_POW_127,
    ensures
        is_floor_sqrt(x * (TWO_POW_64 as int), r as int),
{
    let ghost m = TWO_POW_64 as int;
    // `pre` is the part of the input consumed so far, two bits at a time:
    // first the 64 bit pairs of `x`, then the 32 zero pairs of the shift.
    let ghost mut pre: int = 0;
    let mut root: u128 = 0;
    let mut rem: u128 = 0;
    let mut p: u128 = 0x4000_0000_0000_0000_0000_0000_0000_0000;
    let mut k: u32 = 0;
    proof {
        lemma2_to64();
        lemma2_to64_rest();
        lemma_pow2_adds(64, 62);
        lemma_pow2_adds(64, 64);
        assert(pow2(126) == 0x4000_0000_0000_0000_0000_0000_0000_0000);
        assert(pow2(128) == 0x1_0000_0000_0000_0000_0000_0000_0000_0000);
        lemma_basic_div(x as int, pow2(128) as int);
    }
    while k < 96
        invariant
            0 <= k <= 96,
            x < TWO_POW_127,
            m == 0x1_0000_0000_0000_0000,
            k < 64 ==> p == pow2((126 - 2 * k) as nat),
            p > 0,
            k <= 64 ==> pre == (x as int) / (pow2((128 - 2 * k) as nat) as int),
            k >= 64 ==> pre == x * pow2((2 * (k - 64)) as nat),
            0 <= pre <= x * m,
            root * root <= pre,
            rem == pre - root * root,
            rem <= 2 * root,
        decreases 96 - k,
    {
        proof {
            lemma2_to64();
            lemma2_to64_rest();
        }
        let ghost old_pre = pre;
        let ghost old_root = root;
        let ghost old_rem = rem;
        let pair: u128 = if k < 64 {
            (x / p) % 4
        } else {
            0
        };
        proof {
            // the next two bits extend the consumed prefix
            if k < 64 {
                let d: int = pow2((126 - 2 * k) as nat) as int;
                lemma_pow2_pos((126 - 2 * k) as nat);
                lemma_pow2_adds((126 - 2 * k) as nat, 2);
                assert(pow2(2) == 4);
                assert(pow2((128 - 2 * k) as nat) == d * 4);
                lemma_div_denominator(x as int, d as int, 4);
                lemma_fundamental_div_mod((x as int) / (d as int), 4);
                lemma_mod_bound((x as int) / (d as int), 4);
                pre = 4 * old_pre + pair;
                assert(pre == (x as int) / (pow2((126 - 2 * k) as nat) as int));
                lemma_div_is_ordered_by_denominator(x as int, 1, d as int);
                assert(pre <= x) by {
                    lemma_div_basics(x as int);
                }
                assert(x <= x * m) by (nonlinear_arith)
                    requires
                        m > 0,
                        x >= 0,
                ;
                if k + 1 == 64 {
                    assert(pow2(0) == 1);
                    lemma_div_basics(x as int);
                    assert(pre == x * pow2(0));
                }
            } else {
                pre = 4 * old_pre;
                lemma_pow2_adds((2 * (k - 64)) as nat, 2);
                assert(pow2(2) == 4);
                assert(pre == x * pow2((2 * (k + 1 - 64)) as nat)) by (nonlinear_arith)
                    requires
                        pre == 4 * old_pre,
                        old_pre == x * pow2((2 * (k - 64)) as nat),
                        pow2((2 * (k - 64) + 2) as nat) == pow2((2 * (k - 64)) as nat) * 4,
                        (2 * (k + 1 - 64)) as nat == (2 * (k - 64) + 2) as nat,
                ;
                if 2 * (k + 1 - 64) < 64 {
                    lemma_pow2_strictly_increases((2 * (k + 1 - 64)) as nat, 64);
                }
                assert(pow2((2 * (k + 1 - 64)) as nat) <= m);
                assert(pre <= x * m) by (nonlinear_arith)
                    requires
                        pre == x * pow2((2 * (k + 1 - 64)) as nat),
                        pow2((2 * (k + 1 - 64)) as nat) <= m,
                        x >= 0,
                ;
            }
            // the root fits comfortably: root^2 <= x * 2^64 < 2^191
            assert(x * m < 0x8000_0000_0000_0000_0000_0000_0000_0000 * m) by (nonlinear_arith)
                requires
                    x < 0x8000_0000_0000_0000_0000_0000_0000_0000,
                    m > 0,
            ;
            assert(root < 0x1_0000_0000_0000_0000_0000_0000) by (nonlinear_arith)
                requires
                    root * root <= old_pre,
                    old_pre <= x * m,
                    x * m < 0x8000_0000_0000_0000_0000_0000_0000_0000 * m,
                    m == 0x1_0000_0000_0000_0000,
                    root >= 0,
            ;
        }
        let cand: u128 = 4 * root + 1;
        let acc: u128 = 4 * rem + pair;
        if acc >= cand {
            rem = acc - cand;
            root = 2 * root + 1;
        } else {
            rem = acc;
            root = 2 * root;
        }
        proof {
            assert(root * root <= pre && rem == pre - root * root && rem <= 2 * root)
                by (nonlinear_arith)
                requires
                    pre == 4 * old_pre + pair,
                    old_rem == old_pre - old_root * old_root,
                    old_rem <= 2 * old_root,
                    old_root >= 0,
                    0 <= pair < 4,
                    cand == 4 * old_root + 1,
                    acc == 4 * old_rem + pair,
                    (acc >= cand && rem == acc - cand && root == 2 * old_root + 1) || (acc < cand
                        && rem == acc && root == 2 * old_root),
            ;
        }
        if k + 1 < 64 {
            p = p / 4;
            proof {
                lemma_pow2_adds((126 - 2 * (k + 1)) as nat, 2);
                assert(pow2(2) == 4);
                lemma_div_by_multiple(pow2((126 - 2 * (k + 1)) as nat) as int, 4);
                lemma_pow2_pos((126 - 2 * (k + 1)) as nat);
            }
        }
        k = k + 1;
    }
    proof {
        assert(pre == x * m);
        assert(pre < (root + 1) * (root + 1)) by (nonlinear_arith)
            requires
                rem == pre - root * root,
                rem <= 2 * root,
        ;
    }
    root
}

} // verus!
