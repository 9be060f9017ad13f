//! Numeric ordering over the model's numbers.
//!
//! Every JSON number — an exact integer or a decimal — is compared as the
//! mathematical value `(-1)^neg * mant * 10^exp10`.  The executable
//! comparison aligns decimal magnitudes digit by digit, so it never leaves
//! 128-bit integer arithmetic.

use vstd::arithmetic::power::{
    lemma_pow_adds, lemma_pow_positive, lemma_pow_strictly_increases, pow,
};
use vstd::prelude::*;

use crate::json::JsonView;

verus! {

/// Ten to the given power.
pub open spec fn pow10(e: nat) -> int {
    pow(10, e)
}

/// The sign/magnitude/exponent triple of a numeric view; `None` for
/// non-numbers.
pub open spec fn num_triple(v: JsonView) -> Option<(bool, nat, int)> {
    match v {
        JsonView::Int(i) => Some((i < 0, (if i < 0 { -i } else { i }) as nat, 0)),
        JsonView::Num { neg, mant, exp10 } => Some((neg, mant, exp10)),
        _ => None,
    }
}

/// The value of a triple as a scaled integer at base exponent `e`
/// (meaningful when `e <= n.2`).
pub open spec fn scaled(n: (bool, nat, int), e: int) -> int {
    let mag = n.1 * pow10((n.2 - e) as nat);
    if n.0 {
        -mag
    } else {
        mag
    }
}

/// Numeric order on triples: compared as scaled integers over a common
/// exponent.
pub open spec fn triple_le(a: (bool, nat, int), b: (bool, nat, int)) -> bool {
    let e = if a.2 <= b.2 {
        a.2
    } else {
        b.2
    };
    scaled(a, e) <= scaled(b, e)
}

/// The number of decimal digits of `m` (one digit for zero).
pub open spec fn spec_digits_len(m: nat) -> nat
    decreases m,
{
    if m < 10 {
        1
    } else {
        1 + spec_digits_len(m / 10)
    }
}

/// A nonzero mantissa lies between consecutive powers of ten picked by its
/// digit count.
proof fn lemma_digits_len_bounds(m: nat)
    requires
        m > 0,
    ensures
        pow10((spec_digits_len(m) - 1) as nat) <= m < pow10(spec_digits_len(m)),
    decreases m,
{
    broadcast use vstd::arithmetic::power::lemma_pow0;
    broadcast use vstd::arithmetic::power::lemma_pow1;

    if m < 10 {
        assert(pow10(1) == 10) by {
            reveal_with_fuel(pow, 2);
        }
        assert(pow10(0) == 1) by {
            reveal_with_fuel(pow, 1);
        }
    } else {
        lemma_digits_len_bounds(m / 10);
        let d = spec_digits_len(m / 10);
        assert(pow10(d + 1) == 10 * pow10(d)) by {
            lemma_pow_adds(10, d, 1);
            reveal_with_fuel(pow, 2);
        }
        assert(pow10(((d - 1) + 1) as nat) == 10 * pow10((d - 1) as nat)) by {
            lemma_pow_adds(10, (d - 1) as nat, 1);
            reveal_with_fuel(pow, 2);
        }
        assert(m < 10 * pow10(d)) by (nonlinear_arith)
            requires
                m / 10 < pow10(d),
                m >= 10,
        ;
        assert(10 * pow10((d - 1) as nat) <= m) by (nonlinear_arith)
            requires
                pow10((d - 1) as nat) <= m / 10,
                m >= 10,
        ;
    }
}

fn digits_len(m: u64) -> (d: u64)
    ensures
        d == spec_digits_len(m as nat),
        1 <= d <= 20,
    decreases m,
{
    if m < 10 {
        1
    } else {
        let rest = digits_len(m / 10);
        proof {
            lemma_digits_len_small(m as nat);
        }
        1 + rest
    }
}

/// Sixty-four-bit mantissas never exceed twenty digits.
proof fn lemma_digits_len_small(m: nat)
    ensures
        m <= u64::MAX ==> spec_digits_len(m) <= 20,
    decreases m,
{
    if m >= 10 {
        lemma_digits_len_small(m / 10);
        if m <= u64::MAX {
            assert(spec_digits_len(m / 10) <= 19) by {
                assert(pow10(19nat) == 10_000_000_000_000_000_000) by {
                    reveal_with_fuel(pow, 20);
                }
                lemma_digits_len_at(m / 10, 19);
            }
        }
    }
}

/// Any value below `10^d` has at most `d` digits.
proof fn lemma_digits_len_at(m: nat, d: nat)
    requires
        d >= 1,
        m < pow10(d),
    ensures
        spec_digits_len(m) <= d,
    decreases d,
{
    broadcast use vstd::arithmetic::power::lemma_pow1;

    if m < 10 {
    } else {
        assert(pow10(d) == 10 * pow10((d - 1) as nat)) by {
            lemma_pow_adds(10, (d - 1) as nat, 1);
            reveal_with_fuel(pow, 2);
        }
        assert(m / 10 < pow10((d - 1) as nat)) by (nonlinear_arith)
            requires
                m < 10 * pow10((d - 1) as nat),
                m >= 10,
        ;
        assert(d - 1 >= 1) by {
            lemma_pow_positive(10, (d - 1) as nat);
            if d == 1 {
                assert(pow10(1nat) == 10) by {
                    reveal_with_fuel(pow, 2);
                }
            }
        }
        lemma_digits_len_at(m / 10, (d - 1) as nat);
    }
}

/// Exact power-of-ten table for the alignment shift (at most 19).
fn pow10_u128(e: u64) -> (r: u128)
    requires
        e <= 19,
    ensures
        r == pow10(e as nat),
{
    let mut r: u128 = 1;
    let mut i: u64 = 0;
    proof {
        reveal_with_fuel(pow, 1);
        assert(pow10(0nat) == 1);
    }
    while i < e
        invariant
            i <= e,
            e <= 19,
            r == pow10(i as nat),
            r <= 0x10_0000_0000_0000_0000_0000u128,
        decreases e - i,
    {
        proof {
            lemma_pow_adds(10, i as nat, 1);
            reveal_with_fuel(pow, 2);
            assert(pow10((i + 1) as nat) == 10 * pow10(i as nat));
            lemma_pow10_fits(i as nat);
        }
        r = r * 10;
        i = i + 1;
    }
    r
}

/// The magnitude `m * 10^(e - base)` of one side at a common base exponent.
pub open spec fn mag_at(m: nat, e: int, base: int) -> int {
    m * pow10((e - base) as nat)
}

/// Compares `m1 * 10^e1` with `m2 * 10^e2` for positive mantissas and
/// `e1 >= e2`, by digit counts first and exact alignment when they tie.
fn cmp_mag_ge(m1: u64, e1: i32, m2: u64, e2: i32) -> (r: i8)
    requires
        m1 > 0,
        m2 > 0,
        e2 <= e1,
    ensures
        -1 <= r <= 1,
        (r <= 0) == (mag_at(m1 as nat, e1 as int, e2 as int) <= m2 as int),
        (r == 0) == (mag_at(m1 as nat, e1 as int, e2 as int) == m2 as int),
{
    broadcast use vstd::arithmetic::power::lemma_pow0;

    let d1 = digits_len(m1);
    let d2 = digits_len(m2);
    let p1: i64 = d1 as i64 + e1 as i64;
    let p2: i64 = d2 as i64 + e2 as i64;
    let ghost delta = (e1 - e2) as nat;
    let ghost magv = mag_at(m1 as nat, e1 as int, e2 as int);
    proof {
        lemma_digits_len_bounds(m1 as nat);
        lemma_digits_len_bounds(m2 as nat);
        lemma_pow_positive(10, delta);
        lemma_pow_adds(10, d1 as nat, delta);
        lemma_pow_adds(10, (d1 - 1) as nat, delta);
        assert(magv < pow10(d1 as nat + delta)) by (nonlinear_arith)
            requires
                magv == m1 as nat * pow10(delta),
                m1 < pow10(d1 as nat),
                pow10(delta) > 0,
                pow10(d1 as nat + delta) == pow10(d1 as nat) * pow10(delta),
        ;
        assert(magv >= pow10((d1 - 1) as nat + delta)) by (nonlinear_arith)
            requires
                magv == m1 as nat * pow10(delta),
                m1 >= pow10((d1 - 1) as nat),
                pow10(delta) > 0,
                pow10((d1 - 1) as nat + delta) == pow10((d1 - 1) as nat) * pow10(delta),
        ;
    }
    if p1 < p2 {
        proof {
            assert(d1 as nat + delta <= (d2 - 1) as nat);
            if (d1 as nat + delta) < (d2 - 1) as nat {
                lemma_pow_strictly_increases(10, d1 as nat + delta, (d2 - 1) as nat);
            }
            assert(magv < m2 as int);
        }
        -1
    } else if p1 > p2 {
        proof {
            assert((d1 - 1) as nat + delta >= d2 as nat);
            if (d2 as nat) < (d1 - 1) as nat + delta {
                lemma_pow_strictly_increases(10, d2 as nat, (d1 - 1) as nat + delta);
            }
            assert(magv > m2 as int);
        }
        1
    } else {
        let shift = (e1 as i64 - e2 as i64) as u64;
        proof {
            assert(shift as nat == delta);
            assert(d1 as nat + delta == d2 as nat);
            lemma_pow10_fits(delta);
        }
        let p = pow10_u128(shift);
        let ghost prod = m1 as nat * pow10(delta);
        proof {
            assert(prod < pow10(d2 as nat));
            assert(pow10(d2 as nat) <= pow10(20nat)) by {
                if (d2 as nat) < 20 {
                    lemma_pow_strictly_increases(10, d2 as nat, 20);
                }
            }
            assert(pow10(20nat) == 100_000_000_000_000_000_000) by {
                reveal_with_fuel(pow, 21);
            }
        }
        let v1: u128 = (m1 as u128) * p;
        let v2: u128 = m2 as u128;
        if v1 < v2 {
            -1
        } else if v1 == v2 {
            0
        } else {
            1
        }
    }
}

/// Compares two numbers given as sign/mantissa/exponent; the result is the
/// order of their mathematical values.
pub fn num_cmp(a_neg: bool, a_mant: u64, a_exp: i32, b_neg: bool, b_mant: u64, b_exp: i32) -> (r:
    i8)
    ensures
        -1 <= r <= 1,
        (r <= 0) == triple_le(
            (a_neg, a_mant as nat, a_exp as int),
            (b_neg, b_mant as nat, b_exp as int),
        ),
        (r >= 0) == triple_le(
            (b_neg, b_mant as nat, b_exp as int),
            (a_neg, a_mant as nat, a_exp as int),
        ),
{
    broadcast use vstd::arithmetic::power::lemma_pow0;

    let ghost a = (a_neg, a_mant as nat, a_exp as int);
    let ghost b = (b_neg, b_mant as nat, b_exp as int);
    let ghost e = if a.2 <= b.2 {
        a.2
    } else {
        b.2
    };
    let ghost sa = scaled(a, e);
    let ghost sb = scaled(b, e);
    proof {
        lemma_pow_positive(10, (a.2 - e) as nat);
        lemma_pow_positive(10, (b.2 - e) as nat);
        assert(pow10(0nat) == 1) by {
            reveal_with_fuel(pow, 1);
        }
        if a.2 <= b.2 {
            assert((a.2 - e) as nat == 0nat);
            assert(pow10((a.2 - e) as nat) == 1);
        } else {
            assert((b.2 - e) as nat == 0nat);
            assert(pow10((b.2 - e) as nat) == 1);
        }
        if a_mant > 0 {
            assert(a_mant as nat * pow10((a.2 - e) as nat) > 0) by (nonlinear_arith)
                requires
                    a_mant > 0,
                    pow10((a.2 - e) as nat) > 0,
            ;
        }
        if b_mant > 0 {
            assert(b_mant as nat * pow10((b.2 - e) as nat) > 0) by (nonlinear_arith)
                requires
                    b_mant > 0,
                    pow10((b.2 - e) as nat) > 0,
            ;
        }
        assert(sa == if a.0 {
            -(a.1 * pow10((a.2 - e) as nat))
        } else {
            a.1 * pow10((a.2 - e) as nat)
        });
        assert(sb == if b.0 {
            -(b.1 * pow10((b.2 - e) as nat))
        } else {
            b.1 * pow10((b.2 - e) as nat)
        });
        assert(triple_le(a, b) == (sa <= sb));
        assert(triple_le(b, a) == (sb <= sa));
        if a_mant == 0 {
            assert(a.1 * pow10((a.2 - e) as nat) == 0) by (nonlinear_arith)
                requires
                    a.1 == 0nat,
            ;
            assert(sa == 0);
        }
        if b_mant == 0 {
            assert(b.1 * pow10((b.2 - e) as nat) == 0) by (nonlinear_arith)
                requires
                    b.1 == 0nat,
            ;
            assert(sb == 0);
        }
    }
    if a_mant == 0 && b_mant == 0 {
        0
    } else if a_mant == 0 {
        if b_neg {
            1
        } else {
            -1
        }
    } else if b_mant == 0 {
        if a_neg {
            -1
        } else {
            1
        }
    } else if a_neg != b_neg {
        if a_neg {
            -1
        } else {
            1
        }
    } else {
        let ghost mag_a = a.1 * pow10((a.2 - e) as nat);
        let ghost mag_b = b.1 * pow10((b.2 - e) as nat);
        let m = if a_exp >= b_exp {
            let c = cmp_mag_ge(a_mant, a_exp, b_mant, b_exp);
            proof {
                assert(e == b.2);
                assert((b.2 - e) as nat == 0nat);
                assert(pow10(0nat) == 1) by {
                    reveal_with_fuel(pow, 1);
                }
                assert(pow10((b.2 - e) as nat) == 1);
                assert(mag_a == mag_at(a.1, a.2, e));
                assert(mag_b == b.1) by (nonlinear_arith)
                    requires
                        mag_b == b.1 * pow10((b.2 - e) as nat),
                        pow10((b.2 - e) as nat) == 1,
                ;
                assert((c <= 0) == (mag_a <= mag_b));
                assert((c == 0) == (mag_a == mag_b));
            }
            c
        } else {
            let inner = cmp_mag_ge(b_mant, b_exp, a_mant, a_exp);
            proof {
                assert(e == a.2);
                assert((a.2 - e) as nat == 0nat);
                assert(pow10(0nat) == 1) by {
                    reveal_with_fuel(pow, 1);
                }
                assert(pow10((a.2 - e) as nat) == 1);
                assert(mag_b == mag_at(b.1, b.2, e));
                assert(mag_a == a.1) by (nonlinear_arith)
                    requires
                        mag_a == a.1 * pow10((a.2 - e) as nat),
                        pow10((a.2 - e) as nat) == 1,
                ;
                assert((inner <= 0) == (mag_b <= mag_a));
                assert((inner == 0) == (mag_b == mag_a));
            }
            if inner < 0 {
                1
            } else if inner == 0 {
                0
            } else {
                -1
            }
        };
        proof {
            assert((m <= 0) == (mag_a <= mag_b));
            assert((m == 0) == (mag_a == mag_b));
        }
        if a_neg {
            proof {
                assert(sa == -mag_a && sb == -mag_b);
            }
            if m < 0 {
                1
            } else if m == 0 {
                0
            } else {
                -1
            }
        } else {
            proof {
                assert(sa == mag_a && sb == mag_b);
            }
            m
        }
    }
}

/// Powers of ten up to the twentieth fit far inside 128 bits.
proof fn lemma_pow10_fits(e: nat)
    requires
        e <= 19,
    ensures
        pow10(e) <= 0x1_0000_0000_0000_0000_0000u128 as int,
    decreases e,
{
    if e == 0 {
        assert(pow10(0nat) == 1) by {
            reveal_with_fuel(pow, 1);
        }
    } else {
        assert(pow10(19nat) < 0x1_0000_0000_0000_0000_0000u128 as int) by {
            reveal_with_fuel(pow, 20);
        }
        if e < 19 {
            lemma_pow_strictly_increases(10, e, 19);
        }
    }
}


/// Compares two values numerically; `None` unless both are numbers.
pub fn cmp_values(a: &crate::json::JsonValue, b: &crate::json::JsonValue) -> (r: Option<i8>)
    ensures
        match (num_triple(a@), num_triple(b@)) {
            (Some(ta), Some(tb)) => match r {
                Some(c) => {
                    &&& -1 <= c <= 1
                    &&& (c <= 0) == triple_le(ta, tb)
                    &&& (c >= 0) == triple_le(tb, ta)
                },
                None => false,
            },
            _ => r is None,
        },
{
    let ta = match value_triple(a) {
        Some(t) => t,
        None => {
            return None;
        },
    };
    let tb = match value_triple(b) {
        Some(t) => t,
        None => {
            return None;
        },
    };
    Some(num_cmp(ta.0, ta.1, ta.2, tb.0, tb.1, tb.2))
}

/// The sign/mantissa/exponent of a numeric value; `None` for non-numbers.
fn value_triple(v: &crate::json::JsonValue) -> (r: Option<(bool, u64, i32)>)
    ensures
        match r {
            Some(t) => num_triple(v@) == Some((t.0, t.1 as nat, t.2 as int)),
            None => num_triple(v@) is None,
        },
{
    match v {
        crate::json::JsonValue::Int(i) => {
            let i = *i;
            if i >= 0 {
                Some((false, i as u64, 0))
            } else {
                let m = (-(i as i128)) as u64;
                proof {
                    assert(m as nat == (-(i as int)) as nat);
                }
                Some((true, m, 0))
            }
        },
        crate::json::JsonValue::Num(d) => Some((d.neg, d.mant, d.exp10)),
        _ => None,
    }
}

} // verus!
