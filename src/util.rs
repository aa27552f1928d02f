use vstd::prelude::*;

verus! {

/// `""` for one, `"s"` for any other count: the plural suffix of a noun.
pub fn s(v: i64) -> (r: &'static str)
    ensures
        r@ == (if v == 1 {
            ""@
        } else {
            "s"@
        }),
{
    proof {
        reveal_strlit("");
        reveal_strlit("s");
    }
    if v == 1 {
        ""
    } else {
        "s"
    }
}

/// Whether `c` is the rational quotient `a / b` rounded up: the least
/// integer at or above it.
pub open spec fn is_ceil_div(a: int, b: int, c: int) -> bool {
    if b > 0 {
        (c - 1) * b < a && a <= c * b
    } else {
        c * b <= a && a < (c - 1) * b
    }
}

pub trait DivCeilPolyfill: Sized {
    /// Whether the rounded-up quotient of `self` by `rhs` exists and fits.
    spec fn div_ceil_defined(self, rhs: Self) -> bool;

    /// Whether `r` is the rounded-up quotient of `self` by `rhs`.
    spec fn is_div_ceil(self, rhs: Self, r: Self) -> bool;

    /// The quotient rounded toward positive infinity.
    fn div_ceil_p(self, rhs: Self) -> (r: Self)
        requires
            self.div_ceil_defined(rhs),
        ensures
            self.is_div_ceil(rhs, r),
    ;
}

impl DivCeilPolyfill for i64 {
    open spec fn div_ceil_defined(self, rhs: i64) -> bool {
        rhs != 0 && !(self == i64::MIN && rhs == -1)
    }

    open spec fn is_div_ceil(self, rhs: i64, r: i64) -> bool {
        is_ceil_div(self as int, rhs as int, r as int)
    }

    fn div_ceil_p(self, rhs: i64) -> (r: i64) {
        // The quotient of the negated operands is the same; negating in a
        // wider type keeps `i64::MIN` in range.
        let (a, b) = if rhs < 0 {
            (-(self as i128), -(rhs as i128))
        } else {
            (self as i128, rhs as i128)
        };
        let quotient = a / b;
        let remainder = a % b;
        let ghost (q, m, ai, bi) = (quotient as int, remainder as int, a as int, b as int);
        assert(bi > 0);
        assert(ai >= 0 ==> q == ai / bi);
        assert(ai < 0 ==> q == -((-ai) / bi));
        proof {
            if ai >= 0 {
                vstd::arithmetic::div_mod::lemma_fundamental_div_mod(ai, bi);
                assert(0 <= q <= ai && q * bi + m == ai) by (nonlinear_arith)
                    requires
                        ai == bi * q + (ai % bi),
                        m == ai % bi,
                        0 <= ai % bi < bi,
                        ai >= 0,
                        bi > 0,
                ;
            } else {
                vstd::arithmetic::div_mod::lemma_fundamental_div_mod(-ai, bi);
                assert(ai <= q <= 0 && q * bi + m == ai) by (nonlinear_arith)
                    requires
                        -ai == bi * (-q) + ((-ai) % bi),
                        m == -((-ai) % bi),
                        0 <= (-ai) % bi < bi,
                        ai < 0,
                        bi > 0,
                ;
            }
        }
        assert(-bi < m < bi);
        let c = if remainder > 0 {
            quotient + 1
        } else {
            quotient
        };
        assert(is_ceil_div(ai, bi, c as int)) by (nonlinear_arith)
            requires
                q * bi + m == ai,
                bi > 0,
                -bi < m < bi,
                c == (if m > 0 { q + 1 } else { q }),
        ;
        assert(is_ceil_div(self as int, rhs as int, c as int)) by (nonlinear_arith)
            requires
                is_ceil_div(ai, bi, c as int),
                rhs < 0 ==> ai == -self && bi == -rhs,
                rhs > 0 ==> ai == self && bi == rhs,
                rhs != 0,
        ;
        assert(i64::MIN <= ai <= i64::MAX + 1);
        assert(ai == i64::MAX + 1 ==> bi >= 2);
        assert(i64::MIN <= c <= i64::MAX) by (nonlinear_arith)
            requires
                q * bi + m == ai,
                bi > 0,
                -bi < m < bi,
                m == 0 || (m > 0) == (ai > 0),
                i64::MIN <= ai <= i64::MAX + 1,
                ai == i64::MAX + 1 ==> bi >= 2,
                c == (if m > 0 { q + 1 } else { q }),
        ;
        c as i64
    }
}

} // verus!
