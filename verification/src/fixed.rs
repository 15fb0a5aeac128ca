//! Fixed-point helpers: the range of a stored quantity and exact division.

use vstd::prelude::*;
use vstd::arithmetic::div_mod::{lemma_fundamental_div_mod, lemma_fundamental_div_mod_converse};

verus! {

/// Whether a mathematical integer can be stored as a quantity.
pub open spec fn fits(x: int) -> bool {
    i64::MIN <= x <= i64::MAX
}

/// Whether every entry of a series can be stored as a quantity.
pub open spec fn all_fit(s: Seq<int>) -> bool {
    forall|i: int| 0 <= i < s.len() ==> fits(#[trigger] s[i])
}

/// A stored series read as mathematical integers.
pub open spec fn ints(s: Seq<i64>) -> Seq<int> {
    Seq::new(s.len(), |i: int| s[i] as int)
}

/// Quotient rounded towards minus infinity, for a positive divisor.
pub fn floor_div(a: i128, d: i128) -> (q: i128)
    requires
        d > 0,
        a > i128::MIN,
    ensures
        q == a as int / d as int,
{
    if a >= 0 {
        a / d
    } else {
        let m: i128 = -a;
        let q: i128 = m / d;
        let r: i128 = m % d;
        proof {
            lemma_fundamental_div_mod(m as int, d as int);
        }
        if r == 0 {
            proof {
                assert(a as int == (-q) * d + 0) by (nonlinear_arith)
                    requires
                        m as int == d * q + r,
                        r == 0,
                        m == -a,
                ;
                lemma_fundamental_div_mod_converse(a as int, d as int, -(q as int), 0);
            }
            -q
        } else {
            proof {
                assert(a as int == (-q - 1) * d + (d - r)) by (nonlinear_arith)
                    requires
                        m as int == d * q + r,
                        m == -a,
                ;
                lemma_fundamental_div_mod_converse(
                    a as int,
                    d as int,
                    -(q as int) - 1,
                    d as int - r as int,
                );
            }
            -q - 1
        }
    }
}

} // verus!
