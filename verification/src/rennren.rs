//! A pair of renewable and non-renewable primary energy.

use vstd::prelude::*;
use crate::fixed::{fits, floor_div};

verus! {

/// Renewable and non-renewable primary energy, as two fixed-point numbers of
/// one common scale. For a weighting factor the scale is thousandths.
#[derive(Clone, Copy, Debug, PartialEq, Eq, Structural)]
pub struct RenNren {
    /// Renewable part.
    pub ren: i64,
    /// Non-renewable part.
    pub nren: i64,
}

impl RenNren {
    /// The pair of the two given parts.
    pub fn new(ren: i64, nren: i64) -> (r: RenNren)
        ensures
            r.ren == ren,
            r.nren == nren,
    {
        RenNren { ren, nren }
    }

    /// Total primary energy: the sum of both parts.
    pub open spec fn tot_spec(self) -> int {
        self.ren + self.nren
    }

    /// The renewable share of the total in thousandths, rounded down; zero
    /// where the total is not positive.
    pub open spec fn rer_spec(self) -> int {
        if self.tot_spec() > 0 {
            (self.ren * 1000) / self.tot_spec()
        } else {
            0
        }
    }

    /// Total primary energy: the sum of both parts.
    pub fn tot(&self) -> (r: i64)
        requires
            fits(self.tot_spec()),
        ensures
            r == self.tot_spec(),
    {
        self.ren + self.nren
    }

    /// The renewable share of the total in thousandths, rounded down; zero
    /// where the total is not positive.
    pub fn rer(&self) -> (r: i64)
        requires
            fits(self.rer_spec()),
        ensures
            r == self.rer_spec(),
    {
        let total: i128 = self.ren as i128 + self.nren as i128;
        if total > 0 {
            let q: i128 = floor_div(self.ren as i128 * 1000, total);
            q as i64
        } else {
            0
        }
    }

    /// Part by part sum of two pairs.
    pub fn plus(self, other: RenNren) -> (r: RenNren)
        requires
            fits(self.ren + other.ren),
            fits(self.nren + other.nren),
        ensures
            r.ren == self.ren + other.ren,
            r.nren == self.nren + other.nren,
    {
        RenNren { ren: self.ren + other.ren, nren: self.nren + other.nren }
    }

    /// Both parts multiplied by an integer.
    pub fn scaled(self, k: i64) -> (r: RenNren)
        requires
            fits(self.ren * k),
            fits(self.nren * k),
        ensures
            r.ren == self.ren * k,
            r.nren == self.nren * k,
    {
        RenNren { ren: self.ren * k, nren: self.nren * k }
    }
}

} // verus!
