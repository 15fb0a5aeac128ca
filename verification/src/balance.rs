//! The result of an energy balance, as the computation of the balance hands
//! it over for reports.

use vstd::prelude::*;
use crate::components::{Components, ComponentsView};
use crate::rennren::RenNren;
use crate::wfactors::{Factors, FactorsView};

verus! {

/// Weighted energy at both steps of the computation, in thousandths.
#[derive(Clone, Copy, Debug, PartialEq, Eq, Structural)]
#[allow(non_snake_case)]
pub struct BalanceTotal {
    /// Weighted energy at step A.
    pub A: RenNren,
    /// Weighted energy at step B.
    pub B: RenNren,
}

/// An energy balance: the data it was computed from, the coefficients it
/// was computed with, and the weighted energy it arrived at.
#[derive(Debug, PartialEq, Eq)]
pub struct Balance {
    /// The components that were weighed.
    pub components: Components,
    /// The factors they were weighed with.
    pub wfactors: Factors,
    /// The share of the exported energy that is credited, in thousandths.
    pub k_exp: i64,
    /// The reference area, in thousandths of a square metre.
    pub arearef: i64,
    /// Weighted energy over the period.
    pub balance: BalanceTotal,
    /// Weighted energy over the period per unit of reference area.
    pub balance_m2: BalanceTotal,
}

/// What an energy balance holds.
pub struct BalanceView {
    /// The components that were weighed.
    pub components: ComponentsView,
    /// The factors they were weighed with.
    pub wfactors: FactorsView,
    /// The share of the exported energy that is credited, in thousandths.
    pub k_exp: int,
    /// The reference area, in thousandths of a square metre.
    pub arearef: int,
    /// Weighted energy over the period.
    pub balance: BalanceTotal,
    /// Weighted energy over the period per unit of reference area.
    pub balance_m2: BalanceTotal,
}

impl View for Balance {
    type V = BalanceView;

    open spec fn view(&self) -> BalanceView {
        BalanceView {
            components: self.components@,
            wfactors: self.wfactors@,
            k_exp: self.k_exp as int,
            arearef: self.arearef as int,
            balance: self.balance,
            balance_m2: self.balance_m2,
        }
    }
}

} // verus!
