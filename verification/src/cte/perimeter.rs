//! Change of perimeter: from factors that weigh energy over the distant
//! perimeter to factors that weigh it over the nearby one.

use vstd::prelude::*;
use crate::cte::partition::{PERIMETER_KEY, PERIMETER_NEARBY};
use crate::fixed::fits;
use crate::meta::{meta_copy, meta_update, meta_updated};
use crate::types::{Carrier, Source};
use crate::wfactors::{Factor, FactorRow, Factors, factor_rows};

verus! {

/// What is put before the comment of a factor that was converted.
pub const NEARBY_COMMENT: &'static str = "Perímetro nearby: ";

/// Whether a carrier counts as nearby wherever it comes from.
pub open spec fn is_nearby_carrier(c: Carrier) -> bool {
    c == Carrier::BIOMASA || c == Carrier::BIOMASADENSIFICADA || c == Carrier::RED1 || c
        == Carrier::RED2 || c == Carrier::MEDIOAMBIENTE
}

/// Whether a factor is of the nearby perimeter already: its energy is
/// produced on site or cogenerated, or its carrier counts as nearby.
pub open spec fn is_nearby(f: FactorRow) -> bool {
    f.source == Source::INSITU || f.source == Source::COGENERACION || is_nearby_carrier(
        f.carrier,
    )
}

/// A factor over the nearby perimeter: one that is nearby already stays as
/// it is; of any other the whole weight becomes non-renewable.
pub open spec fn nearby_row(f: FactorRow) -> FactorRow {
    if is_nearby(f) {
        f
    } else {
        FactorRow {
            carrier: f.carrier,
            source: f.source,
            dest: f.dest,
            step: f.step,
            ren: 0,
            nren: f.ren + f.nren,
            comment: NEARBY_COMMENT@ + f.comment,
        }
    }
}

/// The rows of a table over the nearby perimeter, row by row.
pub open spec fn to_nearby(t: Seq<FactorRow>) -> Seq<FactorRow> {
    Seq::new(t.len(), |i: int| nearby_row(t[i]))
}

/// Whether the total weight of every factor that is to be converted can be
/// stored.
pub open spec fn convertible(t: Seq<FactorRow>) -> bool {
    forall|i: int| 0 <= i < t.len() && !is_nearby(#[trigger] t[i]) ==> fits(t[i].ren + t[i].nren)
}

/// The change of perimeter keeps the total weight of every factor.
pub proof fn lemma_nearby_keeps_totals(t: Seq<FactorRow>, i: int)
    requires
        0 <= i < t.len(),
    ensures
        to_nearby(t)[i].ren + to_nearby(t)[i].nren == t[i].ren + t[i].nren,
        to_nearby(t)[i].carrier == t[i].carrier,
        to_nearby(t)[i].source == t[i].source,
        to_nearby(t)[i].dest == t[i].dest,
        to_nearby(t)[i].step == t[i].step,
{
}

/// Whether a carrier counts as nearby wherever it comes from.
pub fn nearby_carrier(c: Carrier) -> (r: bool)
    ensures
        r == is_nearby_carrier(c),
{
    c == Carrier::BIOMASA || c == Carrier::BIOMASADENSIFICADA || c == Carrier::RED1 || c
        == Carrier::RED2 || c == Carrier::MEDIOAMBIENTE
}

/// A factor table over the nearby perimeter.
///
/// The rows are those of `to_nearby`: as many as were given, in the same
/// order and with the same keys, each with the same total weight. The
/// metadata is that of the given table with the perimeter set to nearby.
pub fn wfactors_to_nearby(wfactors: &Factors) -> (r: Factors)
    requires
        convertible(wfactors@.wdata),
    ensures
        r@.wdata == to_nearby(wfactors@.wdata),
        r@.wmeta == meta_updated(wfactors@.wmeta, PERIMETER_KEY@, PERIMETER_NEARBY@),
        forall|i: int|
            0 <= i < r@.wdata.len() ==> (#[trigger] r@.wdata[i]).ren + r@.wdata[i].nren
                == wfactors@.wdata[i].ren + wfactors@.wdata[i].nren,
{
    let ghost t = wfactors@.wdata;
    let mut wmeta = meta_copy(&wfactors.wmeta);
    let mut wdata: Vec<Factor> = Vec::new();
    let n: usize = wfactors.wdata.len();
    let mut i: usize = 0;
    while i < n
        invariant
            i <= n,
            n == wfactors.wdata.len(),
            t == factor_rows(wfactors.wdata@),
            convertible(t),
            wdata.len() == i,
            forall|j: int| 0 <= j < i ==> (#[trigger] wdata[j])@ == nearby_row(t[j]),
        decreases n - i,
    {
        let f: &Factor = &wfactors.wdata[i];
        assert(t[i as int] == f@);
        if f.source == Source::INSITU || f.source == Source::COGENERACION || nearby_carrier(
            f.carrier,
        ) {
            wdata.push(f.clone());
        } else {
            let mut comment: String = String::from_str(NEARBY_COMMENT);
            comment.append(f.comment.as_str());
            wdata.push(Factor::new(f.carrier, f.source, f.dest, f.step, 0, f.ren + f.nren, comment));
        }
        i = i + 1;
    }
    assert(factor_rows(wdata@) =~= to_nearby(t));
    meta_update(&mut wmeta, PERIMETER_KEY, PERIMETER_NEARBY);
    Factors { wmeta, wdata }
}

/// Whether the total weight of every factor that is to be converted can be
/// stored: whether `wfactors_to_nearby` may be called.
pub fn can_convert(wfactors: &Factors) -> (r: bool)
    ensures
        r == convertible(wfactors@.wdata),
{
    let ghost t = wfactors@.wdata;
    let n: usize = wfactors.wdata.len();
    let mut i: usize = 0;
    while i < n
        invariant
            i <= n,
            n == wfactors.wdata.len(),
            t == factor_rows(wfactors.wdata@),
            forall|j: int| 0 <= j < i && !is_nearby(#[trigger] t[j]) ==> fits(t[j].ren + t[j].nren),
        decreases n - i,
    {
        let f: &Factor = &wfactors.wdata[i];
        assert(t[i as int] == f@);
        let near: bool = f.source == Source::INSITU || f.source == Source::COGENERACION
            || nearby_carrier(f.carrier);
        if !near {
            let sum: i128 = f.ren as i128 + f.nren as i128;
            if sum < -0x8000_0000_0000_0000 || sum > 0x7fff_ffff_ffff_ffff {
                return false;
            }
        }
        i = i + 1;
    }
    true
}

} // verus!
