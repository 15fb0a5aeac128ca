//! Pruning of a factor table to what a set of components needs.

use vstd::prelude::*;
use crate::components::{Component, ComponentRow, Components, component_rows};
use crate::distinct::{distinct, distinct_codes, lemma_distinct_contains};
use crate::types::{CSubtype, Carrier, Dest, Source};
use crate::wfactors::{Factor, FactorRow, Factors, factor_rows};

verus! {

/// Whether some component is of the carrier.
pub open spec fn uses_carrier(rows: Seq<ComponentRow>, c: Carrier) -> bool {
    exists|i: int| 0 <= i < rows.len() && (#[trigger] rows[i]).carrier == c
}

/// Whether some component is of the subtype.
pub open spec fn has_subtype(rows: Seq<ComponentRow>, subtype: CSubtype) -> bool {
    exists|i: int| 0 <= i < rows.len() && (#[trigger] rows[i]).csubtype == subtype
}

/// Whether some component is electricity produced on site.
pub open spec fn has_onsite_electricity(rows: Seq<ComponentRow>) -> bool {
    exists|i: int|
        0 <= i < rows.len() && (#[trigger] rows[i]).carrier == Carrier::ELECTRICIDAD
            && rows[i].csubtype == CSubtype::INSITU
}

/// Whether the components need a factor: its carrier is among theirs; if
/// it is of cogeneration, some component is cogeneration; if it goes to
/// non-regulated uses, some component is a non-regulated use; if it is of
/// electricity produced on site, some component is such a production.
pub open spec fn needed(f: FactorRow, rows: Seq<ComponentRow>) -> bool {
    &&& uses_carrier(rows, f.carrier)
    &&& f.source == Source::COGENERACION ==> has_subtype(rows, CSubtype::COGENERACION)
    &&& f.dest == Dest::A_NEPB ==> has_subtype(rows, CSubtype::NEPB)
    &&& f.carrier == Carrier::ELECTRICIDAD && f.source == Source::INSITU
        ==> has_onsite_electricity(rows)
}

/// The factors that the components need, in their order.
pub open spec fn pruned(t: Seq<FactorRow>, rows: Seq<ComponentRow>) -> Seq<FactorRow>
    decreases t.len(),
{
    if t.len() == 0 {
        Seq::empty()
    } else if needed(t.last(), rows) {
        pruned(t.drop_last(), rows).push(t.last())
    } else {
        pruned(t.drop_last(), rows)
    }
}

/// Whether a component is of a carrier and of a subtype, each of which may
/// be left open.
pub open spec fn component_is(r: ComponentRow, carrier: Option<Carrier>, subtype: Option<CSubtype>) -> bool {
    &&& carrier matches Some(c) ==> r.carrier == c
    &&& subtype matches Some(s) ==> r.csubtype == s
}

/// Whether some component is of a carrier and of a subtype, each of which
/// may be left open.
fn any_component(cdata: &Vec<Component>, carrier: Option<Carrier>, subtype: Option<CSubtype>) -> (r:
    bool)
    ensures
        r == exists|i: int|
            0 <= i < cdata.len() && component_is(
                #[trigger] component_rows(cdata@)[i],
                carrier,
                subtype,
            ),
{
    let n: usize = cdata.len();
    let mut i: usize = 0;
    while i < n
        invariant
            i <= n,
            n == cdata.len(),
            forall|j: int|
                0 <= j < i ==> !component_is(
                    #[trigger] component_rows(cdata@)[j],
                    carrier,
                    subtype,
                ),
        decreases n - i,
    {
        let carrier_ok: bool = match carrier {
            Some(c) => cdata[i].carrier == c,
            None => true,
        };
        let subtype_ok: bool = match subtype {
            Some(s) => cdata[i].csubtype == s,
            None => true,
        };
        assert(component_rows(cdata@)[i as int] == cdata[i as int]@);
        if carrier_ok && subtype_ok {
            return true;
        }
        i = i + 1;
    }
    false
}

/// The carriers of the components as codes, component by component.
fn component_carrier_codes(cdata: &Vec<Component>) -> (r: Vec<u8>)
    ensures
        r@.len() == cdata.len(),
        forall|i: int|
            0 <= i < cdata.len() ==> #[trigger] r@[i] == component_rows(
                cdata@,
            )[i].carrier.code_spec(),
{
    let mut codes: Vec<u8> = Vec::new();
    let n: usize = cdata.len();
    let mut i: usize = 0;
    while i < n
        invariant
            i <= n,
            n == cdata.len(),
            codes.len() == i,
            forall|j: int| 0 <= j < i ==> #[trigger] codes[j] == cdata[j].carrier.code_spec(),
        decreases n - i,
    {
        codes.push(cdata[i].carrier.code());
        i = i + 1;
    }
    codes
}

/// Whether a code is in a list of codes.
fn has_code(codes: &Vec<u8>, code: u8) -> (r: bool)
    ensures
        r == codes@.contains(code),
{
    let n: usize = codes.len();
    let mut i: usize = 0;
    while i < n
        invariant
            i <= n,
            n == codes.len(),
            forall|j: int| 0 <= j < i ==> codes[j] != code,
        decreases n - i,
    {
        if codes[i] == code {
            return true;
        }
        i = i + 1;
    }
    false
}

/// Removes from a factor table the factors that the components do not
/// need.
///
/// The rows that stay are those of `pruned`, in their order. The metadata
/// is untouched.
pub fn strip_wfactors(wfactors: &mut Factors, components: &Components)
    ensures
        final(wfactors)@.wdata == pruned(old(wfactors)@.wdata, components@.cdata),
        final(wfactors)@.wmeta == old(wfactors)@.wmeta,
{
    let ghost rows = components@.cdata;
    let ghost t = wfactors@.wdata;
    let codes: Vec<u8> = component_carrier_codes(&components.cdata);
    let present: Vec<u8> = distinct_codes(&codes);
    let has_cogen: bool = any_component(&components.cdata, None, Some(CSubtype::COGENERACION));
    let has_nepb: bool = any_component(&components.cdata, None, Some(CSubtype::NEPB));
    let has_elec_insitu: bool = any_component(
        &components.cdata,
        Some(Carrier::ELECTRICIDAD),
        Some(CSubtype::INSITU),
    );
    assert(has_cogen == has_subtype(rows, CSubtype::COGENERACION));
    assert(has_nepb == has_subtype(rows, CSubtype::NEPB));
    assert(has_elec_insitu == has_onsite_electricity(rows));
    let mut kept: Vec<Factor> = Vec::new();
    let n: usize = wfactors.wdata.len();
    let mut i: usize = 0;
    assert(t.take(0) =~= Seq::<FactorRow>::empty());
    assert(factor_rows(kept@) =~= Seq::<FactorRow>::empty());
    while i < n
        invariant
            i <= n,
            n == wfactors.wdata.len(),
            t == factor_rows(wfactors.wdata@),
            rows == component_rows(components.cdata@),
            codes@.len() == rows.len(),
            forall|j: int| 0 <= j < rows.len() ==> #[trigger] codes@[j] == rows[j].carrier.code_spec(),
            present@ == distinct(codes@),
            has_cogen == has_subtype(rows, CSubtype::COGENERACION),
            has_nepb == has_subtype(rows, CSubtype::NEPB),
            has_elec_insitu == has_onsite_electricity(rows),
            factor_rows(kept@) == pruned(t.take(i as int), rows),
        decreases n - i,
    {
        proof {
            assert(t.take(i + 1).drop_last() =~= t.take(i as int));
            assert(t.take(i + 1).last() == wfactors.wdata[i as int]@);
        }
        let f: &Factor = &wfactors.wdata[i];
        let code: u8 = f.carrier.code();
        let carrier_used: bool = has_code(&present, code);
        proof {
            lemma_distinct_contains(codes@, code);
            if codes@.contains(code) {
                let j = choose|j: int| 0 <= j < codes@.len() && codes@[j] == code;
                assert(Carrier::of_code(rows[j].carrier.code_spec()) == Some(rows[j].carrier));
                assert(rows[j].carrier == f.carrier);
            }
            if uses_carrier(rows, f.carrier) {
                let j = choose|j: int| 0 <= j < rows.len() && (#[trigger] rows[j]).carrier == f.carrier;
                assert(codes@[j] == code);
            }
            assert(carrier_used == uses_carrier(rows, f.carrier));
        }
        let keep: bool = carrier_used && (f.source != Source::COGENERACION || has_cogen) && (f.dest
            != Dest::A_NEPB || has_nepb) && (f.carrier != Carrier::ELECTRICIDAD || f.source
            != Source::INSITU || has_elec_insitu);
        if keep {
            let ghost before = factor_rows(kept@);
            kept.push(f.clone());
            assert(factor_rows(kept@) =~= before.push(wfactors.wdata[i as int]@));
        }
        i = i + 1;
    }
    assert(t.take(n as int) =~= t);
    wfactors.wdata = kept;
}

} // verus!
