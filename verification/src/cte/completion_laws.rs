//! What holds of every completed table of weighting factors.

use vstd::prelude::*;
use crate::cte::completion::{
    UserWFactors, carrier_rows, carriers_of, completed, ensured, export_row, first_uncovered,
    grid_key, supply_rows, with_cogen_supply, with_district_defaults, with_export, with_exports,
    with_supply_defaults, without_nepb,
};
use crate::distinct::{distinct, lemma_distinct_contains};
use crate::error::EpbdError;
use crate::types::{Carrier, Dest, Source, Step};
use crate::wfactors::{
    FactorRow, Selector, first_match, has_match, key_of, lemma_first_match, lemma_first_match_is,
    unique_keys,
};

verus! {

/// Whether the first table is the front part of the second.
pub open spec fn grows(a: Seq<FactorRow>, b: Seq<FactorRow>) -> bool {
    &&& a.len() <= b.len()
    &&& forall|i: int| 0 <= i < a.len() ==> #[trigger] b[i] == a[i]
}

/// A row at the end of a table is found only where no earlier row fits.
pub proof fn lemma_match_push(t: Seq<FactorRow>, r: FactorRow, sel: Selector)
    ensures
        first_match(t.push(r), sel) == match first_match(t, sel) {
            Some(i) => Some(i),
            None => if sel.selects(r) {
                Some(t.len() as int)
            } else {
                None
            },
        },
{
    assert(t.push(r).drop_last() =~= t);
}

/// What is found in a table is found, at the same place, in every table
/// that the first is the front part of.
pub proof fn lemma_match_grows(a: Seq<FactorRow>, b: Seq<FactorRow>, sel: Selector)
    requires
        grows(a, b),
        has_match(a, sel),
    ensures
        first_match(b, sel) == first_match(a, sel),
{
    lemma_first_match(a, sel);
    let i = first_match(a, sel)->0;
    assert(b[i] == a[i]);
    assert forall|j: int| 0 <= j < i implies !sel.selects(#[trigger] b[j]) by {
        assert(b[j] == a[j]);
    }
    lemma_first_match_is(b, sel, Some(i));
}

/// Some row fits a pattern exactly where `first_match` finds one.
pub proof fn lemma_has_match(t: Seq<FactorRow>, sel: Selector)
    ensures
        has_match(t, sel) <==> exists|i: int| 0 <= i < t.len() && sel.selects(#[trigger] t[i]),
{
    lemma_first_match(t, sel);
    if has_match(t, sel) {
        let i = first_match(t, sel)->0;
        assert(sel.selects(t[i]));
    }
}

/// A row that fits a pattern is a witness that the pattern has a match.
pub proof fn lemma_match_witness(t: Seq<FactorRow>, sel: Selector, i: int)
    requires
        0 <= i < t.len(),
        sel.selects(t[i]),
    ensures
        has_match(t, sel),
{
    lemma_first_match(t, sel);
}

/// The rows kept by `without_nepb` are rows of the table, none of them goes
/// to non-regulated uses, and every row that does not is kept.
pub proof fn lemma_without_nepb(t: Seq<FactorRow>)
    ensures
        forall|i: int|
            0 <= i < without_nepb(t).len() ==> (#[trigger] without_nepb(t)[i]).dest
                != Dest::A_NEPB && t.contains(without_nepb(t)[i]),
        forall|j: int|
            0 <= j < t.len() && (#[trigger] t[j]).dest != Dest::A_NEPB ==> without_nepb(
                t,
            ).contains(t[j]),
        without_nepb(t).len() <= t.len(),
    decreases t.len(),
{
    if t.len() > 0 {
        let front = t.drop_last();
        lemma_without_nepb(front);
        let kept = without_nepb(t);
        assert forall|i: int| 0 <= i < kept.len() implies (#[trigger] kept[i]).dest
            != Dest::A_NEPB && t.contains(kept[i]) by {
            if i < without_nepb(front).len() {
                assert(kept[i] == without_nepb(front)[i]);
                assert(front.contains(kept[i]));
                let j = choose|j: int| 0 <= j < front.len() && front[j] == kept[i];
                assert(t[j] == kept[i]);
            } else {
                assert(kept[i] == t.last());
                assert(t[t.len() - 1] == kept[i]);
            }
        }
        assert forall|j: int| 0 <= j < t.len() && (#[trigger] t[j]).dest
            != Dest::A_NEPB implies kept.contains(t[j]) by {
            if j < t.len() - 1 {
                assert(front[j] == t[j]);
                assert(without_nepb(front).contains(t[j]));
                let k = choose|k: int|
                    0 <= k < without_nepb(front).len() && without_nepb(front)[k] == t[j];
                assert(kept[k] == t[j]);
            } else {
                assert(kept[kept.len() - 1] == t[j]);
            }
        }
    }
}

/// Whether a carrier has its factor for supply from the grid at step A.
pub open spec fn covered(t: Seq<FactorRow>, c: Carrier) -> bool {
    has_match(t, grid_key(c))
}

/// Whether every carrier of the table has its factor for supply from the
/// grid at step A.
pub open spec fn all_covered(t: Seq<FactorRow>) -> bool {
    forall|i: int| 0 <= i < t.len() ==> covered(t, (#[trigger] t[i]).carrier)
}

/// Whether every carrier of the table but electricity has its factor for
/// supply from the grid at step A, and electricity has it too unless all
/// its rows are of step A.
spec fn nearly_covered(t: Seq<FactorRow>) -> bool {
    &&& forall|i: int|
        0 <= i < t.len() && (#[trigger] t[i]).carrier != Carrier::ELECTRICIDAD ==> covered(
            t,
            t[i].carrier,
        )
    &&& covered(t, Carrier::ELECTRICIDAD) || forall|i: int|
        0 <= i < t.len() && (#[trigger] t[i]).carrier == Carrier::ELECTRICIDAD ==> t[i].step
            == Step::A
}

/// `ensured` leaves the table as it is or adds the row at its end, and a
/// row that fits the pattern is found afterwards.
pub proof fn lemma_ensured(t: Seq<FactorRow>, sel: Selector, r: FactorRow)
    ensures
        grows(t, ensured(t, sel, r)),
        ensured(t, sel, r) == t || ensured(t, sel, r) == t.push(r),
        sel.selects(r) ==> has_match(ensured(t, sel, r), sel),
        has_match(t, sel) ==> ensured(t, sel, r) == t,
{
    lemma_match_push(t, r, sel);
}

/// Where no carrier of a list is uncovered, each of them is covered.
proof fn lemma_none_uncovered(t: Seq<FactorRow>, carriers: Seq<Carrier>, k: int)
    requires
        first_uncovered(t, carriers) is None,
        0 <= k < carriers.len(),
    ensures
        covered(t, carriers[k]),
    decreases carriers.len(),
{
    if k < carriers.len() - 1 {
        lemma_none_uncovered(t, carriers.drop_last(), k);
    }
}

/// Where every carrier of a list is covered, none is uncovered.
proof fn lemma_all_covered_none(t: Seq<FactorRow>, carriers: Seq<Carrier>)
    requires
        forall|k: int| 0 <= k < carriers.len() ==> covered(t, #[trigger] carriers[k]),
    ensures
        first_uncovered(t, carriers) is None,
    decreases carriers.len(),
{
    if carriers.len() > 0 {
        assert forall|k: int| 0 <= k < carriers.drop_last().len() implies covered(
            t,
            #[trigger] carriers.drop_last()[k],
        ) by {
            assert(carriers.drop_last()[k] == carriers[k]);
        }
        lemma_all_covered_none(t, carriers.drop_last());
        assert(covered(t, carriers[carriers.len() - 1]));
    }
}

/// Covering is kept when a table grows.
proof fn lemma_covered_grows(a: Seq<FactorRow>, b: Seq<FactorRow>, c: Carrier)
    requires
        grows(a, b),
        covered(a, c),
    ensures
        covered(b, c),
{
    lemma_match_grows(a, b, grid_key(c));
}

/// Once the demand on the carriers of the given table is met, every
/// carrier of the table with its assumed supply factors is covered.
proof fn lemma_defaults_covered(t: Seq<FactorRow>)
    requires
        first_uncovered(with_supply_defaults(t), distinct(carriers_of(t))) is None,
    ensures
        all_covered(with_supply_defaults(t)),
        grows(t, with_supply_defaults(t)),
        has_match(
            with_supply_defaults(t),
            Selector::key(Carrier::MEDIOAMBIENTE, Source::INSITU, Dest::SUMINISTRO, Step::A),
        ),
        covered(with_supply_defaults(t), Carrier::MEDIOAMBIENTE),
        has_match(with_supply_defaults(t), carrier_rows(Carrier::ELECTRICIDAD)) ==> has_match(
            with_supply_defaults(t),
            supply_rows(Carrier::ELECTRICIDAD, Source::INSITU),
        ),
{
    let sel1 = Selector::key(Carrier::MEDIOAMBIENTE, Source::INSITU, Dest::SUMINISTRO, Step::A);
    let r1 = crate::cte::completion::row(
        Carrier::MEDIOAMBIENTE,
        Source::INSITU,
        Dest::SUMINISTRO,
        Step::A,
        1000,
        0,
        crate::cte::completion::AMBIENT_ONSITE_COMMENT@,
    );
    let t1 = ensured(t, sel1, r1);
    lemma_ensured(t, sel1, r1);
    let sel2 = grid_key(Carrier::MEDIOAMBIENTE);
    let r2 = crate::cte::completion::row(
        Carrier::MEDIOAMBIENTE,
        Source::RED,
        Dest::SUMINISTRO,
        Step::A,
        1000,
        0,
        crate::cte::completion::AMBIENT_GRID_COMMENT@,
    );
    let t2 = ensured(t1, sel2, r2);
    lemma_ensured(t1, sel2, r2);
    let sel3 = supply_rows(Carrier::ELECTRICIDAD, Source::INSITU);
    let r3 = crate::cte::completion::row(
        Carrier::ELECTRICIDAD,
        Source::INSITU,
        Dest::SUMINISTRO,
        Step::A,
        1000,
        0,
        crate::cte::completion::ONSITE_ELECTRICITY_COMMENT@,
    );
    lemma_ensured(t2, sel3, r3);
    let u = with_supply_defaults(t);
    assert(grows(t, u));
    assert(grows(t1, u));
    assert(grows(t2, u));
    lemma_match_grows(t1, u, sel1);
    lemma_match_grows(t2, u, sel2);
    let carriers = distinct(carriers_of(t));
    assert forall|i: int| 0 <= i < t.len() implies covered(u, (#[trigger] t[i]).carrier) by {
        lemma_distinct_contains(carriers_of(t), t[i].carrier);
        assert(carriers_of(t)[i] == t[i].carrier);
        assert(carriers.contains(t[i].carrier));
        let k = choose|k: int| 0 <= k < carriers.len() && carriers[k] == t[i].carrier;
        lemma_none_uncovered(u, carriers, k);
    }
    if has_match(t2, carrier_rows(Carrier::ELECTRICIDAD)) {
        lemma_first_match(t2, carrier_rows(Carrier::ELECTRICIDAD));
        let j = first_match(t2, carrier_rows(Carrier::ELECTRICIDAD))->0;
        assert(t2[j].carrier == Carrier::ELECTRICIDAD);
        assert(j < t.len());
        assert(t2[j] == t[j]);
        assert(covered(u, Carrier::ELECTRICIDAD));
    } else {
        lemma_has_match(u, carrier_rows(Carrier::ELECTRICIDAD));
    }
    assert forall|i: int| 0 <= i < u.len() implies covered(u, (#[trigger] u[i]).carrier) by {
        if i < t.len() {
            assert(u[i] == t[i]);
        }
    }
}

/// A successful `with_export` leaves the table as it is or adds one row of
/// the key asked for at its end; the key is found afterwards; and a row
/// added at step B shows that the carrier was covered.
pub proof fn lemma_with_export(
    t: Seq<FactorRow>,
    c: Carrier,
    s: Source,
    dest: Dest,
    step: Step,
    user: UserWFactors,
)
    ensures
        with_export(t, c, s, dest, step, user) matches Ok(u) ==> {
            &&& grows(t, u)
            &&& has_match(u, Selector::key(c, s, dest, step))
            &&& has_match(t, Selector::key(c, s, dest, step)) ==> u == t
            &&& u == t || {
                &&& u == t.push(export_row(t, c, s, dest, step, user)->0)
                &&& export_row(t, c, s, dest, step, user) is Some
                &&& Selector::key(c, s, dest, step).selects(u[t.len() as int])
                &&& step == Step::B ==> covered(t, c)
            }
        },
{
    let key = Selector::key(c, s, dest, step);
    if !has_match(t, key) {
        match export_row(t, c, s, dest, step, user) {
            Some(r) => {
                lemma_match_push(t, r, key);
                if !(step == Step::A && s == Source::COGENERACION) {
                    lemma_first_match(t, crate::cte::completion::origin_key(c, s, step));
                }
            },
            None => {},
        }
    }
}

/// Adding a row whose carrier is covered afterwards keeps every carrier
/// covered.
proof fn lemma_push_all_covered(t: Seq<FactorRow>, r: FactorRow)
    requires
        all_covered(t),
        covered(t.push(r), r.carrier),
    ensures
        all_covered(t.push(r)),
{
    let u = t.push(r);
    assert forall|i: int| 0 <= i < u.len() implies covered(u, (#[trigger] u[i]).carrier) by {
        if i < t.len() {
            assert(u[i] == t[i]);
            lemma_covered_grows(t, u, t[i].carrier);
        }
    }
}

/// Adding a step A row of electricity keeps `nearly_covered`.
proof fn lemma_push_nearly_covered(t: Seq<FactorRow>, r: FactorRow)
    requires
        nearly_covered(t),
        r.carrier == Carrier::ELECTRICIDAD,
        r.step == Step::A,
    ensures
        nearly_covered(t.push(r)),
{
    let u = t.push(r);
    assert forall|i: int|
        0 <= i < u.len() && (#[trigger] u[i]).carrier != Carrier::ELECTRICIDAD implies covered(
        u,
        u[i].carrier,
    ) by {
        assert(u[i] == t[i]);
        lemma_covered_grows(t, u, t[i].carrier);
    }
    if covered(t, Carrier::ELECTRICIDAD) {
        lemma_covered_grows(t, u, Carrier::ELECTRICIDAD);
    } else {
        assert forall|i: int|
            0 <= i < u.len() && (#[trigger] u[i]).carrier
                == Carrier::ELECTRICIDAD implies u[i].step == Step::A by {
            if i < t.len() {
                assert(u[i] == t[i]);
            }
        }
    }
}

/// Where electricity is covered, `nearly_covered` is `all_covered`.
proof fn lemma_nearly_is_all(t: Seq<FactorRow>)
    requires
        nearly_covered(t),
        covered(t, Carrier::ELECTRICIDAD),
    ensures
        all_covered(t),
{
}

/// Whether the table has the export factors of a carrier from a source to
/// the grid, at both steps.
pub open spec fn has_grid_exports(t: Seq<FactorRow>, c: Carrier, s: Source) -> bool {
    &&& has_match(t, Selector::key(c, s, Dest::A_RED, Step::A))
    &&& has_match(t, Selector::key(c, s, Dest::A_RED, Step::B))
}

/// Whether the table has the export factors of a carrier from a source to
/// non-regulated uses, at both steps.
pub open spec fn has_nepb_exports(t: Seq<FactorRow>, c: Carrier, s: Source) -> bool {
    &&& has_match(t, Selector::key(c, s, Dest::A_NEPB, Step::A))
    &&& has_match(t, Selector::key(c, s, Dest::A_NEPB, Step::B))
}

/// A successful `with_exports` only adds rows at the end, and the four
/// export factors are found afterwards.
pub proof fn lemma_with_exports(t: Seq<FactorRow>, c: Carrier, s: Source, user: UserWFactors)
    ensures
        with_exports(t, c, s, user) matches Ok(u) ==> {
            &&& grows(t, u)
            &&& has_grid_exports(u, c, s)
            &&& has_nepb_exports(u, c, s)
            &&& has_grid_exports(t, c, s) && has_nepb_exports(t, c, s) ==> u == t
        },
{
    lemma_with_export(t, c, s, Dest::A_RED, Step::A, user);
    if let Ok(u1) = with_export(t, c, s, Dest::A_RED, Step::A, user) {
        lemma_with_export(u1, c, s, Dest::A_NEPB, Step::A, user);
        if let Ok(u2) = with_export(u1, c, s, Dest::A_NEPB, Step::A, user) {
            lemma_with_export(u2, c, s, Dest::A_RED, Step::B, user);
            if let Ok(u3) = with_export(u2, c, s, Dest::A_RED, Step::B, user) {
                lemma_with_export(u3, c, s, Dest::A_NEPB, Step::B, user);
                if let Ok(u4) = with_export(u3, c, s, Dest::A_NEPB, Step::B, user) {
                    lemma_match_grows(u1, u4, Selector::key(c, s, Dest::A_RED, Step::A));
                    lemma_match_grows(u2, u4, Selector::key(c, s, Dest::A_NEPB, Step::A));
                    lemma_match_grows(u3, u4, Selector::key(c, s, Dest::A_RED, Step::B));
                }
            }
        }
    }
}

/// A successful `with_exports` on a table in which every carrier is
/// covered, the one exported too, keeps every carrier covered.
proof fn lemma_exports_keep_covered(
    t: Seq<FactorRow>,
    c: Carrier,
    s: Source,
    user: UserWFactors,
)
    requires
        all_covered(t),
        covered(t, c),
    ensures
        with_exports(t, c, s, user) matches Ok(u) ==> all_covered(u),
{
    lemma_with_export(t, c, s, Dest::A_RED, Step::A, user);
    if let Ok(u1) = with_export(t, c, s, Dest::A_RED, Step::A, user) {
        lemma_export_keeps_covered(t, c, s, Dest::A_RED, Step::A, user);
        lemma_covered_grows(t, u1, c);
        lemma_with_export(u1, c, s, Dest::A_NEPB, Step::A, user);
        if let Ok(u2) = with_export(u1, c, s, Dest::A_NEPB, Step::A, user) {
            lemma_export_keeps_covered(u1, c, s, Dest::A_NEPB, Step::A, user);
            lemma_covered_grows(u1, u2, c);
            lemma_with_export(u2, c, s, Dest::A_RED, Step::B, user);
            if let Ok(u3) = with_export(u2, c, s, Dest::A_RED, Step::B, user) {
                lemma_export_keeps_covered(u2, c, s, Dest::A_RED, Step::B, user);
                lemma_covered_grows(u2, u3, c);
                lemma_export_keeps_covered(u3, c, s, Dest::A_NEPB, Step::B, user);
            }
        }
    }
}

/// One successful `with_export` on a table in which every carrier is
/// covered, the one exported too, keeps every carrier covered.
proof fn lemma_export_keeps_covered(
    t: Seq<FactorRow>,
    c: Carrier,
    s: Source,
    dest: Dest,
    step: Step,
    user: UserWFactors,
)
    requires
        all_covered(t),
        covered(t, c),
    ensures
        with_export(t, c, s, dest, step, user) matches Ok(u) ==> all_covered(u),
{
    lemma_with_export(t, c, s, dest, step, user);
    if let Ok(u) = with_export(t, c, s, dest, step, user) {
        if u != t {
            let r = export_row(t, c, s, dest, step, user)->0;
            assert(u[t.len() as int] == r);
            assert(r.carrier == c);
            lemma_covered_grows(t, u, c);
            lemma_push_all_covered(t, r);
        }
    }
}

/// A successful `with_exports` of electricity produced on site, on a table
/// that is `nearly_covered`, leaves every carrier covered, electricity
/// too.
proof fn lemma_onsite_exports_cover(t: Seq<FactorRow>, user: UserWFactors)
    requires
        nearly_covered(t),
    ensures
        with_exports(t, Carrier::ELECTRICIDAD, Source::INSITU, user) matches Ok(u) ==> all_covered(
            u,
        ) && covered(u, Carrier::ELECTRICIDAD),
{
    let c = Carrier::ELECTRICIDAD;
    let s = Source::INSITU;
    lemma_with_export(t, c, s, Dest::A_RED, Step::A, user);
    if let Ok(u1) = with_export(t, c, s, Dest::A_RED, Step::A, user) {
        if u1 != t {
            lemma_push_nearly_covered(t, u1[t.len() as int]);
        }
        lemma_with_export(u1, c, s, Dest::A_NEPB, Step::A, user);
        if let Ok(u2) = with_export(u1, c, s, Dest::A_NEPB, Step::A, user) {
            if u2 != u1 {
                lemma_push_nearly_covered(u1, u2[u1.len() as int]);
            }
            lemma_with_export(u2, c, s, Dest::A_RED, Step::B, user);
            if let Ok(u3) = with_export(u2, c, s, Dest::A_RED, Step::B, user) {
                if u3 == u2 {
                    let key = Selector::key(c, s, Dest::A_RED, Step::B);
                    lemma_first_match(u2, key);
                    let i = first_match(u2, key)->0;
                    assert(u2[i].carrier == c && u2[i].step == Step::B);
                }
                assert(covered(u2, c));
                lemma_nearly_is_all(u2);
                lemma_export_keeps_covered(u2, c, s, Dest::A_RED, Step::B, user);
                lemma_covered_grows(u2, u3, c);
                lemma_export_keeps_covered(u3, c, s, Dest::A_NEPB, Step::B, user);
                lemma_with_export(u3, c, s, Dest::A_NEPB, Step::B, user);
                if let Ok(u4) = with_export(u3, c, s, Dest::A_NEPB, Step::B, user) {
                    lemma_covered_grows(u3, u4, c);
                }
            }
        }
    }
}

/// What is found in a table under a pattern that asks for a destination
/// other than non-regulated uses is found after `without_nepb` too.
pub proof fn lemma_without_nepb_match(t: Seq<FactorRow>, sel: Selector)
    requires
        has_match(t, sel),
        sel.dest matches Some(d) && d != Dest::A_NEPB,
    ensures
        has_match(without_nepb(t), sel),
{
    lemma_first_match(t, sel);
    lemma_without_nepb(t);
    let i = first_match(t, sel)->0;
    assert(t[i].dest != Dest::A_NEPB);
    let kept = without_nepb(t);
    assert(kept.contains(t[i]));
    let k = choose|k: int| 0 <= k < kept.len() && kept[k] == t[i];
    lemma_match_witness(kept, sel, k);
}

/// Whether a table has every factor that completion would add, those for
/// export to non-regulated uses aside.
pub open spec fn settled(t: Seq<FactorRow>) -> bool {
    &&& all_covered(t)
    &&& has_match(
        t,
        Selector::key(Carrier::MEDIOAMBIENTE, Source::INSITU, Dest::SUMINISTRO, Step::A),
    )
    &&& covered(t, Carrier::MEDIOAMBIENTE)
    &&& covered(t, Carrier::ELECTRICIDAD)
    &&& covered(t, Carrier::RED1)
    &&& covered(t, Carrier::RED2)
    &&& has_match(t, supply_rows(Carrier::ELECTRICIDAD, Source::INSITU))
    &&& has_match(t, supply_rows(Carrier::ELECTRICIDAD, Source::COGENERACION))
    &&& has_grid_exports(t, Carrier::ELECTRICIDAD, Source::INSITU)
    &&& has_grid_exports(t, Carrier::ELECTRICIDAD, Source::COGENERACION)
    &&& has_grid_exports(t, Carrier::MEDIOAMBIENTE, Source::INSITU)
}

/// Whether a table has the factors for export to non-regulated uses of the
/// three kinds of energy that can be exported.
pub open spec fn has_all_nepb_exports(t: Seq<FactorRow>) -> bool {
    &&& has_nepb_exports(t, Carrier::ELECTRICIDAD, Source::INSITU)
    &&& has_nepb_exports(t, Carrier::ELECTRICIDAD, Source::COGENERACION)
    &&& has_nepb_exports(t, Carrier::MEDIOAMBIENTE, Source::INSITU)
}

/// Whether no row of a table goes to non-regulated uses.
pub open spec fn free_of_nepb(t: Seq<FactorRow>) -> bool {
    forall|i: int| 0 <= i < t.len() ==> (#[trigger] t[i]).dest != Dest::A_NEPB
}

/// What is found in a table is found in every table that it grows into.
proof fn lemma_has_match_grows(a: Seq<FactorRow>, b: Seq<FactorRow>, sel: Selector)
    requires
        grows(a, b),
    ensures
        has_match(a, sel) ==> has_match(b, sel),
{
    if has_match(a, sel) {
        lemma_match_grows(a, b, sel);
    }
}

/// The table that completion reaches before it removes anything is
/// settled and has the factors for export to non-regulated uses.
proof fn lemma_completed_settled(t: Seq<FactorRow>, user: UserWFactors)
    ensures
        completed(t, user, false) matches Ok(out) ==> settled(out) && has_all_nepb_exports(out)
            && grows(t, out),
{
    if let Ok(out) = completed(t, user, false) {
        let elec = Carrier::ELECTRICIDAD;
        let amb = Carrier::MEDIOAMBIENTE;
        let t1 = with_supply_defaults(t);
        lemma_defaults_covered(t);
        let cogen_sel = supply_rows(elec, Source::COGENERACION);
        let cogen_row = crate::cte::completion::row(
            elec,
            Source::COGENERACION,
            Dest::SUMINISTRO,
            Step::A,
            0,
            0,
            crate::cte::completion::COGEN_SUPPLY_COMMENT@,
        );
        let t2 = with_cogen_supply(t1);
        lemma_ensured(t1, cogen_sel, cogen_row);
        assert(nearly_covered(t2)) by {
            if t2 != t1 {
                assert(nearly_covered(t1)) by {
                    if !covered(t1, elec) {
                        assert forall|i: int| 0 <= i < t1.len() implies (#[trigger] t1[i]).carrier
                            != elec by {
                            if t1[i].carrier == elec {
                                assert(covered(t1, t1[i].carrier));
                            }
                        }
                    }
                }
                lemma_push_nearly_covered(t1, cogen_row);
            } else {
                assert(nearly_covered(t1)) by {
                    if !covered(t1, elec) {
                        assert forall|i: int| 0 <= i < t1.len() implies (#[trigger] t1[i]).carrier
                            != elec by {
                            if t1[i].carrier == elec {
                                assert(covered(t1, t1[i].carrier));
                            }
                        }
                    }
                }
            }
        }
        let t3 = with_exports(t2, elec, Source::INSITU, user)->Ok_0;
        lemma_with_exports(t2, elec, Source::INSITU, user);
        lemma_onsite_exports_cover(t2, user);
        let t4 = with_exports(t3, elec, Source::COGENERACION, user)->Ok_0;
        lemma_with_exports(t3, elec, Source::COGENERACION, user);
        lemma_exports_keep_covered(t3, elec, Source::COGENERACION, user);
        lemma_covered_grows(t1, t4, amb);
        let t5 = with_exports(t4, amb, Source::INSITU, user)->Ok_0;
        lemma_with_exports(t4, amb, Source::INSITU, user);
        lemma_exports_keep_covered(t4, amb, Source::INSITU, user);
        let red1_row = crate::cte::completion::row(
            Carrier::RED1,
            Source::RED,
            Dest::SUMINISTRO,
            Step::A,
            user.red1.ren as int,
            user.red1.nren as int,
            crate::cte::completion::RED1_COMMENT@,
        );
        let red2_row = crate::cte::completion::row(
            Carrier::RED2,
            Source::RED,
            Dest::SUMINISTRO,
            Step::A,
            user.red2.ren as int,
            user.red2.nren as int,
            crate::cte::completion::RED2_COMMENT@,
        );
        let t5a = ensured(t5, grid_key(Carrier::RED1), red1_row);
        lemma_ensured(t5, grid_key(Carrier::RED1), red1_row);
        if t5a != t5 {
            lemma_push_all_covered(t5, red1_row);
        }
        let t6 = ensured(t5a, grid_key(Carrier::RED2), red2_row);
        lemma_ensured(t5a, grid_key(Carrier::RED2), red2_row);
        if t6 != t5a {
            lemma_push_all_covered(t5a, red2_row);
        }
        assert(out == t6);
        assert(grows(t1, t6));
        assert(grows(t2, t6));
        assert(grows(t3, t6));
        assert(grows(t4, t6));
        assert(grows(t5, t6));
        assert(grows(t5a, t6));
        lemma_covered_grows(t1, t6, amb);
        lemma_covered_grows(t3, t6, elec);
        lemma_covered_grows(t5a, t6, Carrier::RED1);
        lemma_has_match_grows(
            t1,
            t6,
            Selector::key(amb, Source::INSITU, Dest::SUMINISTRO, Step::A),
        );
        lemma_has_match_grows(t2, t6, cogen_sel);
        // Electricity is in the table before any export factor is derived:
        // the supply factor that the derivation reads is there only then.
        assert(has_match(t1, carrier_rows(elec))) by {
            if !has_match(t1, carrier_rows(elec)) {
                lemma_has_match(t1, carrier_rows(elec));
                let k1 = Selector::key(elec, Source::INSITU, Dest::A_RED, Step::A);
                let k2 = Selector::key(elec, Source::INSITU, Dest::SUMINISTRO, Step::A);
                lemma_has_match(t2, k1);
                lemma_has_match(t2, k2);
                assert forall|i: int| 0 <= i < t2.len() implies !k1.selects(#[trigger] t2[i])
                    && !k2.selects(t2[i]) by {
                    if i < t1.len() {
                        assert(t2[i] == t1[i]);
                        assert(!carrier_rows(elec).selects(t1[i]));
                    }
                }
                assert(with_export(t2, elec, Source::INSITU, Dest::A_RED, Step::A, user) is Err);
            }
        }
        lemma_has_match_grows(t1, t6, supply_rows(elec, Source::INSITU));
        lemma_exports_grow(t3, t6, elec, Source::INSITU);
        lemma_exports_grow(t4, t6, elec, Source::COGENERACION);
        lemma_exports_grow(t5, t6, amb, Source::INSITU);
    }
}

/// The export factors that a table has, every table that it grows into
/// has too.
proof fn lemma_exports_grow(a: Seq<FactorRow>, b: Seq<FactorRow>, c: Carrier, s: Source)
    requires
        grows(a, b),
    ensures
        has_grid_exports(a, c, s) ==> has_grid_exports(b, c, s),
        has_nepb_exports(a, c, s) ==> has_nepb_exports(b, c, s),
{
    lemma_has_match_grows(a, b, Selector::key(c, s, Dest::A_RED, Step::A));
    lemma_has_match_grows(a, b, Selector::key(c, s, Dest::A_RED, Step::B));
    lemma_has_match_grows(a, b, Selector::key(c, s, Dest::A_NEPB, Step::A));
    lemma_has_match_grows(a, b, Selector::key(c, s, Dest::A_NEPB, Step::B));
}

/// A settled table stays settled when the rows that go to non-regulated
/// uses are removed.
proof fn lemma_settled_without_nepb(t: Seq<FactorRow>)
    requires
        settled(t),
    ensures
        settled(without_nepb(t)),
        free_of_nepb(without_nepb(t)),
{
    let kept = without_nepb(t);
    let elec = Carrier::ELECTRICIDAD;
    let amb = Carrier::MEDIOAMBIENTE;
    lemma_without_nepb(t);
    assert forall|i: int| 0 <= i < kept.len() implies covered(kept, (#[trigger] kept[i]).carrier) by {
        assert(t.contains(kept[i]));
        let j = choose|j: int| 0 <= j < t.len() && t[j] == kept[i];
        assert(covered(t, t[j].carrier));
        lemma_without_nepb_match(t, grid_key(kept[i].carrier));
    }
    lemma_without_nepb_match(t, Selector::key(amb, Source::INSITU, Dest::SUMINISTRO, Step::A));
    lemma_without_nepb_match(t, grid_key(amb));
    lemma_without_nepb_match(t, grid_key(elec));
    lemma_without_nepb_match(t, grid_key(Carrier::RED1));
    lemma_without_nepb_match(t, grid_key(Carrier::RED2));
    lemma_without_nepb_match(t, supply_rows(elec, Source::INSITU));
    lemma_without_nepb_match(t, supply_rows(elec, Source::COGENERACION));
    lemma_without_nepb_match(t, Selector::key(elec, Source::INSITU, Dest::A_RED, Step::A));
    lemma_without_nepb_match(t, Selector::key(elec, Source::INSITU, Dest::A_RED, Step::B));
    lemma_without_nepb_match(t, Selector::key(elec, Source::COGENERACION, Dest::A_RED, Step::A));
    lemma_without_nepb_match(t, Selector::key(elec, Source::COGENERACION, Dest::A_RED, Step::B));
    lemma_without_nepb_match(t, Selector::key(amb, Source::INSITU, Dest::A_RED, Step::A));
    lemma_without_nepb_match(t, Selector::key(amb, Source::INSITU, Dest::A_RED, Step::B));
}

/// Completion with removal is completion without it, followed by the
/// removal.
proof fn lemma_completed_strip(t: Seq<FactorRow>, user: UserWFactors)
    ensures
        completed(t, user, true) == match completed(t, user, false) {
            Ok(out) => Ok::<Seq<FactorRow>, EpbdError>(without_nepb(out)),
            Err(e) => Err(e),
        },
{
}

/// In a completed table every carrier has its factor for supply from the
/// grid at step A, and each of the three kinds of energy that can be
/// exported (electricity produced on site, cogenerated electricity, ambient
/// energy taken on site) has its factors for export to the grid at steps A
/// and B. Its factors for export to non-regulated uses at steps A and B are
/// there too, unless the rows that go to non-regulated uses were removed.
pub proof fn lemma_completion_covers(t: Seq<FactorRow>, user: UserWFactors, stripnepb: bool)
    ensures
        completed(t, user, stripnepb) matches Ok(out) ==> {
            &&& all_covered(out)
            &&& has_grid_exports(out, Carrier::ELECTRICIDAD, Source::INSITU)
            &&& has_grid_exports(out, Carrier::ELECTRICIDAD, Source::COGENERACION)
            &&& has_grid_exports(out, Carrier::MEDIOAMBIENTE, Source::INSITU)
            &&& !stripnepb ==> has_all_nepb_exports(out)
        },
{
    lemma_completed_settled(t, user);
    if stripnepb {
        lemma_completed_strip(t, user);
        if let Ok(full) = completed(t, user, false) {
            lemma_settled_without_nepb(full);
        }
    }
}

/// A table completed with removal has no row that goes to non-regulated
/// uses.
pub proof fn lemma_completion_strips(t: Seq<FactorRow>, user: UserWFactors)
    ensures
        completed(t, user, true) matches Ok(out) ==> free_of_nepb(out),
{
    lemma_completed_strip(t, user);
    if let Ok(full) = completed(t, user, false) {
        lemma_without_nepb(full);
    }
}

/// A settled table passes the demand that each of its carriers be covered.
proof fn lemma_settled_none_uncovered(t: Seq<FactorRow>)
    requires
        all_covered(t),
    ensures
        first_uncovered(t, distinct(carriers_of(t))) is None,
{
    let carriers = distinct(carriers_of(t));
    assert forall|k: int| 0 <= k < carriers.len() implies covered(t, #[trigger] carriers[k]) by {
        lemma_distinct_contains(carriers_of(t), carriers[k]);
        assert(carriers.contains(carriers[k]));
        let j = choose|j: int| 0 <= j < carriers_of(t).len() && carriers_of(t)[j] == carriers[k];
        assert(t[j].carrier == carriers[k]);
    }
    lemma_all_covered_none(t, carriers);
}

/// The rules that come before the export factors leave a settled table as
/// it is.
proof fn lemma_settled_front_rules(t: Seq<FactorRow>)
    requires
        settled(t),
    ensures
        with_supply_defaults(t) == t,
        first_uncovered(t, distinct(carriers_of(t))) is None,
        with_cogen_supply(t) == t,
{
    lemma_settled_none_uncovered(t);
}

/// A table without rows that go to non-regulated uses is what
/// `without_nepb` keeps of it.
proof fn lemma_free_of_nepb(t: Seq<FactorRow>)
    requires
        free_of_nepb(t),
    ensures
        without_nepb(t) == t,
    decreases t.len(),
{
    if t.len() > 0 {
        assert forall|i: int| 0 <= i < t.drop_last().len() implies (#[trigger] t.drop_last()[i]).dest
            != Dest::A_NEPB by {
            assert(t.drop_last()[i] == t[i]);
        }
        lemma_free_of_nepb(t.drop_last());
        assert(t[t.len() - 1].dest != Dest::A_NEPB);
        assert(t.drop_last().push(t.last()) =~= t);
    } else {
        assert(t =~= Seq::<FactorRow>::empty());
    }
}

/// On a table that is a settled one followed by rows that go to
/// non-regulated uses, deriving one export factor succeeds and leaves such
/// a table.
proof fn lemma_export_over_settled(
    base: Seq<FactorRow>,
    t: Seq<FactorRow>,
    c: Carrier,
    s: Source,
    dest: Dest,
    step: Step,
    user: UserWFactors,
)
    requires
        grows(base, t),
        without_nepb(t) == base,
        dest == Dest::A_RED || dest == Dest::A_NEPB,
        dest == Dest::A_RED ==> has_match(base, Selector::key(c, s, dest, step)),
        step == Step::A && s != Source::COGENERACION ==> has_match(
            base,
            Selector::key(c, s, Dest::SUMINISTRO, Step::A),
        ),
        step == Step::B ==> covered(base, c),
    ensures
        with_export(t, c, s, dest, step, user) matches Ok(u) && grows(base, u) && without_nepb(u)
            == base,
{
    let key = Selector::key(c, s, dest, step);
    lemma_with_export(t, c, s, dest, step, user);
    if dest == Dest::A_RED {
        lemma_match_grows(base, t, key);
    } else if !has_match(t, key) {
        let origin = crate::cte::completion::origin_key(c, s, step);
        if !(step == Step::A && s == Source::COGENERACION) {
            lemma_match_grows(base, t, origin);
        }
        let r = export_row(t, c, s, dest, step, user)->0;
        assert(r.dest == Dest::A_NEPB);
        assert(t.push(r).drop_last() =~= t);
    }
}

/// On a table that is a settled one followed by rows that go to
/// non-regulated uses, deriving the four export factors of one kind of
/// energy succeeds and leaves such a table.
proof fn lemma_exports_over_settled(
    base: Seq<FactorRow>,
    t: Seq<FactorRow>,
    c: Carrier,
    s: Source,
    user: UserWFactors,
)
    requires
        grows(base, t),
        without_nepb(t) == base,
        has_grid_exports(base, c, s),
        s != Source::COGENERACION ==> has_match(
            base,
            Selector::key(c, s, Dest::SUMINISTRO, Step::A),
        ),
        covered(base, c),
    ensures
        with_exports(t, c, s, user) matches Ok(u) && grows(base, u) && without_nepb(u) == base,
{
    lemma_export_over_settled(base, t, c, s, Dest::A_RED, Step::A, user);
    let u1 = with_export(t, c, s, Dest::A_RED, Step::A, user)->Ok_0;
    lemma_export_over_settled(base, u1, c, s, Dest::A_NEPB, Step::A, user);
    let u2 = with_export(u1, c, s, Dest::A_NEPB, Step::A, user)->Ok_0;
    lemma_export_over_settled(base, u2, c, s, Dest::A_RED, Step::B, user);
    let u3 = with_export(u2, c, s, Dest::A_RED, Step::B, user)->Ok_0;
    lemma_export_over_settled(base, u3, c, s, Dest::A_NEPB, Step::B, user);
}

/// Completing a completed table again, with the same weights of the user
/// and the same choice on removal, gives the same table: no row is added
/// twice and none is changed.
///
/// With removal this asks that the table has the factor for supply of
/// electricity produced on site at step A: the factor for its export to
/// non-regulated uses at step A is derived from it anew on every run.
pub proof fn lemma_completion_idempotent(t: Seq<FactorRow>, user: UserWFactors, stripnepb: bool)
    requires
        completed(t, user, stripnepb) is Ok,
        stripnepb ==> has_match(
            completed(t, user, stripnepb)->Ok_0,
            Selector::key(Carrier::ELECTRICIDAD, Source::INSITU, Dest::SUMINISTRO, Step::A),
        ),
    ensures
        completed(completed(t, user, stripnepb)->Ok_0, user, stripnepb) == completed(
            t,
            user,
            stripnepb,
        ),
{
    let out = completed(t, user, stripnepb)->Ok_0;
    let elec = Carrier::ELECTRICIDAD;
    let amb = Carrier::MEDIOAMBIENTE;
    lemma_completed_settled(t, user);
    lemma_completed_strip(t, user);
    let full = completed(t, user, false)->Ok_0;
    if stripnepb {
        lemma_settled_without_nepb(full);
    }
    assert(settled(out));
    lemma_settled_front_rules(out);
    if stripnepb {
        lemma_free_of_nepb(out);
        lemma_exports_over_settled(out, out, elec, Source::INSITU, user);
        let u1 = with_exports(out, elec, Source::INSITU, user)->Ok_0;
        lemma_exports_over_settled(out, u1, elec, Source::COGENERACION, user);
        let u2 = with_exports(u1, elec, Source::COGENERACION, user)->Ok_0;
        lemma_exports_over_settled(out, u2, amb, Source::INSITU, user);
        let u3 = with_exports(u2, amb, Source::INSITU, user)->Ok_0;
        lemma_match_grows(out, u3, grid_key(Carrier::RED1));
        lemma_match_grows(out, u3, grid_key(Carrier::RED2));
        assert(with_district_defaults(u3, user) == u3);
        assert(completed(out, user, true) == Ok::<Seq<FactorRow>, EpbdError>(without_nepb(u3)));
    } else {
        lemma_exports_over_present(out, elec, Source::INSITU, user);
        lemma_exports_over_present(out, elec, Source::COGENERACION, user);
        lemma_exports_over_present(out, amb, Source::INSITU, user);
        assert(with_district_defaults(out, user) == out);
    }
}

/// Where a table has the four export factors of one kind of energy,
/// deriving them leaves it as it is.
proof fn lemma_exports_over_present(t: Seq<FactorRow>, c: Carrier, s: Source, user: UserWFactors)
    requires
        has_grid_exports(t, c, s),
        has_nepb_exports(t, c, s),
    ensures
        with_exports(t, c, s, user) == Ok::<Seq<FactorRow>, EpbdError>(t),
{
}

/// Deriving the four export factors of one kind of energy succeeds where
/// its carrier is covered and, unless it is cogenerated, its supply has a
/// factor at step A.
proof fn lemma_exports_succeed(t: Seq<FactorRow>, c: Carrier, s: Source, user: UserWFactors)
    requires
        covered(t, c),
        s != Source::COGENERACION ==> has_match(
            t,
            Selector::key(c, s, Dest::SUMINISTRO, Step::A),
        ),
    ensures
        with_exports(t, c, s, user) matches Ok(u) && grows(t, u),
{
    let supply = Selector::key(c, s, Dest::SUMINISTRO, Step::A);
    lemma_with_export(t, c, s, Dest::A_RED, Step::A, user);
    let u1 = with_export(t, c, s, Dest::A_RED, Step::A, user)->Ok_0;
    lemma_has_match_grows(t, u1, supply);
    lemma_has_match_grows(t, u1, grid_key(c));
    lemma_with_export(u1, c, s, Dest::A_NEPB, Step::A, user);
    let u2 = with_export(u1, c, s, Dest::A_NEPB, Step::A, user)->Ok_0;
    lemma_has_match_grows(u1, u2, grid_key(c));
    lemma_with_export(u2, c, s, Dest::A_RED, Step::B, user);
    let u3 = with_export(u2, c, s, Dest::A_RED, Step::B, user)->Ok_0;
    lemma_has_match_grows(u2, u3, grid_key(c));
    lemma_with_export(u3, c, s, Dest::A_NEPB, Step::B, user);
}

/// Completion succeeds on a table in which every carrier has its factor
/// for supply from the grid at step A, electricity among them, and which
/// has the factor for supply of electricity produced on site at step A.
pub proof fn lemma_completion_succeeds(t: Seq<FactorRow>, user: UserWFactors, stripnepb: bool)
    requires
        all_covered(t),
        covered(t, Carrier::ELECTRICIDAD),
        has_match(
            t,
            Selector::key(Carrier::ELECTRICIDAD, Source::INSITU, Dest::SUMINISTRO, Step::A),
        ),
    ensures
        completed(t, user, stripnepb) is Ok,
{
    let elec = Carrier::ELECTRICIDAD;
    let amb = Carrier::MEDIOAMBIENTE;
    let t1 = with_supply_defaults(t);
    let carriers = distinct(carriers_of(t));
    let sel1 = Selector::key(amb, Source::INSITU, Dest::SUMINISTRO, Step::A);
    let r1 = crate::cte::completion::row(
        amb,
        Source::INSITU,
        Dest::SUMINISTRO,
        Step::A,
        1000,
        0,
        crate::cte::completion::AMBIENT_ONSITE_COMMENT@,
    );
    let a1 = ensured(t, sel1, r1);
    lemma_ensured(t, sel1, r1);
    let r2 = crate::cte::completion::row(
        amb,
        Source::RED,
        Dest::SUMINISTRO,
        Step::A,
        1000,
        0,
        crate::cte::completion::AMBIENT_GRID_COMMENT@,
    );
    let a2 = ensured(a1, grid_key(amb), r2);
    lemma_ensured(a1, grid_key(amb), r2);
    let r3 = crate::cte::completion::row(
        elec,
        Source::INSITU,
        Dest::SUMINISTRO,
        Step::A,
        1000,
        0,
        crate::cte::completion::ONSITE_ELECTRICITY_COMMENT@,
    );
    lemma_ensured(a2, supply_rows(elec, Source::INSITU), r3);
    assert(grows(t, t1));
    assert(grows(a1, t1));
    assert(grows(a2, t1));
    assert forall|k: int| 0 <= k < carriers.len() implies covered(t1, #[trigger] carriers[k]) by {
        lemma_distinct_contains(carriers_of(t), carriers[k]);
        assert(carriers.contains(carriers[k]));
        let j = choose|j: int| 0 <= j < carriers_of(t).len() && carriers_of(t)[j] == carriers[k];
        assert(t[j].carrier == carriers[k]);
        lemma_covered_grows(t, t1, carriers[k]);
    }
    lemma_all_covered_none(t1, carriers);
    let cogen_row = crate::cte::completion::row(
        elec,
        Source::COGENERACION,
        Dest::SUMINISTRO,
        Step::A,
        0,
        0,
        crate::cte::completion::COGEN_SUPPLY_COMMENT@,
    );
    let t2 = with_cogen_supply(t1);
    lemma_ensured(t1, supply_rows(elec, Source::COGENERACION), cogen_row);
    assert(grows(t, t2));
    lemma_has_match_grows(t, t2, grid_key(elec));
    lemma_has_match_grows(t, t2, Selector::key(elec, Source::INSITU, Dest::SUMINISTRO, Step::A));
    lemma_has_match_grows(a1, t2, sel1);
    lemma_has_match_grows(a2, t2, grid_key(amb));
    lemma_exports_succeed(t2, elec, Source::INSITU, user);
    let t3 = with_exports(t2, elec, Source::INSITU, user)->Ok_0;
    lemma_has_match_grows(t2, t3, grid_key(elec));
    lemma_exports_succeed(t3, elec, Source::COGENERACION, user);
    let t4 = with_exports(t3, elec, Source::COGENERACION, user)->Ok_0;
    assert(grows(t2, t4));
    lemma_has_match_grows(t2, t4, sel1);
    lemma_has_match_grows(t2, t4, grid_key(amb));
    lemma_exports_succeed(t4, amb, Source::INSITU, user);
}

/// A row whose key no row of a table has can be added without any two
/// rows having the same key.
proof fn lemma_push_unique(t: Seq<FactorRow>, r: FactorRow)
    requires
        unique_keys(t),
        !has_match(t, key_of(r)),
    ensures
        unique_keys(t.push(r)),
{
    let u = t.push(r);
    lemma_has_match(t, key_of(r));
    assert forall|i: int, j: int| 0 <= i < j < u.len() implies !key_of(#[trigger] u[i]).selects(
        #[trigger] u[j],
    ) by {
        if j < t.len() {
            assert(u[i] == t[i] && u[j] == t[j]);
        } else {
            assert(u[i] == t[i]);
            assert(!key_of(r).selects(t[i]));
        }
    }
}

/// Where no row fits a pattern, no row has a key that fits it.
proof fn lemma_no_match_no_key(t: Seq<FactorRow>, sel: Selector, r: FactorRow)
    requires
        !has_match(t, sel),
        sel.selects(r),
    ensures
        !has_match(t, key_of(r)),
{
    lemma_has_match(t, sel);
    lemma_has_match(t, key_of(r));
}

/// `ensured` with a row that fits its pattern keeps the keys of a table
/// different from one another.
proof fn lemma_ensured_unique(t: Seq<FactorRow>, sel: Selector, r: FactorRow)
    requires
        unique_keys(t),
        sel.selects(r),
    ensures
        unique_keys(ensured(t, sel, r)),
{
    if !has_match(t, sel) {
        lemma_no_match_no_key(t, sel, r);
        lemma_push_unique(t, r);
    }
}

/// A successful `with_exports` keeps the keys of a table different from
/// one another.
proof fn lemma_exports_unique(t: Seq<FactorRow>, c: Carrier, s: Source, user: UserWFactors)
    requires
        unique_keys(t),
    ensures
        with_exports(t, c, s, user) matches Ok(u) ==> unique_keys(u),
{
    lemma_export_unique(t, c, s, Dest::A_RED, Step::A, user);
    if let Ok(u1) = with_export(t, c, s, Dest::A_RED, Step::A, user) {
        lemma_export_unique(u1, c, s, Dest::A_NEPB, Step::A, user);
        if let Ok(u2) = with_export(u1, c, s, Dest::A_NEPB, Step::A, user) {
            lemma_export_unique(u2, c, s, Dest::A_RED, Step::B, user);
            if let Ok(u3) = with_export(u2, c, s, Dest::A_RED, Step::B, user) {
                lemma_export_unique(u3, c, s, Dest::A_NEPB, Step::B, user);
            }
        }
    }
}

/// One successful `with_export` keeps the keys of a table different from
/// one another.
proof fn lemma_export_unique(
    t: Seq<FactorRow>,
    c: Carrier,
    s: Source,
    dest: Dest,
    step: Step,
    user: UserWFactors,
)
    requires
        unique_keys(t),
    ensures
        with_export(t, c, s, dest, step, user) matches Ok(u) ==> unique_keys(u),
{
    lemma_with_export(t, c, s, dest, step, user);
    if let Ok(u) = with_export(t, c, s, dest, step, user) {
        if u != t {
            let r = export_row(t, c, s, dest, step, user)->0;
            assert(u[t.len() as int] == r);
            assert(key_of(r) == Selector::key(c, s, dest, step));
            lemma_push_unique(t, r);
        }
    }
}

/// Removing the rows that go to non-regulated uses keeps the keys of a
/// table different from one another.
proof fn lemma_without_nepb_unique(t: Seq<FactorRow>)
    requires
        unique_keys(t),
    ensures
        unique_keys(without_nepb(t)),
    decreases t.len(),
{
    if t.len() > 0 {
        let front = t.drop_last();
        assert(unique_keys(front)) by {
            assert forall|i: int, j: int| 0 <= i < j < front.len() implies !key_of(
                #[trigger] front[i],
            ).selects(#[trigger] front[j]) by {
                assert(front[i] == t[i] && front[j] == t[j]);
            }
        }
        lemma_without_nepb_unique(front);
        if t.last().dest != Dest::A_NEPB {
            let kept = without_nepb(front);
            lemma_without_nepb(front);
            assert(!has_match(kept, key_of(t.last()))) by {
                lemma_has_match(kept, key_of(t.last()));
                if has_match(kept, key_of(t.last())) {
                    let k = choose|k: int|
                        0 <= k < kept.len() && key_of(t.last()).selects(#[trigger] kept[k]);
                    assert(front.contains(kept[k]));
                    let i = choose|i: int| 0 <= i < front.len() && front[i] == kept[k];
                    assert(t[i] == kept[k]);
                    assert(key_of(t[i]).selects(t[t.len() - 1]));
                }
            }
            lemma_push_unique(kept, t.last());
        }
    }
}

/// Completion keeps a table well formed: where no two rows of the given
/// table have the same key, no two rows of the completed table have.
pub proof fn lemma_completion_keeps_keys_unique(
    t: Seq<FactorRow>,
    user: UserWFactors,
    stripnepb: bool,
)
    requires
        unique_keys(t),
    ensures
        completed(t, user, stripnepb) matches Ok(out) ==> unique_keys(out),
{
    lemma_completed_strip(t, user);
    if let Ok(full) = completed(t, user, false) {
        let elec = Carrier::ELECTRICIDAD;
        let amb = Carrier::MEDIOAMBIENTE;
        let a1 = ensured(
            t,
            Selector::key(amb, Source::INSITU, Dest::SUMINISTRO, Step::A),
            crate::cte::completion::row(
                amb,
                Source::INSITU,
                Dest::SUMINISTRO,
                Step::A,
                1000,
                0,
                crate::cte::completion::AMBIENT_ONSITE_COMMENT@,
            ),
        );
        lemma_ensured_unique(
            t,
            Selector::key(amb, Source::INSITU, Dest::SUMINISTRO, Step::A),
            crate::cte::completion::row(
                amb,
                Source::INSITU,
                Dest::SUMINISTRO,
                Step::A,
                1000,
                0,
                crate::cte::completion::AMBIENT_ONSITE_COMMENT@,
            ),
        );
        let a2 = ensured(
            a1,
            grid_key(amb),
            crate::cte::completion::row(
                amb,
                Source::RED,
                Dest::SUMINISTRO,
                Step::A,
                1000,
                0,
                crate::cte::completion::AMBIENT_GRID_COMMENT@,
            ),
        );
        lemma_ensured_unique(
            a1,
            grid_key(amb),
            crate::cte::completion::row(
                amb,
                Source::RED,
                Dest::SUMINISTRO,
                Step::A,
                1000,
                0,
                crate::cte::completion::AMBIENT_GRID_COMMENT@,
            ),
        );
        lemma_ensured_unique(
            a2,
            supply_rows(elec, Source::INSITU),
            crate::cte::completion::row(
                elec,
                Source::INSITU,
                Dest::SUMINISTRO,
                Step::A,
                1000,
                0,
                crate::cte::completion::ONSITE_ELECTRICITY_COMMENT@,
            ),
        );
        let t1 = with_supply_defaults(t);
        assert(unique_keys(t1));
        lemma_ensured_unique(
            t1,
            supply_rows(elec, Source::COGENERACION),
            crate::cte::completion::row(
                elec,
                Source::COGENERACION,
                Dest::SUMINISTRO,
                Step::A,
                0,
                0,
                crate::cte::completion::COGEN_SUPPLY_COMMENT@,
            ),
        );
        let t2 = with_cogen_supply(t1);
        lemma_exports_unique(t2, elec, Source::INSITU, user);
        let t3 = with_exports(t2, elec, Source::INSITU, user)->Ok_0;
        lemma_exports_unique(t3, elec, Source::COGENERACION, user);
        let t4 = with_exports(t3, elec, Source::COGENERACION, user)->Ok_0;
        lemma_exports_unique(t4, amb, Source::INSITU, user);
        let t5 = with_exports(t4, amb, Source::INSITU, user)->Ok_0;
        let red1_row = crate::cte::completion::row(
            Carrier::RED1,
            Source::RED,
            Dest::SUMINISTRO,
            Step::A,
            user.red1.ren as int,
            user.red1.nren as int,
            crate::cte::completion::RED1_COMMENT@,
        );
        let red2_row = crate::cte::completion::row(
            Carrier::RED2,
            Source::RED,
            Dest::SUMINISTRO,
            Step::A,
            user.red2.ren as int,
            user.red2.nren as int,
            crate::cte::completion::RED2_COMMENT@,
        );
        lemma_ensured_unique(t5, grid_key(Carrier::RED1), red1_row);
        lemma_ensured_unique(
            ensured(t5, grid_key(Carrier::RED1), red1_row),
            grid_key(Carrier::RED2),
            red2_row,
        );
        assert(unique_keys(full));
        if stripnepb {
            lemma_without_nepb_unique(full);
        }
    }
}

} // verus!
