//! Partition of components by service: the components of one service,
//! with its share of the electricity that is produced on site for no
//! service in particular.

use vstd::prelude::*;
use vstd::arithmetic::div_mod::lemma_fundamental_div_mod;
use vstd::arithmetic::div_mod::lemma_mod_bound;
use crate::components::{Component, ComponentRow, Components, component_rows};
use crate::fixed::{fits, floor_div, ints};
use crate::meta::{meta_copy, meta_updated};
use crate::types::{CSubtype, CType, Carrier, Service};
use crate::vecops::{total, wide_total};

verus! {

/// What is added to the comment of a production that was reassigned.
pub const REASSIGNED_COMMENT: &'static str =
    " Producción insitu proporcionalmente reasignada al servicio.";

/// Metadata key of the perimeter.
pub const PERIMETER_KEY: &'static str = "CTE_PERIMETRO";

/// Metadata value of the nearby perimeter.
pub const PERIMETER_NEARBY: &'static str = "NEARBY";

/// Metadata key of the service that a partition was made for.
pub const SERVICE_KEY: &'static str = "CTE_SERVICIO";

/// The components of a service, in their order.
pub open spec fn of_service(rows: Seq<ComponentRow>, service: Service) -> Seq<ComponentRow>
    decreases rows.len(),
{
    if rows.len() == 0 {
        Seq::empty()
    } else if rows.last().service == service {
        of_service(rows.drop_last(), service).push(rows.last())
    } else {
        of_service(rows.drop_last(), service)
    }
}

/// Whether a component is a use of electricity.
pub open spec fn is_electricity_use(r: ComponentRow) -> bool {
    r.carrier == Carrier::ELECTRICIDAD && r.ctype == CType::CONSUMO
}

/// Whether a component is electricity produced on site for no service in
/// particular.
pub open spec fn is_free_production(r: ComponentRow) -> bool {
    &&& r.carrier == Carrier::ELECTRICIDAD
    &&& r.ctype == CType::PRODUCCION
    &&& r.csubtype == CSubtype::INSITU
    &&& r.service == Service::NDEF
}

/// The electricity used by all services over the period.
pub open spec fn electricity_used(rows: Seq<ComponentRow>) -> int
    decreases rows.len(),
{
    if rows.len() == 0 {
        0
    } else if is_electricity_use(rows.last()) {
        electricity_used(rows.drop_last()) + total(rows.last().values)
    } else {
        electricity_used(rows.drop_last())
    }
}

/// The electricity used by one service over the period.
pub open spec fn electricity_used_by(rows: Seq<ComponentRow>, service: Service) -> int
    decreases rows.len(),
{
    if rows.len() == 0 {
        0
    } else if is_electricity_use(rows.last()) && rows.last().service == service {
        electricity_used_by(rows.drop_last(), service) + total(rows.last().values)
    } else {
        electricity_used_by(rows.drop_last(), service)
    }
}

/// The sum of the sizes of the entries of a series.
pub open spec fn magnitude(s: Seq<int>) -> int
    decreases s.len(),
{
    if s.len() == 0 {
        0
    } else if s.last() >= 0 {
        magnitude(s.drop_last()) + s.last()
    } else {
        magnitude(s.drop_last()) - s.last()
    }
}

/// The sum of the sizes of all quantities of electricity used.
pub open spec fn electricity_load(rows: Seq<ComponentRow>) -> int
    decreases rows.len(),
{
    if rows.len() == 0 {
        0
    } else if is_electricity_use(rows.last()) {
        electricity_load(rows.drop_last()) + magnitude(rows.last().values)
    } else {
        electricity_load(rows.drop_last())
    }
}

/// The part of a quantity that falls to a share of a whole, rounded down.
pub open spec fn share_of(v: int, part: int, whole: int) -> int {
    (v * part) / whole
}

/// A series with every entry reduced to a share of a whole.
pub open spec fn shared(values: Seq<int>, part: int, whole: int) -> Seq<int> {
    Seq::new(values.len(), |i: int| share_of(values[i], part, whole))
}

/// The production that falls to a service out of one that was made for no
/// service in particular.
pub open spec fn reassigned_row(r: ComponentRow, service: Service, part: int, whole: int) -> ComponentRow {
    ComponentRow {
        carrier: Carrier::ELECTRICIDAD,
        ctype: CType::PRODUCCION,
        csubtype: CSubtype::INSITU,
        service,
        values: shared(r.values, part, whole),
        comment: r.comment + REASSIGNED_COMMENT@,
    }
}

/// The productions that fall to a service, one for each production of
/// electricity on site that was made for no service in particular, in their
/// order.
pub open spec fn reassigned(rows: Seq<ComponentRow>, service: Service, part: int, whole: int) -> Seq<
    ComponentRow,
>
    decreases rows.len(),
{
    if rows.len() == 0 {
        Seq::empty()
    } else if is_free_production(rows.last()) {
        reassigned(rows.drop_last(), service, part, whole).push(
            reassigned_row(rows.last(), service, part, whole),
        )
    } else {
        reassigned(rows.drop_last(), service, part, whole)
    }
}

/// The components of the partition for a service: those of the service,
/// followed by its share of the free productions where the service and the
/// building as a whole both use electricity.
pub open spec fn partition_rows(rows: Seq<ComponentRow>, service: Service) -> Seq<ComponentRow> {
    let part = electricity_used_by(rows, service);
    let whole = electricity_used(rows);
    if whole > 0 && part > 0 {
        of_service(rows, service) + reassigned(rows, service, part, whole)
    } else {
        of_service(rows, service)
    }
}

/// Whether every quantity that would be reassigned can be stored.
pub open spec fn shares_fit(rows: Seq<ComponentRow>, part: int, whole: int) -> bool {
    forall|i: int, t: int|
        0 <= i < rows.len() && is_free_production(rows[i]) && 0 <= t < rows[i].values.len()
            ==> fits(share_of(#[trigger] rows[i].values[t], part, whole))
}

/// Whether the partition for a service can be computed in stored
/// quantities: the sizes of all quantities of electricity used sum to a
/// quantity that can be stored, and so does every quantity that is
/// reassigned.
pub open spec fn partitionable(rows: Seq<ComponentRow>, service: Service) -> bool {
    &&& fits(electricity_load(rows))
    &&& electricity_used(rows) > 0 && electricity_used_by(rows, service) > 0 ==> shares_fit(
        rows,
        electricity_used_by(rows, service),
        electricity_used(rows),
    )
}

/// The sum of a series is no larger in size than the sum of the sizes.
pub proof fn lemma_total_within_magnitude(s: Seq<int>)
    ensures
        -magnitude(s) <= total(s) <= magnitude(s),
        0 <= magnitude(s),
    decreases s.len(),
{
    if s.len() > 0 {
        lemma_total_within_magnitude(s.drop_last());
    }
}

/// The electricity used, by all services or by one, is no larger in size
/// than the load, and the load of a front part of the components is no
/// larger than that of all.
pub proof fn lemma_used_within_load(rows: Seq<ComponentRow>, service: Service, k: int)
    requires
        0 <= k <= rows.len(),
    ensures
        -electricity_load(rows) <= electricity_used(rows) <= electricity_load(rows),
        -electricity_load(rows) <= electricity_used_by(rows, service) <= electricity_load(rows),
        0 <= electricity_load(rows.take(k)) <= electricity_load(rows),
    decreases rows.len(),
{
    if rows.len() > 0 {
        lemma_total_within_magnitude(rows.last().values);
        if k < rows.len() {
            lemma_used_within_load(rows.drop_last(), service, k);
            assert(rows.drop_last().take(k) =~= rows.take(k));
        } else {
            lemma_used_within_load(rows.drop_last(), service, k - 1);
            assert(rows.take(k) =~= rows);
        }
    } else {
        assert(rows.take(k) =~= rows);
    }
}

/// The electricity used by all services and by one service over the
/// period.
fn electricity_totals(cdata: &Vec<Component>, service: Service) -> (r: (i64, i64))
    requires
        fits(electricity_load(component_rows(cdata@))),
    ensures
        r.0 == electricity_used(component_rows(cdata@)),
        r.1 == electricity_used_by(component_rows(cdata@), service),
{
    let n: usize = cdata.len();
    let ghost rows = component_rows(cdata@);
    let mut whole: i64 = 0;
    let mut part: i64 = 0;
    let mut i: usize = 0;
    assert(rows.take(0) =~= Seq::<ComponentRow>::empty());
    while i < n
        invariant
            i <= n,
            n == cdata.len(),
            rows == component_rows(cdata@),
            fits(electricity_load(rows)),
            whole == electricity_used(rows.take(i as int)),
            part == electricity_used_by(rows.take(i as int), service),
        decreases n - i,
    {
        proof {
            assert(rows.take(i + 1).drop_last() =~= rows.take(i as int));
            assert(rows.take(i + 1).last() == cdata[i as int]@);
            lemma_used_within_load(rows, service, i + 1);
            lemma_used_within_load(rows.take(i + 1), service, 0);
            lemma_used_within_load(rows.take(i as int), service, 0);
            lemma_total_within_magnitude(cdata[i as int]@.values);
        }
        let c: &Component = &cdata[i];
        if c.carrier == Carrier::ELECTRICIDAD && c.ctype == CType::CONSUMO {
            let row_total: i128 = wide_total(c.values.as_slice());
            whole = (whole as i128 + row_total) as i64;
            if c.service == service {
                part = (part as i128 + row_total) as i64;
            }
        }
        i = i + 1;
    }
    assert(rows.take(n as int) =~= rows);
    (whole, part)
}

/// A series with every entry reduced to a share of a whole.
fn share_values(values: &Vec<i64>, part: i64, whole: i64) -> (r: Vec<i64>)
    requires
        part > 0,
        whole > 0,
        forall|t: int|
            0 <= t < values.len() ==> fits(share_of(#[trigger] ints(values@)[t], part as int, whole as int)),
    ensures
        ints(r@) == shared(ints(values@), part as int, whole as int),
{
    let mut out: Vec<i64> = Vec::new();
    let n: usize = values.len();
    let mut i: usize = 0;
    let ghost want = shared(ints(values@), part as int, whole as int);
    while i < n
        invariant
            i <= n,
            n == values.len(),
            part > 0,
            whole > 0,
            want == shared(ints(values@), part as int, whole as int),
            forall|t: int|
                0 <= t < values.len() ==> fits(
                    share_of(#[trigger] ints(values@)[t], part as int, whole as int),
                ),
            out.len() == i,
            forall|j: int| 0 <= j < i ==> #[trigger] out[j] == want[j],
        decreases n - i,
    {
        let v: i64 = values[i];
        proof {
            assert(ints(values@)[i as int] == v);
            assert(-0x4000_0000_0000_0000_0000_0000_0000_0000 <= v * part
                <= 0x4000_0000_0000_0000_0000_0000_0000_0000) by (nonlinear_arith)
                requires
                    -0x8000_0000_0000_0000 <= v <= 0x7fff_ffff_ffff_ffff,
                    0 < part <= 0x7fff_ffff_ffff_ffff,
            ;
        }
        let product: i128 = v as i128 * part as i128;
        let q: i128 = floor_div(product, whole as i128);
        out.push(q as i64);
        i = i + 1;
    }
    assert(ints(out@) =~= want);
    out
}

/// The components of a service, with its share of the electricity
/// produced on site for no service in particular.
///
/// The components are those of `partition_rows`. The metadata is that of
/// the given components, with the perimeter set to nearby and the service
/// recorded.
pub fn components_by_service(components: &Components, service: Service) -> (r: Components)
    requires
        partitionable(components@.cdata, service),
    ensures
        r@.cdata == partition_rows(components@.cdata, service),
        r@.cmeta == meta_updated(
            meta_updated(components@.cmeta, PERIMETER_KEY@, PERIMETER_NEARBY@),
            SERVICE_KEY@,
            service.name_spec(),
        ),
{
    let ghost rows = components@.cdata;
    let n: usize = components.cdata.len();
    let mut cdata: Vec<Component> = Vec::new();
    let mut i: usize = 0;
    assert(rows.take(0) =~= Seq::<ComponentRow>::empty());
    assert(component_rows(cdata@) =~= Seq::<ComponentRow>::empty());
    while i < n
        invariant
            i <= n,
            n == components.cdata.len(),
            rows == component_rows(components.cdata@),
            component_rows(cdata@) == of_service(rows.take(i as int), service),
        decreases n - i,
    {
        proof {
            assert(rows.take(i + 1).drop_last() =~= rows.take(i as int));
            assert(rows.take(i + 1).last() == components.cdata[i as int]@);
        }
        if components.cdata[i].service == service {
            let ghost before = component_rows(cdata@);
            cdata.push(components.cdata[i].clone());
            assert(component_rows(cdata@) =~= before.push(components.cdata[i as int]@));
        }
        i = i + 1;
    }
    assert(rows.take(n as int) =~= rows);

    let (whole, part) = electricity_totals(&components.cdata, service);
    if whole > 0 && part > 0 {
        let ghost own = component_rows(cdata@);
        let mut k: usize = 0;
        while k < n
            invariant
                k <= n,
                n == components.cdata.len(),
                rows == component_rows(components.cdata@),
                whole > 0,
                part > 0,
                shares_fit(rows, part as int, whole as int),
                component_rows(cdata@) == own + reassigned(
                    rows.take(k as int),
                    service,
                    part as int,
                    whole as int,
                ),
            decreases n - k,
        {
            proof {
                assert(rows.take(k + 1).drop_last() =~= rows.take(k as int));
                assert(rows.take(k + 1).last() == components.cdata[k as int]@);
            }
            let c: &Component = &components.cdata[k];
            if c.carrier == Carrier::ELECTRICIDAD && c.ctype == CType::PRODUCCION && c.csubtype
                == CSubtype::INSITU && c.service == Service::NDEF {
                proof {
                    assert(is_free_production(rows[k as int]));
                    assert forall|t: int| 0 <= t < c.values.len() implies fits(
                        share_of(#[trigger] ints(c.values@)[t], part as int, whole as int),
                    ) by {
                        assert(rows[k as int].values[t] == ints(c.values@)[t]);
                    }
                }
                let values: Vec<i64> = share_values(&c.values, part, whole);
                let mut comment: String = c.comment.clone();
                comment.append(REASSIGNED_COMMENT);
                let ghost before = component_rows(cdata@);
                let added: Component = Component {
                    carrier: Carrier::ELECTRICIDAD,
                    ctype: CType::PRODUCCION,
                    csubtype: CSubtype::INSITU,
                    service,
                    values,
                    comment,
                };
                cdata.push(added);
                assert(component_rows(cdata@) =~= before.push(
                    reassigned_row(rows[k as int], service, part as int, whole as int),
                ));
            }
            k = k + 1;
        }
        assert(rows.take(n as int) =~= rows);
    }
    let mut out: Components = Components { cmeta: meta_copy(&components.cmeta), cdata };
    out.update_meta(PERIMETER_KEY, PERIMETER_NEARBY);
    out.update_meta(SERVICE_KEY, service.name());
    out
}

/// What falls to a service out of one quantity that was produced for no
/// service in particular: its share where the service and the building as
/// a whole both use electricity, else nothing.
pub open spec fn reassigned_value(rows: Seq<ComponentRow>, service: Service, v: int) -> int {
    let part = electricity_used_by(rows, service);
    let whole = electricity_used(rows);
    if whole > 0 && part > 0 {
        share_of(v, part, whole)
    } else {
        0
    }
}

/// What falls to all services together out of one quantity that was
/// produced for no service in particular.
pub open spec fn reassigned_to_all(rows: Seq<ComponentRow>, v: int) -> int {
    reassigned_value(rows, Service::ACS, v) + reassigned_value(rows, Service::CAL, v)
        + reassigned_value(rows, Service::REF, v) + reassigned_value(rows, Service::VEN, v)
        + reassigned_value(rows, Service::ILU, v) + reassigned_value(rows, Service::HU, v)
        + reassigned_value(rows, Service::DHU, v) + reassigned_value(rows, Service::BAC, v)
        + reassigned_value(rows, Service::NDEF, v)
}

/// Each quantity of a production that a partition reassigns is what falls
/// to the service out of the quantity it was made from.
pub proof fn lemma_reassigned_entries(
    rows: Seq<ComponentRow>,
    service: Service,
    r: ComponentRow,
    t: int,
)
    requires
        electricity_used(rows) > 0,
        electricity_used_by(rows, service) > 0,
        0 <= t < r.values.len(),
    ensures
        reassigned_row(
            r,
            service,
            electricity_used_by(rows, service),
            electricity_used(rows),
        ).values[t] == reassigned_value(rows, service, r.values[t]),
{
}

/// The electricity used by all services is the sum of what each service
/// uses.
pub proof fn lemma_used_by_services(rows: Seq<ComponentRow>)
    ensures
        electricity_used(rows) == electricity_used_by(rows, Service::ACS) + electricity_used_by(
            rows,
            Service::CAL,
        ) + electricity_used_by(rows, Service::REF) + electricity_used_by(rows, Service::VEN)
            + electricity_used_by(rows, Service::ILU) + electricity_used_by(rows, Service::HU)
            + electricity_used_by(rows, Service::DHU) + electricity_used_by(rows, Service::BAC)
            + electricity_used_by(rows, Service::NDEF),
    decreases rows.len(),
{
    if rows.len() > 0 {
        lemma_used_by_services(rows.drop_last());
    }
}

/// A share, taken times the whole, is at most the quantity times the part
/// and less than one whole short of it.
proof fn lemma_share_bounds(v: int, part: int, whole: int)
    requires
        whole > 0,
    ensures
        whole * share_of(v, part, whole) <= v * part < whole * share_of(v, part, whole) + whole,
{
    lemma_fundamental_div_mod(v * part, whole);
    lemma_mod_bound(v * part, whole);
}

/// What falls to a service, taken times the whole, is at most the quantity
/// times what the service uses and less than one whole short of it.
proof fn lemma_reassigned_bounds(rows: Seq<ComponentRow>, service: Service, v: int)
    requires
        electricity_used(rows) > 0,
        electricity_used_by(rows, service) >= 0,
    ensures
        electricity_used(rows) * reassigned_value(rows, service, v) <= v * electricity_used_by(
            rows,
            service,
        ) < electricity_used(rows) * reassigned_value(rows, service, v) + electricity_used(rows),
{
    let part = electricity_used_by(rows, service);
    let whole = electricity_used(rows);
    if part > 0 {
        lemma_share_bounds(v, part, whole);
    } else {
        assert(v * part == 0) by (nonlinear_arith)
            requires
                part == 0,
        ;
        assert(whole * 0 == 0);
    }
}

/// Partitioning conserves what was produced: the shares that fall to the
/// services out of one quantity produced for no service in particular sum
/// to that quantity, short of it by less than one unit for each of the
/// nine services, as each share is rounded down.
///
/// This asks that the building uses electricity and that no service uses a
/// negative amount of it: a service with a negative use gets no share while
/// the shares of the others then sum to more than the whole.
pub proof fn lemma_partition_conserves(rows: Seq<ComponentRow>, v: int)
    requires
        electricity_used(rows) > 0,
        forall|service: Service| #[trigger] electricity_used_by(rows, service) >= 0,
    ensures
        v - 9 < reassigned_to_all(rows, v) <= v,
{
    let w = electricity_used(rows);
    lemma_used_by_services(rows);
    lemma_reassigned_bounds(rows, Service::ACS, v);
    lemma_reassigned_bounds(rows, Service::CAL, v);
    lemma_reassigned_bounds(rows, Service::REF, v);
    lemma_reassigned_bounds(rows, Service::VEN, v);
    lemma_reassigned_bounds(rows, Service::ILU, v);
    lemma_reassigned_bounds(rows, Service::HU, v);
    lemma_reassigned_bounds(rows, Service::DHU, v);
    lemma_reassigned_bounds(rows, Service::BAC, v);
    lemma_reassigned_bounds(rows, Service::NDEF, v);
    let c1 = electricity_used_by(rows, Service::ACS);
    let c2 = electricity_used_by(rows, Service::CAL);
    let c3 = electricity_used_by(rows, Service::REF);
    let c4 = electricity_used_by(rows, Service::VEN);
    let c5 = electricity_used_by(rows, Service::ILU);
    let c6 = electricity_used_by(rows, Service::HU);
    let c7 = electricity_used_by(rows, Service::DHU);
    let c8 = electricity_used_by(rows, Service::BAC);
    let c9 = electricity_used_by(rows, Service::NDEF);
    let q1 = reassigned_value(rows, Service::ACS, v);
    let q2 = reassigned_value(rows, Service::CAL, v);
    let q3 = reassigned_value(rows, Service::REF, v);
    let q4 = reassigned_value(rows, Service::VEN, v);
    let q5 = reassigned_value(rows, Service::ILU, v);
    let q6 = reassigned_value(rows, Service::HU, v);
    let q7 = reassigned_value(rows, Service::DHU, v);
    let q8 = reassigned_value(rows, Service::BAC, v);
    let q9 = reassigned_value(rows, Service::NDEF, v);
    let r = q1 + q2 + q3 + q4 + q5 + q6 + q7 + q8 + q9;
    assert(v * w == v * c1 + v * c2 + v * c3 + v * c4 + v * c5 + v * c6 + v * c7 + v * c8 + v
        * c9) by (nonlinear_arith)
        requires
            w == c1 + c2 + c3 + c4 + c5 + c6 + c7 + c8 + c9,
    ;
    assert(w * r == w * q1 + w * q2 + w * q3 + w * q4 + w * q5 + w * q6 + w * q7 + w * q8 + w
        * q9) by (nonlinear_arith)
        requires
            r == q1 + q2 + q3 + q4 + q5 + q6 + q7 + q8 + q9,
    ;
    assert(w * r <= v * w < w * r + 9 * w);
    assert(v - 9 < r <= v) by (nonlinear_arith)
        requires
            w > 0,
            w * r <= v * w < w * r + 9 * w,
    ;
}

/// The sum of the sizes of the entries of a series, in a type wide enough
/// for any series.
fn wide_magnitude(values: &Vec<i64>) -> (r: i128)
    ensures
        r == magnitude(ints(values@)),
        r >= 0,
{
    let n: usize = values.len();
    let mut acc: i128 = 0;
    let mut i: usize = 0;
    assert(ints(values@).take(0) =~= Seq::<int>::empty());
    while i < n
        invariant
            i <= n,
            n == values.len(),
            acc == magnitude(ints(values@).take(i as int)),
            0 <= acc <= (i as int) * 0x8000_0000_0000_0000,
        decreases n - i,
    {
        proof {
            let s = ints(values@);
            assert(s.take(i + 1).drop_last() =~= s.take(i as int));
            assert(s.take(i + 1).last() == values[i as int]);
            assert((i as int + 1) * 0x8000_0000_0000_0000 == (i as int) * 0x8000_0000_0000_0000
                + 0x8000_0000_0000_0000) by (nonlinear_arith);
            assert((i as int + 1) * 0x8000_0000_0000_0000 <= 0x1_0000_0000_0000_0000
                * 0x8000_0000_0000_0000) by (nonlinear_arith)
                requires
                    i as int + 1 <= 0x1_0000_0000_0000_0000,
            ;
        }
        let v: i128 = values[i] as i128;
        if v >= 0 {
            acc = acc + v;
        } else {
            acc = acc - v;
        }
        i = i + 1;
    }
    assert(ints(values@).take(n as int) =~= ints(values@));
    acc
}

/// Whether the sizes of all quantities of electricity used sum to a
/// quantity that can be stored.
fn load_fits(cdata: &Vec<Component>) -> (r: bool)
    ensures
        r == fits(electricity_load(component_rows(cdata@))),
{
    let n: usize = cdata.len();
    let ghost rows = component_rows(cdata@);
    let mut acc: i128 = 0;
    let mut i: usize = 0;
    assert(rows.take(0) =~= Seq::<ComponentRow>::empty());
    while i < n
        invariant
            i <= n,
            n == cdata.len(),
            rows == component_rows(cdata@),
            acc == electricity_load(rows.take(i as int)),
            0 <= acc <= 0x7fff_ffff_ffff_ffff,
        decreases n - i,
    {
        proof {
            assert(rows.take(i + 1).drop_last() =~= rows.take(i as int));
            assert(rows.take(i + 1).last() == cdata[i as int]@);
            lemma_used_within_load(rows, Service::NDEF, i + 1);
        }
        let c: &Component = &cdata[i];
        if c.carrier == Carrier::ELECTRICIDAD && c.ctype == CType::CONSUMO {
            let m: i128 = wide_magnitude(&c.values);
            if m > 0x7fff_ffff_ffff_ffff {
                return false;
            }
            acc = acc + m;
            if acc > 0x7fff_ffff_ffff_ffff {
                return false;
            }
        }
        i = i + 1;
    }
    assert(rows.take(n as int) =~= rows);
    true
}

/// Whether every quantity that would be reassigned can be stored.
fn shares_can_fit(cdata: &Vec<Component>, part: i64, whole: i64) -> (r: bool)
    requires
        part > 0,
        whole > 0,
    ensures
        r == shares_fit(component_rows(cdata@), part as int, whole as int),
{
    let n: usize = cdata.len();
    let ghost rows = component_rows(cdata@);
    let mut i: usize = 0;
    while i < n
        invariant
            i <= n,
            n == cdata.len(),
            part > 0,
            whole > 0,
            rows == component_rows(cdata@),
            forall|j: int, t: int|
                0 <= j < i && is_free_production(rows[j]) && 0 <= t < rows[j].values.len()
                    ==> fits(share_of(#[trigger] rows[j].values[t], part as int, whole as int)),
        decreases n - i,
    {
        let c: &Component = &cdata[i];
        assert(rows[i as int] == c@);
        if c.carrier == Carrier::ELECTRICIDAD && c.ctype == CType::PRODUCCION && c.csubtype
            == CSubtype::INSITU && c.service == Service::NDEF {
            let m: usize = c.values.len();
            let mut t: usize = 0;
            while t < m
                invariant
                    t <= m,
                    m == c.values.len(),
                    i < n,
                    n == cdata.len(),
                    part > 0,
                    whole > 0,
                    rows == component_rows(cdata@),
                    rows[i as int] == c@,
                    is_free_production(rows[i as int]),
                    forall|u: int|
                        0 <= u < t ==> fits(
                            share_of(#[trigger] rows[i as int].values[u], part as int, whole as int),
                        ),
                decreases m - t,
            {
                let v: i64 = c.values[t];
                proof {
                    assert(rows[i as int].values[t as int] == v);
                    assert(-0x4000_0000_0000_0000_0000_0000_0000_0000 <= v * part
                        <= 0x4000_0000_0000_0000_0000_0000_0000_0000) by (nonlinear_arith)
                        requires
                            -0x8000_0000_0000_0000 <= v <= 0x7fff_ffff_ffff_ffff,
                            0 < part <= 0x7fff_ffff_ffff_ffff,
                    ;
                }
                let q: i128 = floor_div(v as i128 * part as i128, whole as i128);
                if q < -0x8000_0000_0000_0000 || q > 0x7fff_ffff_ffff_ffff {
                    assert(!fits(share_of(rows[i as int].values[t as int], part as int, whole as int)));
                    return false;
                }
                t = t + 1;
            }
        }
        i = i + 1;
    }
    true
}

/// Whether the partition for a service can be computed in stored
/// quantities: whether `components_by_service` may be called.
pub fn can_partition(components: &Components, service: Service) -> (r: bool)
    ensures
        r == partitionable(components@.cdata, service),
{
    if !load_fits(&components.cdata) {
        return false;
    }
    let (whole, part) = electricity_totals(&components.cdata, service);
    if whole > 0 && part > 0 {
        shares_can_fit(&components.cdata, part, whole)
    } else {
        true
    }
}

} // verus!
