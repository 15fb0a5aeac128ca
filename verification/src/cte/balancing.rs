//! Balancing of ambient energy: what a service takes from the environment
//! and no declared production accounts for is added as a production on
//! site, so that every such use has its counterpart.

use vstd::prelude::*;
use crate::components::{
    Component, ComponentRow, Components, ComponentsView, component_rows, copy_values,
};
use crate::distinct::{
    distinct, distinct_codes, lemma_distinct_contains, lemma_distinct_map,
    lemma_distinct_no_duplicates,
};
use crate::error::EpbdError;
use crate::fixed::{all_fit, fits, ints};
use crate::tables::parsed_components;
use crate::types::{CSubtype, CType, Carrier, Service};
use crate::vecops::{
    at, lemma_column_beyond, list_sum, longer, seq_dif, series_of, total, veclistsum,
    vecvecdif, wide_column, wide_total, widest, widest_of,
};

verus! {

/// Comment of a production added to balance a use of ambient energy.
pub const BALANCING_COMMENT: &'static str =
    "Equilibrado de energía térmica insitu consumida y sin producción declarada";

/// Whether a component is ambient energy of a service and of a type.
pub open spec fn is_ambient(r: ComponentRow, service: Service, ctype: CType) -> bool {
    r.carrier == Carrier::MEDIOAMBIENTE && r.service == service && r.ctype == ctype
}

/// The series of the ambient energy components of a service and of a type,
/// in their order.
pub open spec fn ambient_series(rows: Seq<ComponentRow>, service: Service, ctype: CType) -> Seq<
    Seq<int>,
>
    decreases rows.len(),
{
    if rows.len() == 0 {
        Seq::empty()
    } else if is_ambient(rows.last(), service, ctype) {
        ambient_series(rows.drop_last(), service, ctype).push(rows.last().values)
    } else {
        ambient_series(rows.drop_last(), service, ctype)
    }
}

/// The services of the ambient energy components, component by component.
pub open spec fn ambient_services(rows: Seq<ComponentRow>) -> Seq<Service>
    decreases rows.len(),
{
    if rows.len() == 0 {
        Seq::empty()
    } else if rows.last().carrier == Carrier::MEDIOAMBIENTE {
        ambient_services(rows.drop_last()).push(rows.last().service)
    } else {
        ambient_services(rows.drop_last())
    }
}

/// A series with its negative entries replaced by zero.
pub open spec fn clamped(s: Seq<int>) -> Seq<int> {
    Seq::new(
        s.len(),
        |i: int|
            if s[i] > 0 {
                s[i]
            } else {
                0
            },
    )
}

/// Ambient energy used by a service, step by step: the sum of its uses.
pub open spec fn ambient_used(rows: Seq<ComponentRow>, service: Service) -> Seq<int> {
    list_sum(ambient_series(rows, service, CType::CONSUMO))
}

/// Ambient energy produced for a service, step by step: the sum of its
/// declared productions.
pub open spec fn ambient_made(rows: Seq<ComponentRow>, service: Service) -> Seq<int> {
    list_sum(ambient_series(rows, service, CType::PRODUCCION))
}

/// What a service uses of ambient energy beyond what is produced for it,
/// step by step. Without any declared production it is the use itself;
/// with one, the production is taken off and what falls below zero counts
/// as zero.
pub open spec fn deficit(rows: Seq<ComponentRow>, service: Service) -> Seq<int> {
    if ambient_series(rows, service, CType::PRODUCCION).len() == 0 {
        ambient_used(rows, service)
    } else {
        clamped(seq_dif(ambient_used(rows, service), ambient_made(rows, service)))
    }
}

/// The production that balances the ambient energy of a service: none
/// where the service uses no ambient energy or its deficit sums to zero
/// over the period.
pub open spec fn balancing_row(rows: Seq<ComponentRow>, service: Service) -> Option<ComponentRow> {
    if ambient_series(rows, service, CType::CONSUMO).len() == 0 || total(deficit(rows, service))
        == 0 {
        None
    } else {
        Some(
            ComponentRow {
                carrier: Carrier::MEDIOAMBIENTE,
                ctype: CType::PRODUCCION,
                csubtype: CSubtype::INSITU,
                service,
                values: deficit(rows, service),
                comment: BALANCING_COMMENT@,
            },
        )
    }
}

/// The balancing productions of a list of services, in the order of the
/// services.
pub open spec fn balancing_rows(rows: Seq<ComponentRow>, services: Seq<Service>) -> Seq<
    ComponentRow,
>
    decreases services.len(),
{
    if services.len() == 0 {
        Seq::empty()
    } else {
        match balancing_row(rows, services.last()) {
            Some(r) => balancing_rows(rows, services.drop_last()).push(r),
            None => balancing_rows(rows, services.drop_last()),
        }
    }
}

/// The components followed by the balancing productions of the services
/// that have ambient energy components, each service once, in the order in
/// which the services first appear.
pub open spec fn balanced(rows: Seq<ComponentRow>) -> Seq<ComponentRow> {
    rows + balancing_rows(rows, distinct(ambient_services(rows)))
}

/// Whether the ambient energy of a service can be balanced in stored
/// quantities: where the service uses ambient energy, its use, its
/// production and their difference fit at every step.
pub open spec fn balanceable_for(rows: Seq<ComponentRow>, service: Service) -> bool {
    ambient_series(rows, service, CType::CONSUMO).len() > 0 ==> {
        &&& all_fit(ambient_used(rows, service))
        &&& all_fit(ambient_made(rows, service))
        &&& all_fit(seq_dif(ambient_used(rows, service), ambient_made(rows, service)))
    }
}

/// Whether the ambient energy of every service can be balanced in stored
/// quantities.
pub open spec fn balanceable(rows: Seq<ComponentRow>) -> bool {
    forall|service: Service| #[trigger] balanceable_for(rows, service)
}

/// The series of the ambient energy components of a service and of a type.
fn collect_ambient(cdata: &Vec<Component>, service: Service, ctype: CType) -> (r: Vec<Vec<i64>>)
    ensures
        series_of(r@) == ambient_series(component_rows(cdata@), service, ctype),
{
    let mut out: Vec<Vec<i64>> = Vec::new();
    let n: usize = cdata.len();
    let mut i: usize = 0;
    let ghost rows = component_rows(cdata@);
    assert(rows.take(0) =~= Seq::<ComponentRow>::empty());
    assert(series_of(out@) =~= Seq::<Seq<int>>::empty());
    while i < n
        invariant
            i <= n,
            n == cdata.len(),
            rows == component_rows(cdata@),
            series_of(out@) == ambient_series(rows.take(i as int), service, ctype),
        decreases n - i,
    {
        proof {
            assert(rows.take(i + 1).drop_last() =~= rows.take(i as int));
            assert(rows.take(i + 1).last() == cdata[i as int]@);
        }
        let c: &Component = &cdata[i];
        if c.carrier == Carrier::MEDIOAMBIENTE && c.service == service && c.ctype == ctype {
            let ghost before = series_of(out@);
            out.push(copy_values(&c.values));
            assert(series_of(out@) =~= before.push(ints(c.values@)));
        }
        i = i + 1;
    }
    assert(rows.take(n as int) =~= rows);
    out
}

/// The services of the ambient energy components as codes.
fn ambient_service_codes(cdata: &Vec<Component>) -> (r: Vec<u8>)
    ensures
        r@ == ambient_services(component_rows(cdata@)).map_values(|s: Service| s.code_spec()),
{
    let mut out: Vec<u8> = Vec::new();
    let n: usize = cdata.len();
    let mut i: usize = 0;
    let ghost rows = component_rows(cdata@);
    assert(rows.take(0) =~= Seq::<ComponentRow>::empty());
    assert(out@ =~= ambient_services(rows.take(0)).map_values(|s: Service| s.code_spec()));
    while i < n
        invariant
            i <= n,
            n == cdata.len(),
            rows == component_rows(cdata@),
            out@ == ambient_services(rows.take(i as int)).map_values(|s: Service| s.code_spec()),
        decreases n - i,
    {
        proof {
            assert(rows.take(i + 1).drop_last() =~= rows.take(i as int));
            assert(rows.take(i + 1).last() == cdata[i as int]@);
        }
        if cdata[i].carrier == Carrier::MEDIOAMBIENTE {
            let ghost before = ambient_services(rows.take(i as int));
            out.push(cdata[i].service.code());
            assert(out@ =~= before.push(cdata[i as int].service).map_values(
                |s: Service| s.code_spec(),
            ));
        }
        i = i + 1;
    }
    assert(rows.take(n as int) =~= rows);
    out
}

/// A series with its negative entries replaced by zero.
fn clamp_zero(values: &Vec<i64>) -> (r: Vec<i64>)
    ensures
        ints(r@) == clamped(ints(values@)),
{
    let mut out: Vec<i64> = Vec::new();
    let n: usize = values.len();
    let mut i: usize = 0;
    while i < n
        invariant
            i <= n,
            n == values.len(),
            out.len() == i,
            forall|j: int| 0 <= j < i ==> #[trigger] out[j] == clamped(ints(values@))[j],
        decreases n - i,
    {
        let v: i64 = values[i];
        if v > 0 {
            out.push(v);
        } else {
            out.push(0);
        }
        i = i + 1;
    }
    assert(ints(out@) =~= clamped(ints(values@)));
    out
}

/// The production that balances the ambient energy of a service, if one
/// is needed.
fn balancing_component(cdata: &Vec<Component>, service: Service) -> (r: Option<Component>)
    requires
        balanceable_for(component_rows(cdata@), service),
    ensures
        match r {
            Some(c) => balancing_row(component_rows(cdata@), service) == Some(c@),
            None => balancing_row(component_rows(cdata@), service) == None::<ComponentRow>,
        },
{
    let consumed: Vec<Vec<i64>> = collect_ambient(cdata, service, CType::CONSUMO);
    if consumed.len() == 0 {
        return None;
    }
    let mut unbalanced: Vec<i64> = veclistsum(consumed.as_slice());
    let produced: Vec<Vec<i64>> = collect_ambient(cdata, service, CType::PRODUCCION);
    if produced.len() != 0 {
        let made: Vec<i64> = veclistsum(produced.as_slice());
        let open: Vec<i64> = vecvecdif(unbalanced.as_slice(), made.as_slice());
        unbalanced = clamp_zero(&open);
    }
    if wide_total(unbalanced.as_slice()) == 0 {
        return None;
    }
    Some(
        Component {
            carrier: Carrier::MEDIOAMBIENTE,
            ctype: CType::PRODUCCION,
            csubtype: CSubtype::INSITU,
            service,
            values: unbalanced,
            comment: String::from_str(BALANCING_COMMENT),
        },
    )
}

/// Adds, for each service that uses more ambient energy than is produced
/// for it, a production on site of what is missing.
///
/// The components that were there stay, in their order, and the balancing
/// productions follow them: they are those of `balanced`. The metadata is
/// untouched.
pub fn fix_components(components: &mut Components)
    requires
        balanceable(old(components)@.cdata),
    ensures
        final(components)@.cdata == balanced(old(components)@.cdata),
        final(components)@.cmeta == old(components)@.cmeta,
{
    let ghost rows = components@.cdata;
    let ghost services = distinct(ambient_services(rows));
    let codes: Vec<u8> = ambient_service_codes(&components.cdata);
    let present: Vec<u8> = distinct_codes(&codes);
    proof {
        assert forall|a: Service, b: Service| a.code_spec() == b.code_spec() implies a == b by {
            assert(Service::of_code(a.code_spec()) == Some(a));
            assert(Service::of_code(b.code_spec()) == Some(b));
        }
        lemma_distinct_map(ambient_services(rows), |s: Service| s.code_spec());
    }
    let mut extra: Vec<Component> = Vec::new();
    let n: usize = present.len();
    let mut k: usize = 0;
    assert(services.take(0) =~= Seq::<Service>::empty());
    assert(component_rows(extra@) =~= Seq::<ComponentRow>::empty());
    while k < n
        invariant
            k <= n,
            n == present.len(),
            n == services.len(),
            rows == component_rows(components.cdata@),
            balanceable(rows),
            present@ == services.map_values(|s: Service| s.code_spec()),
            component_rows(extra@) == balancing_rows(rows, services.take(k as int)),
        decreases n - k,
    {
        proof {
            assert(services.take(k + 1).drop_last() =~= services.take(k as int));
            assert(present[k as int] == services[k as int].code_spec());
        }
        match Service::from_code(present[k]) {
            Some(service) => {
                assert(balanceable_for(rows, service));
                match balancing_component(&components.cdata, service) {
                    Some(c) => {
                        let ghost before = component_rows(extra@);
                        extra.push(c);
                        assert(component_rows(extra@) =~= before.push(c@));
                    },
                    None => {},
                }
            },
            None => {},
        }
        k = k + 1;
    }
    assert(services.take(n as int) =~= services);
    let ghost added = component_rows(extra@);
    components.cdata.append(&mut extra);
    assert(component_rows(components.cdata@) =~= rows + added);
}

/// What balancing adds for a service, step by step: the series of its
/// balancing production, or nothing where it has none.
pub open spec fn synthetic(rows: Seq<ComponentRow>, service: Service) -> Seq<int> {
    match balancing_row(rows, service) {
        Some(r) => r.values,
        None => Seq::empty(),
    }
}

/// A series without negative entries that sums to zero is zero throughout.
proof fn lemma_total_zero(s: Seq<int>, i: int)
    requires
        forall|j: int| 0 <= j < s.len() ==> #[trigger] s[j] >= 0,
        total(s) == 0,
        0 <= i < s.len(),
    ensures
        s[i] == 0,
    decreases s.len(),
{
    lemma_total_nonnegative(s.drop_last());
    assert(s[s.len() - 1] >= 0);
    if i < s.len() - 1 {
        lemma_total_zero(s.drop_last(), i);
    }
}

/// A series without negative entries has no negative sum.
proof fn lemma_total_nonnegative(s: Seq<int>)
    requires
        forall|j: int| 0 <= j < s.len() ==> #[trigger] s[j] >= 0,
    ensures
        total(s) >= 0,
    decreases s.len(),
{
    if s.len() > 0 {
        lemma_total_nonnegative(s.drop_last());
        assert(s[s.len() - 1] >= 0);
    }
}

/// Balancing closes the deficit of a service that uses ambient energy: at
/// every step what the service uses is at most what is produced for it
/// together with what balancing adds, and balancing adds nothing at a step
/// at which the declared production already covers the use.
///
/// Where no production is declared for the service this asks that its use
/// is not negative at any step: the use itself is then what balancing adds,
/// and only if it does not sum to zero.
pub proof fn lemma_balancing_closes_deficit(rows: Seq<ComponentRow>, service: Service, t: int)
    requires
        ambient_series(rows, service, CType::CONSUMO).len() > 0,
        ambient_series(rows, service, CType::PRODUCCION).len() > 0 || forall|u: int|
            0 <= u < ambient_used(rows, service).len() ==> #[trigger] ambient_used(
                rows,
                service,
            )[u] >= 0,
    ensures
        at(ambient_used(rows, service), t) <= at(ambient_made(rows, service), t) + at(
            synthetic(rows, service),
            t,
        ),
        at(ambient_made(rows, service), t) >= at(ambient_used(rows, service), t) ==> at(
            synthetic(rows, service),
            t,
        ) == 0,
{
    let used = ambient_used(rows, service);
    let made = ambient_made(rows, service);
    let d = deficit(rows, service);
    if ambient_series(rows, service, CType::PRODUCCION).len() == 0 {
        assert(made.len() == 0);
        if total(d) == 0 && 0 <= t < d.len() {
            lemma_total_zero(d, t);
        }
    } else {
        if total(d) == 0 && 0 <= t < d.len() {
            lemma_total_zero(d, t);
        }
    }
}

/// Whether a wide number can be stored as a quantity.
fn fits_quantity(x: i128) -> (r: bool)
    ensures
        r == fits(x as int),
{
    -0x8000_0000_0000_0000 <= x && x <= 0x7fff_ffff_ffff_ffff
}

/// Whether the ambient energy of a service can be balanced in stored
/// quantities.
fn can_balance_service(cdata: &Vec<Component>, service: Service) -> (r: bool)
    ensures
        r == balanceable_for(component_rows(cdata@), service),
{
    let ghost rows = component_rows(cdata@);
    let consumed: Vec<Vec<i64>> = collect_ambient(cdata, service, CType::CONSUMO);
    if consumed.len() == 0 {
        return true;
    }
    let produced: Vec<Vec<i64>> = collect_ambient(cdata, service, CType::PRODUCCION);
    let wc: usize = widest_of(consumed.as_slice());
    let wp: usize = widest_of(produced.as_slice());
    let n: usize = if wc >= wp {
        wc
    } else {
        wp
    };
    let ghost used = ambient_used(rows, service);
    let ghost made = ambient_made(rows, service);
    let ghost open = seq_dif(used, made);
    let mut t: usize = 0;
    while t < n
        invariant
            t <= n,
            n == longer(wc as nat, wp as nat),
            rows == component_rows(cdata@),
            consumed.len() > 0,
            series_of(consumed@) == ambient_series(rows, service, CType::CONSUMO),
            series_of(produced@) == ambient_series(rows, service, CType::PRODUCCION),
            used == ambient_used(rows, service),
            made == ambient_made(rows, service),
            used == list_sum(series_of(consumed@)),
            made == list_sum(series_of(produced@)),
            used.len() == wc,
            made.len() == wp,
            open == seq_dif(used, made),
            forall|j: int| 0 <= j < t && j < used.len() ==> fits(#[trigger] used[j]),
            forall|j: int| 0 <= j < t && j < made.len() ==> fits(#[trigger] made[j]),
            forall|j: int| 0 <= j < t ==> fits(#[trigger] open[j]),
        decreases n - t,
    {
        let c: i128 = wide_column(consumed.as_slice(), t);
        let p: i128 = wide_column(produced.as_slice(), t);
        proof {
            if t >= wc {
                lemma_column_beyond(series_of(consumed@), t as int);
            }
            if t >= wp {
                lemma_column_beyond(series_of(produced@), t as int);
            }
            assert(at(used, t as int) == c);
            assert(at(made, t as int) == p);
            assert(open[t as int] == c - p);
        }
        if !fits_quantity(c) || !fits_quantity(p) {
            proof {
                if !fits(c as int) {
                    assert(t < wc);
                    assert(!fits(used[t as int]));
                } else {
                    assert(t < wp);
                    assert(!fits(made[t as int]));
                }
            }
            return false;
        }
        if !fits_quantity(c - p) {
            assert(!fits(open[t as int]));
            return false;
        }
        t = t + 1;
    }
    true
}

/// Whether the ambient energy of every service can be balanced in stored
/// quantities: whether `fix_components` may be called.
pub fn can_balance(components: &Components) -> (r: bool)
    ensures
        r == balanceable(components@.cdata),
{
    let ghost rows = components@.cdata;
    let ok: bool = can_balance_service(&components.cdata, Service::ACS) && can_balance_service(
        &components.cdata,
        Service::CAL,
    ) && can_balance_service(&components.cdata, Service::REF) && can_balance_service(
        &components.cdata,
        Service::VEN,
    ) && can_balance_service(&components.cdata, Service::ILU) && can_balance_service(
        &components.cdata,
        Service::HU,
    ) && can_balance_service(&components.cdata, Service::DHU) && can_balance_service(
        &components.cdata,
        Service::BAC,
    ) && can_balance_service(&components.cdata, Service::NDEF);
    proof {
        if ok {
            assert forall|service: Service| #[trigger] balanceable_for(rows, service) by {
                match service {
                    Service::ACS => {},
                    Service::CAL => {},
                    Service::REF => {},
                    Service::VEN => {},
                    Service::ILU => {},
                    Service::HU => {},
                    Service::DHU => {},
                    Service::BAC => {},
                    Service::NDEF => {},
                }
            }
        }
    }
    ok
}

/// Reads components from a text and balances their ambient energy.
///
/// A malformed line is handed back in the error. Components whose ambient
/// energy cannot be balanced in stored quantities are refused as out of
/// range. Otherwise the metadata is that of the text and the components are
/// those of the text, balanced.
pub fn parse_components(datastring: &str) -> (r: Result<Components, EpbdError>)
    ensures
        match parsed_components(datastring@) {
            Err(line) => r matches Err(EpbdError::MalformedRecord { record }) && record@ == line,
            Ok(given) => if balanceable(given.cdata) {
                r matches Ok(c) && c@ == (ComponentsView {
                    cmeta: given.cmeta,
                    cdata: balanced(given.cdata),
                })
            } else {
                r matches Err(EpbdError::QuantityOutOfRange)
            },
        },
{
    match Components::parse(datastring) {
        Err(e) => Err(e),
        Ok(components) => {
            let mut components: Components = components;
            if can_balance(&components) {
                fix_components(&mut components);
                Ok(components)
            } else {
                Err(EpbdError::QuantityOutOfRange)
            }
        },
    }
}

/// The ambient series of components that follow one another are those of
/// the first followed by those of the second.
proof fn lemma_ambient_series_concat(
    a: Seq<ComponentRow>,
    b: Seq<ComponentRow>,
    service: Service,
    ctype: CType,
)
    ensures
        ambient_series(a + b, service, ctype) == ambient_series(a, service, ctype)
            + ambient_series(b, service, ctype),
    decreases b.len(),
{
    if b.len() == 0 {
        assert(a + b =~= a);
        assert(ambient_series(a, service, ctype) + Seq::<Seq<int>>::empty() =~= ambient_series(
            a,
            service,
            ctype,
        ));
    } else {
        lemma_ambient_series_concat(a, b.drop_last(), service, ctype);
        assert((a + b).drop_last() =~= a + b.drop_last());
        assert((a + b).last() == b.last());
        if is_ambient(b.last(), service, ctype) {
            assert(ambient_series(a, service, ctype) + ambient_series(
                b.drop_last(),
                service,
                ctype,
            ).push(b.last().values) =~= (ambient_series(a, service, ctype) + ambient_series(
                b.drop_last(),
                service,
                ctype,
            )).push(b.last().values));
        }
    }
}

/// The services of the ambient energy components hold the service of each
/// such component.
proof fn lemma_ambient_services_hold(rows: Seq<ComponentRow>, i: int)
    requires
        0 <= i < rows.len(),
        rows[i].carrier == Carrier::MEDIOAMBIENTE,
    ensures
        ambient_services(rows).contains(rows[i].service),
    decreases rows.len(),
{
    let front = rows.drop_last();
    if i < rows.len() - 1 {
        lemma_ambient_services_hold(front, i);
        let k = choose|k: int|
            0 <= k < ambient_services(front).len() && ambient_services(front)[k]
                == rows[i].service;
        assert(ambient_services(rows)[k] == rows[i].service);
    } else {
        let n = ambient_services(front).len() as int;
        assert(ambient_services(rows)[n] == rows[i].service);
    }
}

/// A service with an ambient series of some type is among the services of
/// the ambient energy components.
proof fn lemma_series_service(rows: Seq<ComponentRow>, service: Service, ctype: CType)
    requires
        ambient_series(rows, service, ctype).len() > 0,
    ensures
        ambient_services(rows).contains(service),
    decreases rows.len(),
{
    if is_ambient(rows.last(), service, ctype) {
        lemma_ambient_services_hold(rows, rows.len() - 1);
    } else {
        lemma_series_service(rows.drop_last(), service, ctype);
        let front = rows.drop_last();
        let k = choose|k: int|
            0 <= k < ambient_services(front).len() && ambient_services(front)[k] == service;
        assert(ambient_services(rows)[k] == service);
    }
}

/// Among the balancing productions of services that are all different,
/// those of one service are its own balancing production, if it has one
/// and is among the services; and none of them is a use.
proof fn lemma_balancing_rows_series(
    rows: Seq<ComponentRow>,
    services: Seq<Service>,
    service: Service,
)
    requires
        services.no_duplicates(),
    ensures
        ambient_series(balancing_rows(rows, services), service, CType::CONSUMO).len() == 0,
        ambient_series(balancing_rows(rows, services), service, CType::PRODUCCION) == if services.contains(
            service,
        ) && balancing_row(rows, service) is Some {
            seq![deficit(rows, service)]
        } else {
            Seq::<Seq<int>>::empty()
        },
    decreases services.len(),
{
    if services.len() > 0 {
        let front = services.drop_last();
        let last = services.last();
        assert(front.no_duplicates()) by {
            assert forall|i: int, j: int| 0 <= i < front.len() && 0 <= j < front.len() && i
                != j implies front[i] != front[j] by {
                assert(front[i] == services[i] && front[j] == services[j]);
            }
        }
        lemma_balancing_rows_series(rows, front, service);
        let before = balancing_rows(rows, front);
        assert(!front.contains(last)) by {
            if front.contains(last) {
                let k = choose|k: int| 0 <= k < front.len() && front[k] == last;
                assert(services[k] == services[services.len() - 1]);
            }
        }
        if front.contains(service) {
            let k = choose|k: int| 0 <= k < front.len() && front[k] == service;
            assert(services[k] == service);
        }
        if services.contains(service) && service != last {
            let k = choose|k: int| 0 <= k < services.len() && services[k] == service;
            assert(front[k] == service);
        }
        if last == service {
            assert(services[services.len() - 1] == service);
        }
        match balancing_row(rows, last) {
            Some(r) => {
                assert(before.push(r).drop_last() =~= before);
                assert(before.push(r).last() == r);
                if last == service {
                    assert(Seq::<Seq<int>>::empty().push(r.values) =~= seq![deficit(rows, service)]);
                }
            },
            None => {},
        }
    }
}

/// The sum of a list of series with one more series at its end is, step by
/// step, the sum of the list and the new series.
proof fn lemma_list_sum_push(list: Seq<Seq<int>>, x: Seq<int>, t: int)
    ensures
        at(list_sum(list.push(x)), t) == at(list_sum(list), t) + at(x, t),
{
    assert(list.push(x).drop_last() =~= list);
    if t < 0 || t >= widest(list) {
        lemma_column_beyond(list, t);
    }
    if t < 0 || t >= widest(list.push(x)) {
        lemma_column_beyond(list.push(x), t);
    }
}

/// After balancing, the ambient energy produced for a service that uses
/// ambient energy covers its use at every step.
///
/// Where no production is declared for the service this asks that its use
/// is not negative at any step, as `lemma_balancing_closes_deficit` does.
pub proof fn lemma_balanced_covers(rows: Seq<ComponentRow>, service: Service, t: int)
    requires
        ambient_series(rows, service, CType::CONSUMO).len() > 0,
        ambient_series(rows, service, CType::PRODUCCION).len() > 0 || forall|u: int|
            0 <= u < ambient_used(rows, service).len() ==> #[trigger] ambient_used(
                rows,
                service,
            )[u] >= 0,
    ensures
        at(ambient_used(balanced(rows), service), t) <= at(
            ambient_made(balanced(rows), service),
            t,
        ),
{
    let services = distinct(ambient_services(rows));
    let extra = balancing_rows(rows, services);
    lemma_distinct_no_duplicates(ambient_services(rows));
    lemma_series_service(rows, service, CType::CONSUMO);
    lemma_distinct_contains(ambient_services(rows), service);
    lemma_balancing_rows_series(rows, services, service);
    lemma_ambient_series_concat(rows, extra, service, CType::CONSUMO);
    lemma_ambient_series_concat(rows, extra, service, CType::PRODUCCION);
    lemma_balancing_closes_deficit(rows, service, t);
    let used = ambient_series(rows, service, CType::CONSUMO);
    let made = ambient_series(rows, service, CType::PRODUCCION);
    assert(ambient_series(balanced(rows), service, CType::CONSUMO) =~= used);
    if balancing_row(rows, service) is Some {
        assert(ambient_series(balanced(rows), service, CType::PRODUCCION) =~= made.push(
            deficit(rows, service),
        ));
        lemma_list_sum_push(made, deficit(rows, service), t);
    } else {
        assert(ambient_series(balanced(rows), service, CType::PRODUCCION) =~= made);
    }
}

} // verus!
