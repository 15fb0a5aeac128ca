use cteepbd::components::{Component, Components};
use cteepbd::cte::balancing::fix_components;
use cteepbd::cte::partition::components_by_service;
use cteepbd::cte::perimeter::wfactors_to_nearby;
use cteepbd::cte::pruning::strip_wfactors;
use cteepbd::cte::render::escape_xml;
use cteepbd::meta::Meta;
use cteepbd::types::CSubtype::{self, EPB, NEPB};
use cteepbd::types::CType::{self, CONSUMO, PRODUCCION};
use cteepbd::types::Carrier::{
    self, BIOCARBURANTE, BIOMASA, BIOMASADENSIFICADA, ELECTRICIDAD, GASNATURAL, MEDIOAMBIENTE, RED1,
    RED2,
};
use cteepbd::types::Dest::{A_NEPB, A_RED, SUMINISTRO};
use cteepbd::types::Service::{self, ACS, CAL, ILU, NDEF, REF};
use cteepbd::types::Source::{self, COGENERACION, INSITU, RED};
use cteepbd::types::Step::{A, B};
use cteepbd::wfactors::{Factor, Factors};

const BALANCING: &str = "Equilibrado de energía térmica insitu consumida y sin producción declarada";

fn comp(carrier: Carrier, ctype: CType, csubtype: CSubtype, service: Service, values: &[i64]) -> Component {
    Component { carrier, ctype, csubtype, service, values: values.to_vec(), comment: String::new() }
}

fn commented(mut c: Component, comment: &str) -> Component {
    c.comment = comment.to_string();
    c
}

fn list(cdata: Vec<Component>) -> Components {
    Components { cmeta: Vec::new(), cdata }
}

fn balancing(service: Service, values: &[i64]) -> Component {
    commented(comp(MEDIOAMBIENTE, PRODUCCION, CSubtype::INSITU, service, values), BALANCING)
}

fn meta(key: &str, value: &str) -> Meta {
    Meta { key: key.to_string(), value: value.to_string() }
}

#[test]
fn ambient_use_without_production_is_balanced_in_full() {
    let given = vec![comp(MEDIOAMBIENTE, CONSUMO, EPB, CAL, &[10, 10])];
    let mut c = list(given.clone());
    fix_components(&mut c);
    let mut expected = given;
    expected.push(balancing(CAL, &[10, 10]));
    assert_eq!(expected, c.cdata);
    assert!(c.cmeta.is_empty());
}

#[test]
fn ambient_use_is_balanced_by_what_production_leaves_open() {
    let given = vec![
        comp(MEDIOAMBIENTE, CONSUMO, EPB, CAL, &[10, 10, 10]),
        comp(MEDIOAMBIENTE, PRODUCCION, CSubtype::INSITU, CAL, &[4, 10, 25]),
        comp(MEDIOAMBIENTE, CONSUMO, EPB, CAL, &[1, 2, 3]),
    ];
    let mut c = list(given.clone());
    fix_components(&mut c);
    let mut expected = given;
    expected.push(balancing(CAL, &[7, 2, 0]));
    assert_eq!(expected, c.cdata);
}

#[test]
fn ambient_use_covered_by_production_adds_nothing() {
    let given = vec![
        comp(MEDIOAMBIENTE, CONSUMO, EPB, ACS, &[10, 10]),
        comp(MEDIOAMBIENTE, PRODUCCION, CSubtype::INSITU, ACS, &[10, 12]),
        comp(MEDIOAMBIENTE, PRODUCCION, CSubtype::INSITU, REF, &[5, 5]),
        comp(ELECTRICIDAD, CONSUMO, EPB, ACS, &[99, 99]),
        comp(MEDIOAMBIENTE, CONSUMO, EPB, ILU, &[0, 0]),
    ];
    let mut c = list(given.clone());
    fix_components(&mut c);
    assert_eq!(given, c.cdata);
    let mut none = list(Vec::new());
    fix_components(&mut none);
    assert!(none.cdata.is_empty());
}

#[test]
fn each_service_is_balanced_once_in_the_order_of_first_appearance() {
    let given = vec![
        comp(MEDIOAMBIENTE, CONSUMO, EPB, REF, &[1, 1]),
        comp(MEDIOAMBIENTE, CONSUMO, EPB, CAL, &[10, 10]),
        comp(MEDIOAMBIENTE, CONSUMO, EPB, REF, &[2, 2]),
        comp(GASNATURAL, CONSUMO, EPB, ACS, &[50, 50]),
        comp(MEDIOAMBIENTE, PRODUCCION, CSubtype::INSITU, ACS, &[3, 3]),
        comp(MEDIOAMBIENTE, CONSUMO, NEPB, CAL, &[5, 0]),
        comp(MEDIOAMBIENTE, CONSUMO, EPB, ACS, &[4, 1]),
    ];
    let mut c = list(given.clone());
    fix_components(&mut c);
    let mut expected = given;
    expected.push(balancing(REF, &[3, 3]));
    expected.push(balancing(CAL, &[15, 10]));
    expected.push(balancing(ACS, &[1, 0]));
    assert_eq!(expected, c.cdata);
}

#[test]
fn balancing_twice_adds_nothing_more() {
    let mut c = list(vec![
        comp(MEDIOAMBIENTE, CONSUMO, EPB, CAL, &[10, 10, 10]),
        comp(MEDIOAMBIENTE, PRODUCCION, CSubtype::INSITU, CAL, &[4, 10, 25]),
        comp(MEDIOAMBIENTE, CONSUMO, EPB, ACS, &[7]),
    ]);
    fix_components(&mut c);
    let once = c.clone();
    fix_components(&mut c);
    assert_eq!(once, c);
}

#[test]
fn balancing_closes_the_deficit_at_every_step() {
    let used = [10i64, 0, 7, 3, 0];
    let made = [4i64, 5, 7, 9];
    let mut c = list(vec![
        comp(MEDIOAMBIENTE, CONSUMO, EPB, CAL, &used),
        comp(MEDIOAMBIENTE, PRODUCCION, CSubtype::INSITU, CAL, &made),
    ]);
    fix_components(&mut c);
    let added = &c.cdata[2].values;
    for t in 0..5 {
        let u = used[t];
        let m = made.get(t).copied().unwrap_or(0);
        let a = added.get(t).copied().unwrap_or(0);
        assert!(u <= m + a);
        if m >= u {
            assert_eq!(0, a);
        }
    }
    assert_eq!(&vec![6, 0, 0, 0, 0], added);
}

#[test]
fn series_of_different_length_are_balanced_over_the_longest() {
    let given = vec![
        comp(MEDIOAMBIENTE, CONSUMO, EPB, CAL, &[10]),
        comp(MEDIOAMBIENTE, CONSUMO, EPB, CAL, &[1, 2, 3]),
        comp(MEDIOAMBIENTE, PRODUCCION, CSubtype::INSITU, CAL, &[1, 1, 1, 1]),
    ];
    let mut c = list(given);
    fix_components(&mut c);
    assert_eq!(balancing(CAL, &[10, 1, 2, 0]), c.cdata[3]);
}

fn partition_data() -> Components {
    Components {
        cmeta: vec![meta("CTE_AREAREF", "100"), meta("CTE_PERIMETRO", "DISTANT")],
        cdata: vec![
            comp(ELECTRICIDAD, CONSUMO, EPB, ACS, &[10, 20]),
            comp(ELECTRICIDAD, CONSUMO, EPB, CAL, &[30, 40]),
            comp(ELECTRICIDAD, CONSUMO, NEPB, NDEF, &[100, 100]),
            commented(comp(ELECTRICIDAD, PRODUCCION, CSubtype::INSITU, NDEF, &[100, 50, 7]), "PV"),
            comp(GASNATURAL, CONSUMO, EPB, ACS, &[5, 5]),
            comp(ELECTRICIDAD, PRODUCCION, CSubtype::INSITU, ACS, &[1, 1]),
            comp(ELECTRICIDAD, PRODUCCION, CSubtype::COGENERACION, NDEF, &[9, 9]),
            comp(MEDIOAMBIENTE, PRODUCCION, CSubtype::INSITU, NDEF, &[8, 8]),
            commented(comp(ELECTRICIDAD, PRODUCCION, CSubtype::INSITU, NDEF, &[-10, 0]), ""),
        ],
    }
}

#[test]
fn a_service_gets_its_share_of_the_free_production() {
    let all = partition_data();
    let acs = components_by_service(&all, ACS);
    let expected = vec![
        comp(ELECTRICIDAD, CONSUMO, EPB, ACS, &[10, 20]),
        comp(GASNATURAL, CONSUMO, EPB, ACS, &[5, 5]),
        comp(ELECTRICIDAD, PRODUCCION, CSubtype::INSITU, ACS, &[1, 1]),
        commented(
            comp(ELECTRICIDAD, PRODUCCION, CSubtype::INSITU, ACS, &[10, 5, 0]),
            "PV Producción insitu proporcionalmente reasignada al servicio.",
        ),
        commented(
            comp(ELECTRICIDAD, PRODUCCION, CSubtype::INSITU, ACS, &[-1, 0]),
            " Producción insitu proporcionalmente reasignada al servicio.",
        ),
    ];
    assert_eq!(expected, acs.cdata);
    assert_eq!(
        vec![meta("CTE_AREAREF", "100"), meta("CTE_PERIMETRO", "NEARBY"), meta("CTE_SERVICIO", "ACS")],
        acs.cmeta
    );
}

#[test]
fn shares_are_rounded_down() {
    let all = list(vec![
        comp(ELECTRICIDAD, CONSUMO, EPB, ACS, &[1]),
        comp(ELECTRICIDAD, CONSUMO, EPB, CAL, &[2]),
        comp(ELECTRICIDAD, PRODUCCION, CSubtype::INSITU, NDEF, &[10, -10, 3, 0, 2]),
    ]);
    let acs = components_by_service(&all, ACS);
    assert_eq!(vec![3, -4, 1, 0, 0], acs.cdata[1].values);
    let cal = components_by_service(&all, CAL);
    assert_eq!(vec![6, -7, 2, 0, 1], cal.cdata[1].values);
}

#[test]
fn shares_of_all_services_sum_to_what_was_produced() {
    let produced = [1000i64, 999, 1, 0, 37, 500];
    let all = list(vec![
        comp(ELECTRICIDAD, CONSUMO, EPB, ACS, &[10, 20]),
        comp(ELECTRICIDAD, CONSUMO, EPB, CAL, &[30, 41]),
        comp(ELECTRICIDAD, CONSUMO, EPB, REF, &[7]),
        comp(ELECTRICIDAD, CONSUMO, NEPB, NDEF, &[3, 3, 3]),
        comp(ELECTRICIDAD, PRODUCCION, CSubtype::INSITU, NDEF, &produced),
    ]);
    let services = [
        ACS,
        CAL,
        REF,
        Service::VEN,
        ILU,
        Service::HU,
        Service::DHU,
        Service::BAC,
        NDEF,
    ];
    let mut sums = vec![0i64; produced.len()];
    for s in services {
        let part = components_by_service(&all, s);
        for c in &part.cdata {
            if c.comment.ends_with("reasignada al servicio.") {
                for (t, v) in c.values.iter().enumerate() {
                    sums[t] += v;
                }
            }
        }
    }
    for t in 0..produced.len() {
        assert!(sums[t] <= produced[t]);
        assert!(produced[t] - 9 < sums[t]);
    }
    assert_eq!(vec![997, 997, 0, 0, 35, 498], sums);
}

#[test]
fn nothing_is_reassigned_without_use_of_electricity() {
    let all = partition_data();
    let ilu = components_by_service(&all, ILU);
    assert!(ilu.cdata.is_empty());
    assert_eq!(
        vec![meta("CTE_AREAREF", "100"), meta("CTE_PERIMETRO", "NEARBY"), meta("CTE_SERVICIO", "ILU")],
        ilu.cmeta
    );
    let no_use = list(vec![
        comp(ELECTRICIDAD, PRODUCCION, CSubtype::INSITU, NDEF, &[10, 10]),
        comp(GASNATURAL, CONSUMO, EPB, ACS, &[5, 5]),
    ]);
    let acs = components_by_service(&no_use, ACS);
    assert_eq!(vec![comp(GASNATURAL, CONSUMO, EPB, ACS, &[5, 5])], acs.cdata);
    let zero_total = list(vec![
        comp(ELECTRICIDAD, PRODUCCION, CSubtype::INSITU, NDEF, &[10, 10]),
        comp(ELECTRICIDAD, CONSUMO, EPB, ACS, &[5, 5]),
        comp(ELECTRICIDAD, CONSUMO, EPB, CAL, &[-5, -5]),
    ]);
    let acs = components_by_service(&zero_total, ACS);
    assert_eq!(vec![comp(ELECTRICIDAD, CONSUMO, EPB, ACS, &[5, 5])], acs.cdata);
}

#[test]
fn the_partition_for_no_service_keeps_the_free_production_too() {
    let all = list(vec![
        comp(ELECTRICIDAD, CONSUMO, EPB, NDEF, &[1]),
        comp(ELECTRICIDAD, CONSUMO, EPB, CAL, &[1]),
        comp(ELECTRICIDAD, PRODUCCION, CSubtype::INSITU, NDEF, &[10]),
    ]);
    let ndef = components_by_service(&all, NDEF);
    assert_eq!(
        vec![
            comp(ELECTRICIDAD, CONSUMO, EPB, NDEF, &[1]),
            comp(ELECTRICIDAD, PRODUCCION, CSubtype::INSITU, NDEF, &[10]),
            commented(
                comp(ELECTRICIDAD, PRODUCCION, CSubtype::INSITU, NDEF, &[5]),
                " Producción insitu proporcionalmente reasignada al servicio.",
            ),
        ],
        ndef.cdata
    );
}

fn f(carrier: Carrier, source: Source, dest: cteepbd::types::Dest, step: cteepbd::types::Step, ren: i64, nren: i64, comment: &str) -> Factor {
    Factor::new(carrier, source, dest, step, ren, nren, comment.to_string())
}

#[test]
fn the_nearby_perimeter_turns_distant_weight_into_non_renewable() {
    let t = Factors {
        wmeta: vec![meta("CTE_FUENTE", "prueba")],
        wdata: vec![
            f(ELECTRICIDAD, RED, SUMINISTRO, A, 414, 1954, "red"),
            f(ELECTRICIDAD, INSITU, SUMINISTRO, A, 1000, 0, "pv"),
            f(ELECTRICIDAD, COGENERACION, A_RED, B, 414, 1954, "cg"),
            f(GASNATURAL, RED, SUMINISTRO, A, 5, 1190, ""),
            f(BIOCARBURANTE, RED, SUMINISTRO, A, 1028, 85, "bio"),
            f(BIOMASA, RED, SUMINISTRO, A, 1003, 34, "b"),
            f(BIOMASADENSIFICADA, RED, SUMINISTRO, A, 1028, 85, "bd"),
            f(RED1, RED, SUMINISTRO, A, 100, 1300, "r1"),
            f(RED2, RED, SUMINISTRO, A, 200, 1300, "r2"),
            f(MEDIOAMBIENTE, RED, SUMINISTRO, A, 1000, 0, "ma"),
        ],
    };
    let near = wfactors_to_nearby(&t);
    let expected = vec![
        f(ELECTRICIDAD, RED, SUMINISTRO, A, 0, 2368, "Perímetro nearby: red"),
        f(ELECTRICIDAD, INSITU, SUMINISTRO, A, 1000, 0, "pv"),
        f(ELECTRICIDAD, COGENERACION, A_RED, B, 414, 1954, "cg"),
        f(GASNATURAL, RED, SUMINISTRO, A, 0, 1195, "Perímetro nearby: "),
        f(BIOCARBURANTE, RED, SUMINISTRO, A, 0, 1113, "Perímetro nearby: bio"),
        f(BIOMASA, RED, SUMINISTRO, A, 1003, 34, "b"),
        f(BIOMASADENSIFICADA, RED, SUMINISTRO, A, 1028, 85, "bd"),
        f(RED1, RED, SUMINISTRO, A, 100, 1300, "r1"),
        f(RED2, RED, SUMINISTRO, A, 200, 1300, "r2"),
        f(MEDIOAMBIENTE, RED, SUMINISTRO, A, 1000, 0, "ma"),
    ];
    assert_eq!(expected, near.wdata);
    assert_eq!(vec![meta("CTE_FUENTE", "prueba"), meta("CTE_PERIMETRO", "NEARBY")], near.wmeta);
    for (before, after) in t.wdata.iter().zip(near.wdata.iter()) {
        assert_eq!(before.ren + before.nren, after.ren + after.nren);
    }
    let again = wfactors_to_nearby(&near);
    assert_eq!(near.wmeta, again.wmeta);
    assert_eq!(2368, again.wdata[0].nren);
}

fn prune_table() -> Factors {
    Factors {
        wmeta: vec![meta("CTE_FUENTE", "prueba")],
        wdata: vec![
            f(ELECTRICIDAD, RED, SUMINISTRO, A, 414, 1954, ""),
            f(ELECTRICIDAD, INSITU, SUMINISTRO, A, 1000, 0, ""),
            f(ELECTRICIDAD, INSITU, A_NEPB, A, 1000, 0, ""),
            f(ELECTRICIDAD, COGENERACION, A_RED, B, 414, 1954, ""),
            f(ELECTRICIDAD, RED, A_NEPB, B, 1, 1, ""),
            f(GASNATURAL, RED, SUMINISTRO, A, 5, 1190, ""),
            f(MEDIOAMBIENTE, INSITU, SUMINISTRO, A, 1000, 0, ""),
            f(MEDIOAMBIENTE, INSITU, A_NEPB, A, 1000, 0, ""),
            f(RED1, RED, SUMINISTRO, A, 0, 1300, ""),
        ],
    }
}

fn kept_rows(t: &Factors) -> Vec<usize> {
    let all = prune_table();
    t.wdata.iter().map(|x| all.wdata.iter().position(|y| x == y).unwrap()).collect()
}

#[test]
fn pruning_keeps_the_factors_of_the_carriers_in_use() {
    let mut t = prune_table();
    let c = list(vec![
        comp(ELECTRICIDAD, CONSUMO, EPB, ACS, &[1]),
        comp(MEDIOAMBIENTE, CONSUMO, EPB, ACS, &[1]),
        comp(ELECTRICIDAD, CONSUMO, EPB, CAL, &[1]),
    ]);
    strip_wfactors(&mut t, &c);
    assert_eq!(vec![0, 6], kept_rows(&t));
    assert_eq!(vec![meta("CTE_FUENTE", "prueba")], t.wmeta);
}

#[test]
fn pruning_keeps_what_cogeneration_and_non_regulated_uses_need() {
    let mut t = prune_table();
    let c = list(vec![
        comp(ELECTRICIDAD, CONSUMO, NEPB, ACS, &[1]),
        comp(ELECTRICIDAD, PRODUCCION, CSubtype::COGENERACION, NDEF, &[1]),
        comp(MEDIOAMBIENTE, PRODUCCION, CSubtype::INSITU, NDEF, &[1]),
    ]);
    strip_wfactors(&mut t, &c);
    assert_eq!(vec![0, 3, 4, 6, 7], kept_rows(&t));
    let mut t = prune_table();
    let c = list(vec![
        comp(ELECTRICIDAD, PRODUCCION, CSubtype::INSITU, NDEF, &[1]),
        comp(GASNATURAL, CONSUMO, EPB, NDEF, &[1]),
    ]);
    strip_wfactors(&mut t, &c);
    assert_eq!(vec![0, 1, 5], kept_rows(&t));
}

#[test]
fn pruning_for_no_components_leaves_no_factor() {
    let mut t = prune_table();
    strip_wfactors(&mut t, &list(Vec::new()));
    assert!(t.wdata.is_empty());
    assert_eq!(vec![meta("CTE_FUENTE", "prueba")], t.wmeta);
}

#[test]
fn reserved_characters_are_escaped() {
    assert_eq!("", escape_xml(""));
    assert_eq!("sin cambios: áé 'x'", escape_xml("sin cambios: áé 'x'"));
    assert_eq!("a &amp; b", escape_xml("a & b"));
    assert_eq!("&lt;Dato&gt;", escape_xml("<Dato>"));
    assert_eq!("&quot;x&quot;", escape_xml("\"x\""));
    assert_eq!("a&apos;b", escape_xml("a\\b"));
    assert_eq!("&amp;amp;&amp;lt;", escape_xml("&amp;&lt;"));
}

#[test]
fn metadata_takes_the_first_entry_of_a_key() {
    let mut c = Components {
        cmeta: vec![meta("A", "1"), meta("B", "2"), meta("A", "3")],
        cdata: Vec::new(),
    };
    assert_eq!(Some("1".to_string()), c.get_meta("A"));
    assert_eq!(Some("2".to_string()), c.get_meta("B"));
    assert_eq!(None, c.get_meta("C"));
    assert_eq!(None, c.get_meta("a"));
    c.update_meta("A", "4");
    assert_eq!(vec![meta("A", "4"), meta("B", "2"), meta("A", "3")], c.cmeta);
    c.update_meta("C", "5");
    assert_eq!(vec![meta("A", "4"), meta("B", "2"), meta("A", "3"), meta("C", "5")], c.cmeta);
    assert_eq!(Some("5".to_string()), c.get_meta("C"));
}

#[test]
fn names_and_codes_of_the_vocabulary() {
    assert_eq!("ELECTRICIDAD", ELECTRICIDAD.name());
    assert_eq!("BIOMASADENSIFICADA", BIOMASADENSIFICADA.name());
    assert_eq!("COGENERACION", COGENERACION.name());
    assert_eq!("A_NEPB", A_NEPB.name());
    assert_eq!("A_RED", A_RED.name());
    assert_eq!("B", B.name());
    assert_eq!("PRODUCCION", PRODUCCION.name());
    assert_eq!("NEPB", NEPB.name());
    assert_eq!("NDEF", NDEF.name());
    assert_eq!(NDEF, Service::default());
    for code in 0u8..=255 {
        if let Some(c) = Carrier::from_code(code) {
            assert_eq!(code, c.code());
        } else {
            assert!(code > 10);
        }
        if let Some(s) = Service::from_code(code) {
            assert_eq!(code, s.code());
        } else {
            assert!(code > 8);
        }
    }
}

#[test]
fn a_use_that_sums_to_zero_is_not_balanced() {
    let given = vec![comp(MEDIOAMBIENTE, CONSUMO, EPB, CAL, &[5, -5])];
    let mut c = list(given.clone());
    fix_components(&mut c);
    assert_eq!(given, c.cdata);
    let negative = vec![comp(MEDIOAMBIENTE, CONSUMO, EPB, CAL, &[5, -2])];
    let mut c = list(negative.clone());
    fix_components(&mut c);
    assert_eq!(balancing(CAL, &[5, -2]), c.cdata[1]);
    let with_production = vec![
        comp(MEDIOAMBIENTE, CONSUMO, EPB, CAL, &[5, -2]),
        comp(MEDIOAMBIENTE, PRODUCCION, CSubtype::INSITU, CAL, &[0, 0]),
    ];
    let mut c = list(with_production);
    fix_components(&mut c);
    assert_eq!(balancing(CAL, &[5, 0]), c.cdata[2]);
}

/// A sequence of numbers that looks random and is the same on every run.
struct Dice(u64);

impl Dice {
    fn next(&mut self, below: u64) -> u64 {
        self.0 = self.0.wrapping_mul(6364136223846793005).wrapping_add(1442695040888963407);
        (self.0 >> 33) % below
    }
}

fn column(rows: &[&Component], t: usize) -> i64 {
    rows.iter().map(|c| c.values.get(t).copied().unwrap_or(0)).sum()
}

/// Balancing written down once more on plain rows.
fn plain_balancing(given: &[Component]) -> Vec<Component> {
    let mut out = given.to_vec();
    let mut services: Vec<Service> = Vec::new();
    for c in given {
        if c.carrier == MEDIOAMBIENTE && !services.contains(&c.service) {
            services.push(c.service);
        }
    }
    for s in services {
        let of = |ctype: CType| -> Vec<&Component> {
            given
                .iter()
                .filter(|c| c.carrier == MEDIOAMBIENTE && c.service == s && c.ctype == ctype)
                .collect()
        };
        let used = of(CONSUMO);
        let made = of(PRODUCCION);
        if used.is_empty() {
            continue;
        }
        let width = |rows: &[&Component]| rows.iter().map(|c| c.values.len()).max().unwrap_or(0);
        let values: Vec<i64> = if made.is_empty() {
            (0..width(&used)).map(|t| column(&used, t)).collect()
        } else {
            (0..width(&used).max(width(&made)))
                .map(|t| (column(&used, t) - column(&made, t)).max(0))
                .collect()
        };
        if values.iter().sum::<i64>() != 0 {
            out.push(balancing(s, &values));
        }
    }
    out
}

#[test]
fn balancing_agrees_with_a_plain_model_on_many_lists() {
    let carriers = [MEDIOAMBIENTE, MEDIOAMBIENTE, ELECTRICIDAD, GASNATURAL];
    let services = [ACS, CAL, REF, NDEF];
    let mut d = Dice(3);
    let mut grown = 0;
    for _ in 0..3000 {
        let mut given: Vec<Component> = Vec::new();
        for _ in 0..d.next(8) {
            let produced = d.next(3) == 0;
            let len = d.next(4) as usize;
            let values: Vec<i64> = (0..len).map(|_| d.next(40) as i64 - 5).collect();
            given.push(comp(
                carriers[d.next(4) as usize],
                if produced { PRODUCCION } else { CONSUMO },
                if produced { CSubtype::INSITU } else { EPB },
                services[d.next(4) as usize],
                &values,
            ));
        }
        let mut c = list(given.clone());
        fix_components(&mut c);
        assert_eq!(plain_balancing(&given), c.cdata);
        if c.cdata.len() > given.len() {
            grown += 1;
        }
    }
    assert!(grown > 500);
}

/// Partitioning written down once more on plain rows.
fn plain_partition(given: &[Component], service: Service) -> Vec<Component> {
    let mut out: Vec<Component> = given.iter().filter(|c| c.service == service).cloned().collect();
    let uses: Vec<&Component> =
        given.iter().filter(|c| c.carrier == ELECTRICIDAD && c.ctype == CONSUMO).collect();
    let whole: i64 = uses.iter().map(|c| c.values.iter().sum::<i64>()).sum();
    let part: i64 =
        uses.iter().filter(|c| c.service == service).map(|c| c.values.iter().sum::<i64>()).sum();
    if whole > 0 && part > 0 {
        for c in given {
            if c.carrier == ELECTRICIDAD
                && c.ctype == PRODUCCION
                && c.csubtype == CSubtype::INSITU
                && c.service == NDEF
            {
                let values: Vec<i64> =
                    c.values.iter().map(|v| (v * part).div_euclid(whole)).collect();
                out.push(commented(
                    comp(ELECTRICIDAD, PRODUCCION, CSubtype::INSITU, service, &values),
                    " Producción insitu proporcionalmente reasignada al servicio.",
                ));
            }
        }
    }
    out
}

#[test]
fn partitioning_agrees_with_a_plain_model_on_many_lists() {
    let carriers = [ELECTRICIDAD, ELECTRICIDAD, ELECTRICIDAD, GASNATURAL];
    let services = [ACS, CAL, NDEF, NDEF];
    let mut d = Dice(5);
    let mut reassigned = 0;
    for _ in 0..3000 {
        let mut given: Vec<Component> = Vec::new();
        for _ in 0..d.next(8) {
            let produced = d.next(3) == 0;
            let len = d.next(4) as usize;
            let values: Vec<i64> = (0..len).map(|_| d.next(1000) as i64 - 100).collect();
            given.push(comp(
                carriers[d.next(4) as usize],
                if produced { PRODUCCION } else { CONSUMO },
                if produced { CSubtype::INSITU } else { EPB },
                services[d.next(4) as usize],
                &values,
            ));
        }
        for s in [ACS, CAL, NDEF, ILU] {
            let got = components_by_service(&list(given.clone()), s);
            let expected = plain_partition(&given, s);
            if got.cdata.len() > given.iter().filter(|c| c.service == s).count() {
                reassigned += 1;
            }
            assert_eq!(expected, got.cdata);
        }
    }
    assert!(reassigned > 500);
}
