use cteepbd::components::{Component, Components};
use cteepbd::cte::completion::{fix_wfactors, UserWFactors};
use cteepbd::cte::locations::{complete_wfactors, new_wfactors};
use cteepbd::cte::user::{find_user_wfactors, update_user_wfactors};
use cteepbd::error::EpbdError;
use cteepbd::meta::Meta;
use cteepbd::rennren::RenNren;
use cteepbd::types::CSubtype::{self, EPB, NEPB};
use cteepbd::types::CType::{self, CONSUMO, PRODUCCION};
use cteepbd::types::Carrier::{self, ELECTRICIDAD, GASNATURAL, MEDIOAMBIENTE, RED1, RED2};
use cteepbd::types::Dest::{self, A_NEPB, A_RED, SUMINISTRO};
use cteepbd::types::Service::{self, NDEF};
use cteepbd::types::Source::{self, COGENERACION, INSITU, RED};
use cteepbd::types::Step::{self, A, B};
use cteepbd::wfactors::{Factor, Factors};

const TESTKEXP: f64 = 1.0;

// ---------------------------------------------------------------- helpers

type Key = (Carrier, Source, Dest, Step);
type Row = (Carrier, Source, Dest, Step, i64, i64);

fn factor(row: Row) -> Factor {
    Factor::new(row.0, row.1, row.2, row.3, row.4, row.5, String::new())
}

fn table(rows: &[Row]) -> Factors {
    Factors { wmeta: Vec::new(), wdata: rows.iter().map(|r| factor(*r)).collect() }
}

fn rows_of(t: &Factors) -> Vec<Row> {
    t.wdata.iter().map(|f| (f.carrier, f.source, f.dest, f.step, f.ren, f.nren)).collect()
}

fn keys_of(t: &Factors) -> Vec<Key> {
    t.wdata.iter().map(|f| (f.carrier, f.source, f.dest, f.step)).collect()
}

fn weights(t: &Factors, key: Key) -> Option<(i64, i64)> {
    t.wdata
        .iter()
        .find(|f| (f.carrier, f.source, f.dest, f.step) == key)
        .map(|f| (f.ren, f.nren))
}

fn comment(t: &Factors, key: Key) -> Option<String> {
    t.wdata
        .iter()
        .find(|f| (f.carrier, f.source, f.dest, f.step) == key)
        .map(|f| f.comment.clone())
}

fn defaults() -> UserWFactors {
    UserWFactors {
        cogen: RenNren::new(0, 2500),
        cogennepb: RenNren::new(0, 2500),
        red1: RenNren::new(0, 1300),
        red2: RenNren::new(0, 1300),
    }
}

fn meta(key: &str, value: &str) -> Meta {
    Meta { key: key.to_string(), value: value.to_string() }
}

/// A quantity of energy given with two decimals, in hundredths.
fn q(x: f64) -> i64 {
    (x * 100.0).round() as i64
}

// ------------------------------------------- the balance, for the tests only

/// Sum of a list of series, zero beyond the end of the shorter ones.
fn sum_series(list: &[Vec<f64>], steps: usize) -> Vec<f64> {
    (0..steps).map(|t| list.iter().map(|v| v.get(t).copied().unwrap_or(0.0)).sum()).collect()
}

fn series(c: &Component) -> Vec<f64> {
    c.values.iter().map(|v| *v as f64 / 100.0).collect()
}

fn factor_of(wfactors: &Factors, carrier: Carrier, source: Source, dest: Dest, step: Step) -> (f64, f64) {
    let (ren, nren) = weights(wfactors, (carrier, source, dest, step)).unwrap();
    (ren as f64 / 1000.0, nren as f64 / 1000.0)
}

/// Weighted energy of one carrier at steps A and B.
fn balance_of_carrier(
    components: &Components,
    wfactors: &Factors,
    carrier: Carrier,
    k_exp: f64,
) -> ((f64, f64), (f64, f64)) {
    let own: Vec<&Component> = components.cdata.iter().filter(|c| c.carrier == carrier).collect();
    let steps = own.iter().map(|c| c.values.len()).max().unwrap_or(0);
    let pick = |ctype: CType, csubtype: CSubtype| -> Vec<f64> {
        let list: Vec<Vec<f64>> = own
            .iter()
            .filter(|c| c.ctype == ctype && c.csubtype == csubtype)
            .map(|c| series(c))
            .collect();
        sum_series(&list, steps)
    };
    let used_epb = pick(CONSUMO, EPB);
    let used_nepb = pick(CONSUMO, NEPB);
    let generators = [(CSubtype::INSITU, INSITU), (CSubtype::COGENERACION, COGENERACION)];
    let produced_by: Vec<Vec<f64>> = generators.iter().map(|g| pick(PRODUCCION, g.0)).collect();
    let produced = sum_series(&produced_by, steps);
    let produced_an: f64 = produced.iter().sum();
    let matched: Vec<f64> = (0..steps).map(|t| used_epb[t].min(produced[t])).collect();
    let exported: Vec<f64> = (0..steps).map(|t| produced[t] - matched[t]).collect();
    let to_nepb: Vec<f64> = (0..steps).map(|t| exported[t].min(used_nepb[t])).collect();
    let to_nepb_an: f64 = to_nepb.iter().sum();
    let to_grid_an: f64 = (0..steps).map(|t| exported[t] - to_nepb[t]).sum();
    let delivered_an: f64 = (0..steps).map(|t| used_epb[t] - matched[t]).sum();

    let grid = factor_of(wfactors, carrier, RED, SUMINISTRO, A);
    let mut delivered = (delivered_an * grid.0, delivered_an * grid.1);
    let mut exported_by = Vec::new();
    for (g, generator) in generators.iter().enumerate() {
        let produced_g: f64 = produced_by[g].iter().sum();
        if produced_g != 0.0 {
            let f = factor_of(wfactors, carrier, generator.1, SUMINISTRO, A);
            delivered = (delivered.0 + produced_g * f.0, delivered.1 + produced_g * f.1);
        }
        let share = if produced_an > 1e-3 { produced_g / produced_an } else { 0.0 };
        let exported_g: f64 = (0..steps).map(|t| produced_by[g][t] - matched[t] * share).sum();
        exported_by.push(exported_g);
    }
    let exported_an = to_nepb_an + to_grid_an;
    let mut exp_a = (0.0, 0.0);
    let mut exp_ab = (0.0, 0.0);
    if exported_an != 0.0 {
        let mean = |dest: Dest, step: Step| -> (f64, f64) {
            let mut acc = (0.0, 0.0);
            for (g, generator) in generators.iter().enumerate() {
                if exported_by[g] != 0.0 {
                    let f = factor_of(wfactors, carrier, generator.1, dest, step);
                    let part = exported_by[g] / exported_an;
                    acc = (acc.0 + part * f.0, acc.1 + part * f.1);
                }
            }
            acc
        };
        let zero = (0.0, 0.0);
        let nepb_a = if to_nepb_an != 0.0 { mean(A_NEPB, A) } else { zero };
        let nepb_b = if to_nepb_an != 0.0 { mean(A_NEPB, B) } else { zero };
        let grid_a = if to_grid_an != 0.0 { mean(A_RED, A) } else { zero };
        let grid_b = if to_grid_an != 0.0 { mean(A_RED, B) } else { zero };
        exp_a = (
            to_nepb_an * nepb_a.0 + to_grid_an * grid_a.0,
            to_nepb_an * nepb_a.1 + to_grid_an * grid_a.1,
        );
        exp_ab = (
            to_nepb_an * (nepb_b.0 - nepb_a.0) + to_grid_an * (grid_b.0 - grid_a.0),
            to_nepb_an * (nepb_b.1 - nepb_a.1) + to_grid_an * (grid_b.1 - grid_a.1),
        );
    }
    let exp_b = (exp_a.0 + k_exp * exp_ab.0, exp_a.1 + k_exp * exp_ab.1);
    ((delivered.0 - exp_a.0, delivered.1 - exp_a.1), (delivered.0 - exp_b.0, delivered.1 - exp_b.1))
}

/// Weighted energy per unit of area at step B, as (ren, nren).
fn energy_performance(components: &Components, wfactors: &Factors, k_exp: f64, arearef: f64) -> (f64, f64) {
    let mut carriers: Vec<Carrier> = Vec::new();
    for c in &components.cdata {
        if !carriers.contains(&c.carrier) {
            carriers.push(c.carrier);
        }
    }
    let mut total = (0.0, 0.0);
    for carrier in carriers {
        let (_, b) = balance_of_carrier(components, wfactors, carrier, k_exp);
        total = (total.0 + b.0, total.1 + b.1);
    }
    (total.0 / arearef, total.1 / arearef)
}

fn approx_equal(expected: (f64, f64), got: (f64, f64)) -> bool {
    (expected.0 - got.0).abs() < 0.1 && (expected.1 - got.1).abs() < 0.1
}

fn component(
    carrier: Carrier,
    ctype: CType,
    csubtype: CSubtype,
    service: Service,
    values: &[f64],
) -> Component {
    Component {
        carrier,
        ctype,
        csubtype,
        service,
        values: values.iter().map(|v| q(*v)).collect(),
        comment: String::new(),
    }
}

fn get_ctefp_peninsula() -> Factors {
    new_wfactors("PENINSULA", None, None, None, None, false).unwrap()
}

fn get_energydatalist() -> Components {
    Components {
        cmeta: vec![],
        cdata: vec![
            component(
                ELECTRICIDAD,
                CONSUMO,
                EPB,
                NDEF,
                &[9.67, 7.74, 4.84, 4.35, 2.42, 2.9, 3.87, 3.39, 2.42, 3.87, 5.8, 7.74],
            ),
            component(
                ELECTRICIDAD,
                PRODUCCION,
                CSubtype::INSITU,
                NDEF,
                &[1.13, 1.42, 1.99, 2.84, 4.82, 5.39, 5.67, 5.11, 4.54, 3.40, 2.27, 1.42],
            ),
            component(
                MEDIOAMBIENTE,
                CONSUMO,
                EPB,
                NDEF,
                &[21.48, 17.18, 10.74, 9.66, 5.37, 6.44, 8.59, 7.52, 5.37, 8.59, 12.89, 17.18],
            ),
            component(
                MEDIOAMBIENTE,
                PRODUCCION,
                CSubtype::INSITU,
                NDEF,
                &[21.48, 17.18, 10.74, 9.66, 5.37, 6.44, 8.59, 7.52, 5.37, 8.59, 12.89, 17.18],
            ),
        ],
    }
}

// ------------------------------------------------------------------ tests

#[test]
#[allow(non_snake_case)]
fn cte_balance_from_data() {
    let ENERGYDATALIST = get_energydatalist();
    let FP = get_ctefp_peninsula();
    let bal = energy_performance(&ENERGYDATALIST, &FP, TESTKEXP, 1.0);
    assert!(approx_equal((178.9, 37.1), bal));
}

fn two_grid_rows() -> Factors {
    table(&[(ELECTRICIDAD, RED, SUMINISTRO, A, 500, 2000), (GASNATURAL, RED, SUMINISTRO, A, 0, 1100)])
}

#[test]
fn completion_adds_what_a_table_of_two_grid_rows_lacks() {
    let input = two_grid_rows();
    let user = find_user_wfactors(&input, None, None, None, None);
    assert_eq!(defaults(), user);
    let out = fix_wfactors(input, &user, false).unwrap();
    let expected: Vec<Row> = vec![
        (ELECTRICIDAD, RED, SUMINISTRO, A, 500, 2000),
        (GASNATURAL, RED, SUMINISTRO, A, 0, 1100),
        (MEDIOAMBIENTE, INSITU, SUMINISTRO, A, 1000, 0),
        (MEDIOAMBIENTE, RED, SUMINISTRO, A, 1000, 0),
        (ELECTRICIDAD, INSITU, SUMINISTRO, A, 1000, 0),
        (ELECTRICIDAD, COGENERACION, SUMINISTRO, A, 0, 0),
        (ELECTRICIDAD, INSITU, A_RED, A, 1000, 0),
        (ELECTRICIDAD, INSITU, A_NEPB, A, 1000, 0),
        (ELECTRICIDAD, INSITU, A_RED, B, 500, 2000),
        (ELECTRICIDAD, INSITU, A_NEPB, B, 500, 2000),
        (ELECTRICIDAD, COGENERACION, A_RED, A, 0, 2500),
        (ELECTRICIDAD, COGENERACION, A_NEPB, A, 0, 2500),
        (ELECTRICIDAD, COGENERACION, A_RED, B, 500, 2000),
        (ELECTRICIDAD, COGENERACION, A_NEPB, B, 500, 2000),
        (MEDIOAMBIENTE, INSITU, A_RED, A, 1000, 0),
        (MEDIOAMBIENTE, INSITU, A_NEPB, A, 1000, 0),
        (MEDIOAMBIENTE, INSITU, A_RED, B, 1000, 0),
        (MEDIOAMBIENTE, INSITU, A_NEPB, B, 1000, 0),
        (RED1, RED, SUMINISTRO, A, 0, 1300),
        (RED2, RED, SUMINISTRO, A, 0, 1300),
    ];
    assert_eq!(expected, rows_of(&out));
}

#[test]
fn completion_comments_on_what_it_adds() {
    let out = fix_wfactors(two_grid_rows(), &defaults(), false).unwrap();
    assert_eq!(
        Some("Recursos usados para generar electricidad in situ".to_string()),
        comment(&out, (ELECTRICIDAD, INSITU, SUMINISTRO, A))
    );
    assert_eq!(
        Some(
            "Recursos usados para producir la electricidad cogenerada y exportada a la red (ver EN ISO 52000-1 9.6.6.2.3) (Valor predefinido)"
                .to_string()
        ),
        comment(&out, (ELECTRICIDAD, COGENERACION, A_RED, A))
    );
    assert_eq!(
        Some(
            "Recursos ahorrados a la red por la energía producida in situ y exportada a usos no EPB"
                .to_string()
        ),
        comment(&out, (MEDIOAMBIENTE, INSITU, A_NEPB, B))
    );
    let user = UserWFactors { cogen: RenNren::new(2270, 230), ..defaults() };
    let out = fix_wfactors(two_grid_rows(), &user, false).unwrap();
    assert_eq!(Some((2270, 230)), weights(&out, (ELECTRICIDAD, COGENERACION, A_RED, A)));
    assert_eq!(
        Some(
            "Recursos usados para producir la electricidad cogenerada y exportada a la red (ver EN ISO 52000-1 9.6.6.2.3) (Valor de usuario)"
                .to_string()
        ),
        comment(&out, (ELECTRICIDAD, COGENERACION, A_RED, A))
    );
    assert_eq!(
        Some(
            "Recursos usados para producir la electricidad cogenerada y exportada a usos no EPB (ver EN ISO 52000-1 9.6.6.2.3) (Valor predefinido)"
                .to_string()
        ),
        comment(&out, (ELECTRICIDAD, COGENERACION, A_NEPB, A))
    );
}

#[test]
fn completion_never_overwrites_a_row() {
    let input = table(&[
        (ELECTRICIDAD, RED, SUMINISTRO, A, 500, 2000),
        (ELECTRICIDAD, INSITU, SUMINISTRO, A, 900, 100),
        (ELECTRICIDAD, INSITU, A_RED, B, 7, 8),
        (ELECTRICIDAD, COGENERACION, A_RED, A, 2270, 230),
        (MEDIOAMBIENTE, INSITU, SUMINISTRO, A, 800, 200),
        (RED1, RED, SUMINISTRO, A, 1, 2),
    ]);
    let before = rows_of(&input);
    let out = fix_wfactors(input, &defaults(), false).unwrap();
    assert_eq!(before[..], rows_of(&out)[..before.len()]);
    assert_eq!(Some((900, 100)), weights(&out, (ELECTRICIDAD, INSITU, A_RED, A)));
    assert_eq!(Some((900, 100)), weights(&out, (ELECTRICIDAD, INSITU, A_NEPB, A)));
    assert_eq!(Some((7, 8)), weights(&out, (ELECTRICIDAD, INSITU, A_RED, B)));
    assert_eq!(Some((500, 2000)), weights(&out, (ELECTRICIDAD, INSITU, A_NEPB, B)));
    assert_eq!(Some((2270, 230)), weights(&out, (ELECTRICIDAD, COGENERACION, A_RED, A)));
    assert_eq!(Some((800, 200)), weights(&out, (MEDIOAMBIENTE, INSITU, A_RED, A)));
    assert_eq!(Some((1000, 0)), weights(&out, (MEDIOAMBIENTE, INSITU, A_RED, B)));
    assert_eq!(Some((1, 2)), weights(&out, (RED1, RED, SUMINISTRO, A)));
    assert_eq!(Some((0, 1300)), weights(&out, (RED2, RED, SUMINISTRO, A)));
    let keys = keys_of(&out);
    for (i, k) in keys.iter().enumerate() {
        assert!(!keys[..i].contains(k));
    }
}

#[test]
fn completion_takes_the_first_of_two_rows_with_one_key() {
    let input = table(&[
        (ELECTRICIDAD, RED, SUMINISTRO, A, 500, 2000),
        (ELECTRICIDAD, RED, SUMINISTRO, A, 1, 1),
        (ELECTRICIDAD, INSITU, SUMINISTRO, A, 900, 100),
        (ELECTRICIDAD, INSITU, SUMINISTRO, A, 2, 2),
    ]);
    let out = fix_wfactors(input, &defaults(), false).unwrap();
    assert_eq!(Some((900, 100)), weights(&out, (ELECTRICIDAD, INSITU, A_RED, A)));
    assert_eq!(Some((500, 2000)), weights(&out, (ELECTRICIDAD, INSITU, A_RED, B)));
}

#[test]
fn completion_fails_for_a_carrier_without_grid_factor() {
    let input = table(&[
        (ELECTRICIDAD, RED, SUMINISTRO, A, 500, 2000),
        (GASNATURAL, INSITU, SUMINISTRO, A, 0, 1100),
        (Carrier::BIOMASA, RED, SUMINISTRO, B, 0, 1100),
    ]);
    assert_eq!(
        Err(EpbdError::MissingGridFactor { carrier: GASNATURAL }),
        fix_wfactors(input, &defaults(), false)
    );
    let only_step_b = table(&[
        (ELECTRICIDAD, RED, SUMINISTRO, A, 500, 2000),
        (RED1, RED, SUMINISTRO, B, 0, 1100),
    ]);
    assert_eq!(
        Err(EpbdError::MissingGridFactor { carrier: RED1 }),
        fix_wfactors(only_step_b, &defaults(), true)
    );
}

#[test]
fn completion_fails_where_an_export_factor_cannot_be_derived() {
    let no_electricity = table(&[(GASNATURAL, RED, SUMINISTRO, A, 0, 1100)]);
    assert_eq!(
        Err(EpbdError::MissingDerivationSource { carrier: ELECTRICIDAD, dest: A_RED, step: A }),
        fix_wfactors(no_electricity, &defaults(), false)
    );
    let empty = table(&[]);
    assert_eq!(
        Err(EpbdError::MissingDerivationSource { carrier: ELECTRICIDAD, dest: A_RED, step: A }),
        fix_wfactors(empty, &defaults(), false)
    );
    let supply_at_step_b_only = table(&[
        (ELECTRICIDAD, RED, SUMINISTRO, A, 500, 2000),
        (ELECTRICIDAD, INSITU, SUMINISTRO, B, 1000, 0),
        (ELECTRICIDAD, INSITU, A_RED, A, 1000, 0),
    ]);
    assert_eq!(
        Err(EpbdError::MissingDerivationSource { carrier: ELECTRICIDAD, dest: A_NEPB, step: A }),
        fix_wfactors(supply_at_step_b_only, &defaults(), false)
    );
}

#[test]
fn completion_with_removal_leaves_no_row_for_non_regulated_uses() {
    let out = fix_wfactors(two_grid_rows(), &defaults(), true).unwrap();
    assert_eq!(14, out.wdata.len());
    assert!(out.wdata.iter().all(|f| f.dest != A_NEPB));
    let full = fix_wfactors(two_grid_rows(), &defaults(), false).unwrap();
    let kept: Vec<Row> = rows_of(&full).into_iter().filter(|r| r.2 != A_NEPB).collect();
    assert_eq!(kept, rows_of(&out));
    let given = table(&[
        (ELECTRICIDAD, RED, SUMINISTRO, A, 500, 2000),
        (ELECTRICIDAD, INSITU, A_NEPB, A, 1, 1),
        (GASNATURAL, RED, SUMINISTRO, A, 0, 1100),
        (GASNATURAL, RED, A_NEPB, B, 1, 1),
    ]);
    let out = fix_wfactors(given, &defaults(), true).unwrap();
    assert!(out.wdata.iter().all(|f| f.dest != A_NEPB));
}

#[test]
fn completion_of_a_completed_table_changes_nothing() {
    for strip in [false, true] {
        let once = fix_wfactors(two_grid_rows(), &defaults(), strip).unwrap();
        let twice = fix_wfactors(once.clone(), &defaults(), strip).unwrap();
        assert_eq!(once, twice);
    }
    let user = UserWFactors { cogen: RenNren::new(2270, 230), red2: RenNren::new(5, 6), ..defaults() };
    let once = fix_wfactors(get_ctefp_peninsula(), &user, false).unwrap();
    let twice = fix_wfactors(once.clone(), &user, false).unwrap();
    assert_eq!(once, twice);
}

#[test]
fn completion_covers_every_carrier_and_every_export() {
    for strip in [false, true] {
        let out = fix_wfactors(two_grid_rows(), &defaults(), strip).unwrap();
        for f in &out.wdata {
            assert!(weights(&out, (f.carrier, RED, SUMINISTRO, A)).is_some());
        }
        for (c, s) in [(ELECTRICIDAD, INSITU), (ELECTRICIDAD, COGENERACION), (MEDIOAMBIENTE, INSITU)] {
            for step in [A, B] {
                assert!(weights(&out, (c, s, A_RED, step)).is_some());
                assert_eq!(!strip, weights(&out, (c, s, A_NEPB, step)).is_some());
            }
        }
    }
}

#[test]
fn completion_leaves_the_metadata_alone() {
    let mut input = two_grid_rows();
    input.wmeta.push(meta("CTE_FUENTE", "prueba"));
    let out = fix_wfactors(input, &defaults(), false).unwrap();
    assert_eq!(vec![meta("CTE_FUENTE", "prueba")], out.wmeta);
}

#[test]
fn user_weights_come_from_the_caller_first() {
    let mut t = table(&[
        (ELECTRICIDAD, COGENERACION, A_RED, A, 11, 12),
        (ELECTRICIDAD, COGENERACION, A_NEPB, A, 13, 14),
        (RED1, RED, SUMINISTRO, A, 15, 16),
        (RED2, RED, SUMINISTRO, A, 17, 18),
    ]);
    t.wmeta.push(meta("CTE_COGEN", "0.021, 0.022"));
    t.wmeta.push(meta("CTE_COGENNEPB", "0.023, 0.024"));
    t.wmeta.push(meta("CTE_RED1", "0.025, 0.026"));
    t.wmeta.push(meta("CTE_RED2", "0.027, 0.028"));
    let user = find_user_wfactors(
        &t,
        Some(RenNren::new(1, 2)),
        Some(RenNren::new(3, 4)),
        Some(RenNren::new(5, 6)),
        Some(RenNren::new(7, 8)),
    );
    assert_eq!(
        UserWFactors {
            cogen: RenNren::new(1, 2),
            cogennepb: RenNren::new(3, 4),
            red1: RenNren::new(5, 6),
            red2: RenNren::new(7, 8),
        },
        user
    );
}

#[test]
fn user_weights_come_from_the_metadata_before_the_rows() {
    let mut t = table(&[
        (ELECTRICIDAD, COGENERACION, A_RED, A, 11, 12),
        (ELECTRICIDAD, COGENERACION, A_NEPB, A, 13, 14),
        (RED1, RED, SUMINISTRO, A, 15, 16),
        (RED2, RED, SUMINISTRO, A, 17, 18),
    ]);
    t.wmeta.push(meta("CTE_COGEN", "0.021, 0.022"));
    t.wmeta.push(meta("CTE_RED1", "0.025, 0.026"));
    t.wmeta.push(meta("CTE_RED2", "no es un par"));
    let user = find_user_wfactors(&t, None, None, None, None);
    assert_eq!(
        UserWFactors {
            cogen: RenNren::new(21, 22),
            cogennepb: RenNren::new(13, 14),
            red1: RenNren::new(25, 26),
            red2: RenNren::new(17, 18),
        },
        user
    );
}

#[test]
fn user_weights_fall_back_on_the_predefined_ones() {
    let t = table(&[
        (ELECTRICIDAD, COGENERACION, A_RED, B, 11, 12),
        (ELECTRICIDAD, COGENERACION, SUMINISTRO, A, 0, 0),
        (RED1, RED, SUMINISTRO, B, 15, 16),
        (RED2, RED, A_RED, A, 17, 18),
    ]);
    assert_eq!(defaults(), find_user_wfactors(&t, None, None, None, None));
    assert_eq!(Some(RenNren::new(21, 22)), {
        let mut t = table(&[]);
        t.wmeta.push(meta("CTE_COGEN", "0.021, 0.022"));
        t.wmeta.push(meta("CTE_COGEN", "9, 9"));
        t.get_meta_rennren("CTE_COGEN")
    });
}

#[test]
fn user_weights_are_written_into_the_metadata() {
    let mut t = table(&[]);
    t.wmeta.push(meta("CTE_RED1", "antes"));
    t.wmeta.push(meta("OTRA", "cosa"));
    let user = UserWFactors {
        cogen: RenNren::new(0, 2500),
        cogennepb: RenNren::new(1000, 0),
        red1: RenNren::new(5, 1305),
        red2: RenNren::new(-1, 12),
    };
    update_user_wfactors(&mut t, &user);
    assert_eq!(
        vec![
            meta("CTE_RED1", "0.005, 1.305"),
            meta("OTRA", "cosa"),
            meta("CTE_COGEN", "0.000, 2.500"),
            meta("CTE_COGENNEPB", "1.000, 0.000"),
            meta("CTE_RED2", "-0.001, 0.012"),
        ],
        t.wmeta
    );
    assert!(t.wdata.is_empty());
    assert_eq!(user, find_user_wfactors(&t, None, None, None, None));
}

#[test]
fn a_given_table_is_completed_with_the_settled_weights() {
    let mut t = two_grid_rows();
    t.wmeta.push(meta("CTE_COGEN", "2.27, 0.23"));
    let out = complete_wfactors(t, None, None, Some(RenNren::new(100, 900)), None, true).unwrap();
    assert_eq!(Some((2270, 230)), weights(&out, (ELECTRICIDAD, COGENERACION, A_RED, A)));
    assert_eq!(Some((100, 900)), weights(&out, (RED1, RED, SUMINISTRO, A)));
    assert_eq!(Some((0, 1300)), weights(&out, (RED2, RED, SUMINISTRO, A)));
    assert_eq!(
        vec![
            meta("CTE_COGEN", "2.270, 0.230"),
            meta("CTE_COGENNEPB", "0.000, 2.500"),
            meta("CTE_RED1", "0.100, 0.900"),
            meta("CTE_RED2", "0.000, 1.300"),
        ],
        out.wmeta
    );
    assert!(out.wdata.iter().all(|f| f.dest != A_NEPB));
}

#[test]
fn the_table_of_each_location_has_its_grid_electricity() {
    for (loc, ren, nren) in [
        ("PENINSULA", 414, 1954),
        ("BALEARES", 82, 2968),
        ("CANARIAS", 70, 2924),
        ("CEUTAMELILLA", 72, 2718),
    ] {
        let t = new_wfactors(loc, None, None, None, None, false).unwrap();
        assert_eq!(Some((ren, nren)), weights(&t, (ELECTRICIDAD, RED, SUMINISTRO, A)));
        assert_eq!(Some((ren, nren)), weights(&t, (ELECTRICIDAD, INSITU, A_RED, B)));
        assert_eq!(Some((5, 1190)), weights(&t, (GASNATURAL, RED, SUMINISTRO, A)));
        assert_eq!(Some((1003, 34)), weights(&t, (Carrier::BIOMASA, RED, SUMINISTRO, A)));
        assert_eq!(Some((0, 2500)), weights(&t, (ELECTRICIDAD, COGENERACION, A_RED, A)));
        assert_eq!(Some((0, 1300)), weights(&t, (RED1, RED, SUMINISTRO, A)));
        assert_eq!(Some(loc.to_string()), t.get_meta("CTE_LOCALIZACION"));
        assert_eq!(Some("0.000, 2.500".to_string()), t.get_meta("CTE_COGEN"));
        assert_eq!(Some("0.000, 1.300".to_string()), t.get_meta("CTE_RED2"));
        assert_eq!(26, t.wdata.len());
    }
}

#[test]
fn the_table_of_a_location_takes_the_weights_of_the_caller() {
    let t = new_wfactors(
        "CANARIAS",
        Some(RenNren::new(2270, 230)),
        None,
        Some(RenNren::new(100, 900)),
        Some(RenNren::new(200, 800)),
        true,
    )
    .unwrap();
    assert_eq!(Some((2270, 230)), weights(&t, (ELECTRICIDAD, COGENERACION, A_RED, A)));
    assert_eq!(Some((100, 900)), weights(&t, (RED1, RED, SUMINISTRO, A)));
    assert_eq!(Some((200, 800)), weights(&t, (RED2, RED, SUMINISTRO, A)));
    assert_eq!(Some("2.270, 0.230".to_string()), t.get_meta("CTE_COGEN"));
    assert!(t.wdata.iter().all(|f| f.dest != A_NEPB));
    assert_eq!(20, t.wdata.len());
}

#[test]
fn an_unknown_location_is_refused() {
    assert_eq!(
        Err(EpbdError::UnknownLocation { location: "MADRID".to_string() }),
        new_wfactors("MADRID", None, None, None, None, false)
    );
    assert_eq!(
        Err(EpbdError::UnknownLocation { location: "peninsula".to_string() }),
        new_wfactors("peninsula", None, None, None, None, true)
    );
    assert_eq!(
        Err(EpbdError::UnknownLocation { location: String::new() }),
        new_wfactors("", None, None, None, None, true)
    );
}

#[test]
fn failures_say_what_they_are_about() {
    assert_eq!(
        "No se han definido los factores de paso de red del vector \"GASNATURAL, RED, SUMINISTRO, A, fren?, fnren?\"",
        EpbdError::MissingGridFactor { carrier: GASNATURAL }.message()
    );
    assert_eq!(
        "No se ha definido el factor de paso de suministro del vector ELECTRICIDAD y es necesario para definir el factor de exportación a la red en paso A",
        EpbdError::MissingDerivationSource { carrier: ELECTRICIDAD, dest: A_RED, step: A }.message()
    );
    assert_eq!(
        "No se ha definido el factor de paso de suministro del vector MEDIOAMBIENTE y es necesario para definir el factor de exportación a usos no EPB en paso B",
        EpbdError::MissingDerivationSource { carrier: MEDIOAMBIENTE, dest: A_NEPB, step: B }.message()
    );
    assert_eq!(
        "No se ha definido el factor de paso de suministro del vector ELECTRICIDAD y es necesario para definir el factor de exportación a usos no EPB en paso A",
        EpbdError::MissingDerivationSource { carrier: ELECTRICIDAD, dest: A_NEPB, step: A }.message()
    );
    assert_eq!(
        "No se ha definido el factor de paso de suministro del vector ELECTRICIDAD y es necesario para definir el factor de exportación a la red en paso B",
        EpbdError::MissingDerivationSource { carrier: ELECTRICIDAD, dest: A_RED, step: B }.message()
    );
    assert_eq!(
        "Localización \"MADRID\" desconocida al generar factores de paso",
        EpbdError::UnknownLocation { location: "MADRID".to_string() }.message()
    );
    assert_eq!(
        "Formato incorrecto: LUZ, RED",
        EpbdError::MalformedRecord { record: "LUZ, RED".to_string() }.message()
    );
    assert_eq!("Valores demasiado grandes para el cálculo", EpbdError::QuantityOutOfRange.message());
}

#[test]
fn a_table_with_the_district_networks_keeps_their_weights() {
    let input = table(&[
        (ELECTRICIDAD, RED, SUMINISTRO, A, 500, 2000),
        (RED1, RED, SUMINISTRO, A, 100, 900),
        (RED2, RED, SUMINISTRO, A, 200, 800),
    ]);
    let user = find_user_wfactors(&input, None, None, None, None);
    assert_eq!(RenNren::new(100, 900), user.red1);
    assert_eq!(RenNren::new(200, 800), user.red2);
    let out = fix_wfactors(input, &user, false).unwrap();
    assert_eq!(1, out.wdata.iter().filter(|f| f.carrier == RED1).count());
    assert_eq!(1, out.wdata.iter().filter(|f| f.carrier == RED2).count());
}

#[test]
fn completion_with_removal_derives_the_removed_factors_anew() {
    let given = table(&[
        (ELECTRICIDAD, RED, SUMINISTRO, A, 500, 2000),
        (ELECTRICIDAD, INSITU, SUMINISTRO, B, 1000, 0),
        (ELECTRICIDAD, INSITU, A_RED, A, 1000, 0),
        (ELECTRICIDAD, INSITU, A_NEPB, A, 1000, 0),
    ]);
    let kept = fix_wfactors(given.clone(), &defaults(), false).unwrap();
    assert_eq!(kept.clone(), fix_wfactors(kept, &defaults(), false).unwrap());
    let once = fix_wfactors(given, &defaults(), true).unwrap();
    assert_eq!(None, weights(&once, (ELECTRICIDAD, INSITU, SUMINISTRO, A)));
    assert_eq!(
        Err(EpbdError::MissingDerivationSource { carrier: ELECTRICIDAD, dest: A_NEPB, step: A }),
        fix_wfactors(once, &defaults(), true)
    );
}

#[test]
fn a_cogeneration_supply_row_of_another_carrier_does_not_stand_for_electricity() {
    let given = table(&[
        (ELECTRICIDAD, RED, SUMINISTRO, A, 500, 2000),
        (GASNATURAL, RED, SUMINISTRO, A, 0, 1100),
        (GASNATURAL, COGENERACION, SUMINISTRO, A, 7, 7),
    ]);
    let out = fix_wfactors(given, &defaults(), false).unwrap();
    assert_eq!(Some((0, 0)), weights(&out, (ELECTRICIDAD, COGENERACION, SUMINISTRO, A)));
    let at_step_b = table(&[
        (ELECTRICIDAD, RED, SUMINISTRO, A, 500, 2000),
        (ELECTRICIDAD, COGENERACION, SUMINISTRO, B, 7, 7),
    ]);
    let out = fix_wfactors(at_step_b, &defaults(), false).unwrap();
    assert_eq!(None, weights(&out, (ELECTRICIDAD, COGENERACION, SUMINISTRO, A)));
}

#[test]
fn rows_with_the_same_key_are_found_out() {
    assert!(table(&[]).has_unique_keys());
    assert!(two_grid_rows().has_unique_keys());
    assert!(get_ctefp_peninsula().has_unique_keys());
    assert!(fix_wfactors(two_grid_rows(), &defaults(), true).unwrap().has_unique_keys());
    let doubled = table(&[
        (ELECTRICIDAD, RED, SUMINISTRO, A, 500, 2000),
        (GASNATURAL, RED, SUMINISTRO, A, 0, 1100),
        (ELECTRICIDAD, RED, SUMINISTRO, B, 500, 2000),
        (ELECTRICIDAD, RED, SUMINISTRO, A, 1, 1),
    ]);
    assert!(!doubled.has_unique_keys());
    let almost = table(&[
        (ELECTRICIDAD, RED, SUMINISTRO, A, 500, 2000),
        (ELECTRICIDAD, RED, SUMINISTRO, B, 500, 2000),
        (ELECTRICIDAD, RED, A_RED, A, 500, 2000),
        (ELECTRICIDAD, INSITU, SUMINISTRO, A, 500, 2000),
        (GASNATURAL, RED, SUMINISTRO, A, 500, 2000),
    ]);
    assert!(almost.has_unique_keys());
}

// ------------------------------------------ completion against a plain model

/// Completion written down once more, rule by rule, on plain rows.
fn plain_completion(mut rows: Vec<Row>, user: &UserWFactors, strip: bool) -> Result<Vec<Row>, EpbdError> {
    let key = |r: &Row| (r.0, r.1, r.2, r.3);
    let mut carriers: Vec<Carrier> = Vec::new();
    for r in &rows {
        if !carriers.contains(&r.0) {
            carriers.push(r.0);
        }
    }
    if !rows.iter().any(|r| key(r) == (MEDIOAMBIENTE, INSITU, SUMINISTRO, A)) {
        rows.push((MEDIOAMBIENTE, INSITU, SUMINISTRO, A, 1000, 0));
    }
    if !rows.iter().any(|r| key(r) == (MEDIOAMBIENTE, RED, SUMINISTRO, A)) {
        rows.push((MEDIOAMBIENTE, RED, SUMINISTRO, A, 1000, 0));
    }
    if carriers.contains(&ELECTRICIDAD)
        && !rows.iter().any(|r| (r.0, r.1, r.2) == (ELECTRICIDAD, INSITU, SUMINISTRO))
    {
        rows.push((ELECTRICIDAD, INSITU, SUMINISTRO, A, 1000, 0));
    }
    for c in &carriers {
        if !rows.iter().any(|r| key(r) == (*c, RED, SUMINISTRO, A)) {
            return Err(EpbdError::MissingGridFactor { carrier: *c });
        }
    }
    if !rows.iter().any(|r| (r.0, r.1, r.2) == (ELECTRICIDAD, COGENERACION, SUMINISTRO)) {
        rows.push((ELECTRICIDAD, COGENERACION, SUMINISTRO, A, 0, 0));
    }
    for (c, s) in [(ELECTRICIDAD, INSITU), (ELECTRICIDAD, COGENERACION), (MEDIOAMBIENTE, INSITU)] {
        for (dest, step) in [(A_RED, A), (A_NEPB, A), (A_RED, B), (A_NEPB, B)] {
            if rows.iter().any(|r| key(r) == (c, s, dest, step)) {
                continue;
            }
            let missing = EpbdError::MissingDerivationSource { carrier: c, dest, step };
            let from = if step == B {
                rows.iter().find(|r| key(r) == (c, RED, SUMINISTRO, A)).map(|r| (r.4, r.5))
            } else if s == COGENERACION {
                let w = if dest == A_NEPB { user.cogennepb } else { user.cogen };
                Some((w.ren, w.nren))
            } else {
                rows.iter().find(|r| key(r) == (c, s, SUMINISTRO, A)).map(|r| (r.4, r.5))
            };
            match from {
                Some((ren, nren)) => rows.push((c, s, dest, step, ren, nren)),
                None => return Err(missing),
            }
        }
    }
    if !rows.iter().any(|r| key(r) == (RED1, RED, SUMINISTRO, A)) {
        rows.push((RED1, RED, SUMINISTRO, A, user.red1.ren, user.red1.nren));
    }
    if !rows.iter().any(|r| key(r) == (RED2, RED, SUMINISTRO, A)) {
        rows.push((RED2, RED, SUMINISTRO, A, user.red2.ren, user.red2.nren));
    }
    if strip {
        rows.retain(|r| r.2 != A_NEPB);
    }
    Ok(rows)
}

/// A sequence of numbers that looks random and is the same on every run.
struct Numbers(u64);

impl Numbers {
    fn next(&mut self, below: u64) -> u64 {
        self.0 = self.0.wrapping_mul(6364136223846793005).wrapping_add(1442695040888963407);
        (self.0 >> 33) % below
    }
}

#[test]
fn completion_agrees_with_a_plain_model_on_many_tables() {
    let carriers = [ELECTRICIDAD, MEDIOAMBIENTE, GASNATURAL, RED1, RED2, Carrier::BIOMASA];
    let sources = [RED, INSITU, COGENERACION];
    let dests = [SUMINISTRO, A_RED, A_NEPB];
    let steps = [A, B];
    let mut n = Numbers(20);
    let mut succeeded = 0;
    let mut failed = 0;
    for round in 0..4000 {
        let len = n.next(12) as usize;
        let mut rows: Vec<Row> = Vec::new();
        if round % 2 == 0 {
            rows.push((ELECTRICIDAD, RED, SUMINISTRO, A, 500, 2000));
        }
        for _ in 0..len {
            let carrier = carriers[n.next(if round % 3 == 0 { 2 } else { 6 }) as usize];
            let source = if n.next(3) == 0 { sources[n.next(3) as usize] } else { RED };
            let dest = if n.next(3) == 0 { dests[n.next(3) as usize] } else { SUMINISTRO };
            let step = if n.next(4) == 0 { B } else { steps[n.next(2) as usize] };
            rows.push((carrier, source, dest, step, n.next(3000) as i64, n.next(3000) as i64));
        }
        let user = UserWFactors {
            cogen: RenNren::new(n.next(2) as i64 * 7, 2500),
            cogennepb: RenNren::new(0, 2500 - n.next(2) as i64),
            red1: RenNren::new(n.next(9) as i64, 1300),
            red2: RenNren::new(0, n.next(9) as i64),
        };
        let strip = n.next(2) == 0;
        let expected = plain_completion(rows.clone(), &user, strip);
        let got = fix_wfactors(table(&rows), &user, strip).map(|t| rows_of(&t));
        assert_eq!(expected, got, "table {:?}", rows);
        match got {
            Ok(_) => succeeded += 1,
            Err(_) => failed += 1,
        }
    }
    assert!(succeeded > 200 && failed > 200);
}
