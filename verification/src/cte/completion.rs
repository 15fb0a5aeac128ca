//! Completion of a table of weighting factors: every factor that a
//! computation needs and the table lacks is added, taken from the rows that
//! are there or from the values that the user settled on.

use vstd::prelude::*;
use crate::cte::completion_laws::{
    all_covered, free_of_nepb, lemma_completion_covers, lemma_completion_strips,
};
use crate::distinct::{distinct, distinct_codes, lemma_distinct_map};
use crate::error::EpbdError;
use crate::rennren::RenNren;
use crate::types::{Carrier, Dest, Source, Step};
use crate::wfactors::{
    Factor, FactorRow, Factors, Selector, factor_rows, find_factor, first_match, has_match,
};

verus! {

/// Comment of the factor added for ambient energy taken on site.
pub const AMBIENT_ONSITE_COMMENT: &'static str =
    "Recursos usados para obtener energía térmica del medioambiente";

/// Comment of the factor added for ambient energy from its fictitious grid.
pub const AMBIENT_GRID_COMMENT: &'static str =
    "Recursos usados para obtener energía térmica del medioambiente (red ficticia)";

/// Comment of the factor added for electricity produced on site.
pub const ONSITE_ELECTRICITY_COMMENT: &'static str =
    "Recursos usados para generar electricidad in situ";

/// Comment of the factor added for the supply of cogenerated electricity.
pub const COGEN_SUPPLY_COMMENT: &'static str =
    "Factor de paso generado (el impacto de la cogeneración se tiene en cuenta en el vector de suministro)";

/// Comment of a step A factor for export to the grid.
pub const TO_GRID_A_COMMENT: &'static str =
    "Recursos usados para producir la energía exportada a la red";

/// Comment of a step A factor for export to non-regulated uses.
pub const TO_NEPB_A_COMMENT: &'static str =
    "Recursos usados para producir la energía exportada a usos no EPB";

/// Comment of the step A factor for cogenerated electricity exported to the
/// grid, where the weights are the predefined ones.
pub const COGEN_TO_GRID_DEFAULT_COMMENT: &'static str =
    "Recursos usados para producir la electricidad cogenerada y exportada a la red (ver EN ISO 52000-1 9.6.6.2.3) (Valor predefinido)";

/// Comment of the step A factor for cogenerated electricity exported to the
/// grid, where the weights are the user's.
pub const COGEN_TO_GRID_USER_COMMENT: &'static str =
    "Recursos usados para producir la electricidad cogenerada y exportada a la red (ver EN ISO 52000-1 9.6.6.2.3) (Valor de usuario)";

/// Comment of the step A factor for cogenerated electricity exported to
/// non-regulated uses, where the weights are the predefined ones.
pub const COGEN_TO_NEPB_DEFAULT_COMMENT: &'static str =
    "Recursos usados para producir la electricidad cogenerada y exportada a usos no EPB (ver EN ISO 52000-1 9.6.6.2.3) (Valor predefinido)";

/// Comment of the step A factor for cogenerated electricity exported to
/// non-regulated uses, where the weights are the user's.
pub const COGEN_TO_NEPB_USER_COMMENT: &'static str =
    "Recursos usados para producir la electricidad cogenerada y exportada a usos no EPB (ver EN ISO 52000-1 9.6.6.2.3) (Valor de usuario)";

/// Comment of a step B factor for export to the grid.
pub const TO_GRID_B_COMMENT: &'static str =
    "Recursos ahorrados a la red por la energía producida in situ y exportada a la red";

/// Comment of a step B factor for export to non-regulated uses.
pub const TO_NEPB_B_COMMENT: &'static str =
    "Recursos ahorrados a la red por la energía producida in situ y exportada a usos no EPB";

/// Comment of the factor added for district network 1.
pub const RED1_COMMENT: &'static str =
    "Recursos usados para suministrar energía de la red de distrito 1 (definible por el usuario)";

/// Comment of the factor added for district network 2.
pub const RED2_COMMENT: &'static str =
    "Recursos usados para suministrar energía de la red de distrito 2 (definible por el usuario)";

/// Weights of cogenerated electricity exported to the grid, where the user
/// gives none.
pub open spec fn cogen_to_grid_default() -> RenNren {
    RenNren { ren: 0, nren: 2500 }
}

/// Weights of cogenerated electricity exported to non-regulated uses, where
/// the user gives none.
pub open spec fn cogen_to_nepb_default() -> RenNren {
    RenNren { ren: 0, nren: 2500 }
}

/// Weights of district network 1, where the user gives none.
pub open spec fn red1_default() -> RenNren {
    RenNren { ren: 0, nren: 1300 }
}

/// Weights of district network 2, where the user gives none.
pub open spec fn red2_default() -> RenNren {
    RenNren { ren: 0, nren: 1300 }
}

/// Weights of cogenerated electricity exported to the grid, where the user
/// gives none.
#[verifier::when_used_as_spec(cogen_to_grid_default)]
pub fn cte_cogen_defaults_to_grid() -> (r: RenNren)
    ensures
        r == cogen_to_grid_default(),
{
    RenNren { ren: 0, nren: 2500 }
}

/// Weights of cogenerated electricity exported to non-regulated uses, where
/// the user gives none.
#[verifier::when_used_as_spec(cogen_to_nepb_default)]
pub fn cte_cogen_defaults_to_nepb() -> (r: RenNren)
    ensures
        r == cogen_to_nepb_default(),
{
    RenNren { ren: 0, nren: 2500 }
}

/// Weights of district network 1, where the user gives none.
#[verifier::when_used_as_spec(red1_default)]
pub fn cte_red_defaults_red1() -> (r: RenNren)
    ensures
        r == red1_default(),
{
    RenNren { ren: 0, nren: 1300 }
}

/// Weights of district network 2, where the user gives none.
#[verifier::when_used_as_spec(red2_default)]
pub fn cte_red_defaults_red2() -> (r: RenNren)
    ensures
        r == red2_default(),
{
    RenNren { ren: 0, nren: 1300 }
}

/// The weights that the user settled on for the four families of factors
/// that a user may set.
#[derive(Clone, Copy, Debug, PartialEq, Eq, Structural)]
pub struct UserWFactors {
    /// Cogenerated electricity exported to the grid.
    pub cogen: RenNren,
    /// Cogenerated electricity exported to non-regulated uses.
    pub cogennepb: RenNren,
    /// District network 1.
    pub red1: RenNren,
    /// District network 2.
    pub red2: RenNren,
}

/// A row made of its parts.
pub open spec fn row(
    carrier: Carrier,
    source: Source,
    dest: Dest,
    step: Step,
    ren: int,
    nren: int,
    comment: Seq<char>,
) -> FactorRow {
    FactorRow { carrier, source, dest, step, ren, nren, comment }
}

/// The table with a row added at its end, unless some row fits the pattern.
pub open spec fn ensured(t: Seq<FactorRow>, sel: Selector, r: FactorRow) -> Seq<FactorRow> {
    if has_match(t, sel) {
        t
    } else {
        t.push(r)
    }
}

/// The key of the factor for supply of a carrier from the grid at step A.
pub open spec fn grid_key(c: Carrier) -> Selector {
    Selector::key(c, Source::RED, Dest::SUMINISTRO, Step::A)
}

/// The pattern of all rows of one carrier.
pub open spec fn carrier_rows(c: Carrier) -> Selector {
    Selector { carrier: Some(c), source: None, dest: None, step: None }
}

/// The pattern of the rows for supply of a carrier from a source, at any
/// step.
pub open spec fn supply_rows(c: Carrier, s: Source) -> Selector {
    Selector { carrier: Some(c), source: Some(s), dest: Some(Dest::SUMINISTRO), step: None }
}

/// The table with the supply factors that can be assumed: ambient energy
/// taken on site and from its fictitious grid weighs one renewable unit,
/// and so does electricity produced on site where the table has
/// electricity at all.
pub open spec fn with_supply_defaults(t: Seq<FactorRow>) -> Seq<FactorRow> {
    let t1 = ensured(
        t,
        Selector::key(Carrier::MEDIOAMBIENTE, Source::INSITU, Dest::SUMINISTRO, Step::A),
        row(
            Carrier::MEDIOAMBIENTE,
            Source::INSITU,
            Dest::SUMINISTRO,
            Step::A,
            1000,
            0,
            AMBIENT_ONSITE_COMMENT@,
        ),
    );
    let t2 = ensured(
        t1,
        grid_key(Carrier::MEDIOAMBIENTE),
        row(
            Carrier::MEDIOAMBIENTE,
            Source::RED,
            Dest::SUMINISTRO,
            Step::A,
            1000,
            0,
            AMBIENT_GRID_COMMENT@,
        ),
    );
    if has_match(t2, carrier_rows(Carrier::ELECTRICIDAD)) {
        ensured(
            t2,
            supply_rows(Carrier::ELECTRICIDAD, Source::INSITU),
            row(
                Carrier::ELECTRICIDAD,
                Source::INSITU,
                Dest::SUMINISTRO,
                Step::A,
                1000,
                0,
                ONSITE_ELECTRICITY_COMMENT@,
            ),
        )
    } else {
        t2
    }
}

/// The carriers of the rows of a table, row by row.
pub open spec fn carriers_of(t: Seq<FactorRow>) -> Seq<Carrier> {
    Seq::new(t.len(), |i: int| t[i].carrier)
}

/// The first of the given carriers that has no factor for supply from the
/// grid at step A in the table.
pub open spec fn first_uncovered(t: Seq<FactorRow>, carriers: Seq<Carrier>) -> Option<Carrier>
    decreases carriers.len(),
{
    if carriers.len() == 0 {
        None
    } else {
        match first_uncovered(t, carriers.drop_last()) {
            Some(c) => Some(c),
            None => if has_match(t, grid_key(carriers.last())) {
                None
            } else {
                Some(carriers.last())
            },
        }
    }
}

/// The table with the factor for the supply of cogenerated electricity,
/// which weighs nothing: what cogeneration costs is counted where its fuel
/// is supplied.
pub open spec fn with_cogen_supply(t: Seq<FactorRow>) -> Seq<FactorRow> {
    ensured(
        t,
        supply_rows(Carrier::ELECTRICIDAD, Source::COGENERACION),
        row(
            Carrier::ELECTRICIDAD,
            Source::COGENERACION,
            Dest::SUMINISTRO,
            Step::A,
            0,
            0,
            COGEN_SUPPLY_COMMENT@,
        ),
    )
}

/// The step A row for cogenerated energy exported to a destination, with
/// the weights that the user settled on.
pub open spec fn cogen_export_row(c: Carrier, dest: Dest, user: UserWFactors) -> FactorRow {
    if dest == Dest::A_NEPB {
        row(
            c,
            Source::COGENERACION,
            dest,
            Step::A,
            user.cogennepb.ren as int,
            user.cogennepb.nren as int,
            if user.cogennepb == cogen_to_nepb_default() {
                COGEN_TO_NEPB_DEFAULT_COMMENT@
            } else {
                COGEN_TO_NEPB_USER_COMMENT@
            },
        )
    } else {
        row(
            c,
            Source::COGENERACION,
            dest,
            Step::A,
            user.cogen.ren as int,
            user.cogen.nren as int,
            if user.cogen == cogen_to_grid_default() {
                COGEN_TO_GRID_DEFAULT_COMMENT@
            } else {
                COGEN_TO_GRID_USER_COMMENT@
            },
        )
    }
}

/// The comment of an export factor that is taken from a supply factor.
pub open spec fn export_comment(dest: Dest, step: Step) -> Seq<char> {
    match (dest, step) {
        (Dest::A_NEPB, Step::A) => TO_NEPB_A_COMMENT@,
        (Dest::A_NEPB, Step::B) => TO_NEPB_B_COMMENT@,
        (_, Step::A) => TO_GRID_A_COMMENT@,
        (_, Step::B) => TO_GRID_B_COMMENT@,
    }
}

/// The key of the supply factor that an export factor is taken from. At
/// step A it is the supply from the same source: what was used to produce
/// the energy. At step B it is the supply from the grid: what the grid is
/// spared.
pub open spec fn origin_key(c: Carrier, s: Source, step: Step) -> Selector {
    match step {
        Step::A => Selector::key(c, s, Dest::SUMINISTRO, Step::A),
        Step::B => grid_key(c),
    }
}

/// The export factor of a carrier from a source to a destination at a
/// step, as it is derived where the table lacks it; none where the factor
/// it would be taken from is absent.
pub open spec fn export_row(
    t: Seq<FactorRow>,
    c: Carrier,
    s: Source,
    dest: Dest,
    step: Step,
    user: UserWFactors,
) -> Option<FactorRow> {
    if step == Step::A && s == Source::COGENERACION {
        Some(cogen_export_row(c, dest, user))
    } else {
        match first_match(t, origin_key(c, s, step)) {
            Some(i) => Some(row(c, s, dest, step, t[i].ren, t[i].nren, export_comment(dest, step))),
            None => None,
        }
    }
}

/// The table with the export factor of a carrier from a source to a
/// destination at a step: unchanged where it has one, else with the
/// derived one at its end; a failure where none can be derived.
pub open spec fn with_export(
    t: Seq<FactorRow>,
    c: Carrier,
    s: Source,
    dest: Dest,
    step: Step,
    user: UserWFactors,
) -> Result<Seq<FactorRow>, EpbdError> {
    if has_match(t, Selector::key(c, s, dest, step)) {
        Ok(t)
    } else {
        match export_row(t, c, s, dest, step, user) {
            Some(r) => Ok(t.push(r)),
            None => Err(EpbdError::MissingDerivationSource { carrier: c, dest, step }),
        }
    }
}

/// The table with the four export factors of a carrier from a source: to
/// the grid and to non-regulated uses at step A, then both at step B.
pub open spec fn with_exports(t: Seq<FactorRow>, c: Carrier, s: Source, user: UserWFactors) -> Result<
    Seq<FactorRow>,
    EpbdError,
> {
    match with_export(t, c, s, Dest::A_RED, Step::A, user) {
        Err(e) => Err(e),
        Ok(t1) => match with_export(t1, c, s, Dest::A_NEPB, Step::A, user) {
            Err(e) => Err(e),
            Ok(t2) => match with_export(t2, c, s, Dest::A_RED, Step::B, user) {
                Err(e) => Err(e),
                Ok(t3) => with_export(t3, c, s, Dest::A_NEPB, Step::B, user),
            },
        },
    }
}

/// The table with the factors of both district networks for supply from
/// the grid at step A, at the weights that the user settled on.
pub open spec fn with_district_defaults(t: Seq<FactorRow>, user: UserWFactors) -> Seq<FactorRow> {
    let t1 = ensured(
        t,
        grid_key(Carrier::RED1),
        row(
            Carrier::RED1,
            Source::RED,
            Dest::SUMINISTRO,
            Step::A,
            user.red1.ren as int,
            user.red1.nren as int,
            RED1_COMMENT@,
        ),
    );
    ensured(
        t1,
        grid_key(Carrier::RED2),
        row(
            Carrier::RED2,
            Source::RED,
            Dest::SUMINISTRO,
            Step::A,
            user.red2.ren as int,
            user.red2.nren as int,
            RED2_COMMENT@,
        ),
    )
}

/// The rows of a table that do not go to non-regulated uses, in their
/// order.
pub open spec fn without_nepb(t: Seq<FactorRow>) -> Seq<FactorRow>
    decreases t.len(),
{
    if t.len() == 0 {
        Seq::empty()
    } else if t.last().dest == Dest::A_NEPB {
        without_nepb(t.drop_last())
    } else {
        without_nepb(t.drop_last()).push(t.last())
    }
}

/// The completed table, or why it cannot be completed. The rules apply in
/// this order, each to what the one before left:
/// the supply factors that can be assumed; the demand that every carrier
/// of the given table has a factor for supply from the grid at step A; the
/// supply of cogenerated electricity; the export factors of electricity
/// produced on site, of cogenerated electricity and of ambient energy
/// taken on site; the district networks; and, if asked for, the removal of
/// the rows that go to non-regulated uses.
pub open spec fn completed(t: Seq<FactorRow>, user: UserWFactors, stripnepb: bool) -> Result<
    Seq<FactorRow>,
    EpbdError,
> {
    let t1 = with_supply_defaults(t);
    match first_uncovered(t1, distinct(carriers_of(t))) {
        Some(c) => Err(EpbdError::MissingGridFactor { carrier: c }),
        None => {
            let t2 = with_cogen_supply(t1);
            match with_exports(t2, Carrier::ELECTRICIDAD, Source::INSITU, user) {
                Err(e) => Err(e),
                Ok(t3) => match with_exports(
                    t3,
                    Carrier::ELECTRICIDAD,
                    Source::COGENERACION,
                    user,
                ) {
                    Err(e) => Err(e),
                    Ok(t4) => match with_exports(
                        t4,
                        Carrier::MEDIOAMBIENTE,
                        Source::INSITU,
                        user,
                    ) {
                        Err(e) => Err(e),
                        Ok(t5) => {
                            let t6 = with_district_defaults(t5, user);
                            Ok(
                                if stripnepb {
                                    without_nepb(t6)
                                } else {
                                    t6
                                },
                            )
                        },
                    },
                },
            }
        },
    }
}

/// Adds a factor at the end of the list unless some factor fits the
/// pattern.
fn ensure_row(
    wdata: &mut Vec<Factor>,
    sel: &Selector,
    carrier: Carrier,
    source: Source,
    dest: Dest,
    step: Step,
    ren: i64,
    nren: i64,
    comment: &str,
)
    ensures
        factor_rows(final(wdata)@) == ensured(
            factor_rows(old(wdata)@),
            *sel,
            row(carrier, source, dest, step, ren as int, nren as int, comment@),
        ),
{
    if find_factor(wdata, sel).is_none() {
        wdata.push(Factor::new(carrier, source, dest, step, ren, nren, String::from_str(comment)));
        assert(factor_rows(wdata@) =~= factor_rows(old(wdata)@).push(
            row(carrier, source, dest, step, ren as int, nren as int, comment@),
        ));
    }
}

/// Adds the export factor of a carrier from a source to a destination at a
/// step, where the list lacks it.
fn ensure_export(
    wdata: &mut Vec<Factor>,
    c: Carrier,
    s: Source,
    dest: Dest,
    step: Step,
    user: &UserWFactors,
) -> (r: Result<(), EpbdError>)
    ensures
        match r {
            Ok(_) => with_export(factor_rows(old(wdata)@), c, s, dest, step, *user) == Ok::<
                Seq<FactorRow>,
                EpbdError,
            >(factor_rows(final(wdata)@)),
            Err(e) => with_export(factor_rows(old(wdata)@), c, s, dest, step, *user) == Err::<
                Seq<FactorRow>,
                EpbdError,
            >(e) && final(wdata)@ == old(wdata)@,
        },
{
    let key: Selector = Selector::of_key(c, s, dest, step);
    if find_factor(wdata, &key).is_some() {
        return Ok(());
    }
    let is_a: bool = step == Step::A;
    if is_a && s == Source::COGENERACION {
        let to_nepb: bool = dest == Dest::A_NEPB;
        let weights: RenNren = if to_nepb {
            user.cogennepb
        } else {
            user.cogen
        };
        let comment: &str = if to_nepb {
            if user.cogennepb == cte_cogen_defaults_to_nepb() {
                COGEN_TO_NEPB_DEFAULT_COMMENT
            } else {
                COGEN_TO_NEPB_USER_COMMENT
            }
        } else {
            if user.cogen == cte_cogen_defaults_to_grid() {
                COGEN_TO_GRID_DEFAULT_COMMENT
            } else {
                COGEN_TO_GRID_USER_COMMENT
            }
        };
        wdata.push(
            Factor::new(c, s, dest, step, weights.ren, weights.nren, String::from_str(comment)),
        );
        assert(factor_rows(wdata@) =~= factor_rows(old(wdata)@).push(
            cogen_export_row(c, dest, *user),
        ));
        return Ok(());
    }
    let origin: Selector = if is_a {
        Selector::of_key(c, s, Dest::SUMINISTRO, Step::A)
    } else {
        Selector::of_key(c, Source::RED, Dest::SUMINISTRO, Step::A)
    };
    match find_factor(wdata, &origin) {
        Some(i) => {
            let ren: i64 = wdata[i].ren;
            let nren: i64 = wdata[i].nren;
            let to_nepb: bool = dest == Dest::A_NEPB;
            let comment: &str = if to_nepb {
                if is_a {
                    TO_NEPB_A_COMMENT
                } else {
                    TO_NEPB_B_COMMENT
                }
            } else {
                if is_a {
                    TO_GRID_A_COMMENT
                } else {
                    TO_GRID_B_COMMENT
                }
            };
            wdata.push(Factor::new(c, s, dest, step, ren, nren, String::from_str(comment)));
            assert(factor_rows(wdata@) =~= factor_rows(old(wdata)@).push(
                row(
                    c,
                    s,
                    dest,
                    step,
                    factor_rows(old(wdata)@)[i as int].ren,
                    factor_rows(old(wdata)@)[i as int].nren,
                    export_comment(dest, step),
                ),
            ));
            Ok(())
        },
        None => Err(EpbdError::MissingDerivationSource { carrier: c, dest, step }),
    }
}

/// Adds the four export factors of a carrier from a source, where the list
/// lacks them.
fn ensure_exports(wdata: &mut Vec<Factor>, c: Carrier, s: Source, user: &UserWFactors) -> (r:
    Result<(), EpbdError>)
    ensures
        match r {
            Ok(_) => with_exports(factor_rows(old(wdata)@), c, s, *user) == Ok::<
                Seq<FactorRow>,
                EpbdError,
            >(factor_rows(final(wdata)@)),
            Err(e) => with_exports(factor_rows(old(wdata)@), c, s, *user) == Err::<
                Seq<FactorRow>,
                EpbdError,
            >(e),
        },
{
    match ensure_export(wdata, c, s, Dest::A_RED, Step::A, user) {
        Err(e) => {
            return Err(e);
        },
        Ok(_) => {},
    }
    match ensure_export(wdata, c, s, Dest::A_NEPB, Step::A, user) {
        Err(e) => {
            return Err(e);
        },
        Ok(_) => {},
    }
    match ensure_export(wdata, c, s, Dest::A_RED, Step::B, user) {
        Err(e) => {
            return Err(e);
        },
        Ok(_) => {},
    }
    ensure_export(wdata, c, s, Dest::A_NEPB, Step::B, user)
}

/// Where the first uncovered carrier of a front part of a list is known,
/// it is the first uncovered carrier of the whole list.
proof fn lemma_first_uncovered_front(t: Seq<FactorRow>, carriers: Seq<Carrier>, k: int)
    requires
        0 <= k <= carriers.len(),
        first_uncovered(t, carriers.take(k)) is Some,
    ensures
        first_uncovered(t, carriers) == first_uncovered(t, carriers.take(k)),
    decreases carriers.len() - k,
{
    if k < carriers.len() {
        assert(carriers.take(k + 1).drop_last() =~= carriers.take(k));
        lemma_first_uncovered_front(t, carriers, k + 1);
    } else {
        assert(carriers.take(k) =~= carriers);
    }
}

/// The carriers of a list of factors as codes, factor by factor.
fn carrier_codes(wdata: &Vec<Factor>) -> (r: Vec<u8>)
    ensures
        r@ == carriers_of(factor_rows(wdata@)).map_values(|c: Carrier| c.code_spec()),
{
    let mut codes: Vec<u8> = Vec::new();
    let n: usize = wdata.len();
    let mut i: usize = 0;
    while i < n
        invariant
            i <= n,
            n == wdata.len(),
            codes.len() == i,
            forall|j: int| 0 <= j < i ==> #[trigger] codes[j] == wdata[j].carrier.code_spec(),
        decreases n - i,
    {
        codes.push(wdata[i].carrier.code());
        i = i + 1;
    }
    assert(codes@ =~= carriers_of(factor_rows(wdata@)).map_values(|c: Carrier| c.code_spec()));
    codes
}

/// The first carrier among those given as codes that has no factor for
/// supply from the grid at step A.
fn find_uncovered(wdata: &Vec<Factor>, codes: &Vec<u8>, Ghost(carriers): Ghost<Seq<Carrier>>) -> (r:
    Option<Carrier>)
    requires
        codes@ == carriers.map_values(|c: Carrier| c.code_spec()),
    ensures
        r == first_uncovered(factor_rows(wdata@), carriers),
{
    let n: usize = codes.len();
    let mut k: usize = 0;
    while k < n
        invariant
            k <= n,
            n == codes.len(),
            codes@ == carriers.map_values(|c: Carrier| c.code_spec()),
            first_uncovered(factor_rows(wdata@), carriers.take(k as int)) == None::<Carrier>,
        decreases n - k,
    {
        assert(carriers.take(k + 1).drop_last() =~= carriers.take(k as int));
        assert(codes[k as int] == carriers[k as int].code_spec());
        match Carrier::from_code(codes[k]) {
            Some(c) => {
                let key: Selector = Selector::of_key(
                    c,
                    Source::RED,
                    Dest::SUMINISTRO,
                    Step::A,
                );
                if find_factor(wdata, &key).is_none() {
                    proof {
                        lemma_first_uncovered_front(factor_rows(wdata@), carriers, k + 1);
                    }
                    return Some(c);
                }
            },
            None => {},
        }
        k = k + 1;
    }
    assert(carriers.take(n as int) =~= carriers);
    None
}

/// The factors that do not go to non-regulated uses, in their order.
fn strip_nepb(wdata: &Vec<Factor>) -> (r: Vec<Factor>)
    ensures
        factor_rows(r@) == without_nepb(factor_rows(wdata@)),
{
    let mut out: Vec<Factor> = Vec::new();
    let n: usize = wdata.len();
    let mut i: usize = 0;
    assert(factor_rows(wdata@).take(0) =~= Seq::<FactorRow>::empty());
    while i < n
        invariant
            i <= n,
            n == wdata.len(),
            factor_rows(out@) =~= without_nepb(factor_rows(wdata@).take(i as int)),
        decreases n - i,
    {
        proof {
            let rows = factor_rows(wdata@);
            assert(rows.take(i + 1).drop_last() =~= rows.take(i as int));
            assert(rows.take(i + 1).last() == wdata[i as int]@);
        }
        if wdata[i].dest != Dest::A_NEPB {
            out.push(wdata[i].clone());
        }
        i = i + 1;
    }
    assert(factor_rows(wdata@).take(n as int) =~= factor_rows(wdata@));
    out
}

/// Completes a table of weighting factors.
///
/// On success the rows are those of `completed` and the metadata is
/// untouched: every carrier of the table then has its factor for supply
/// from the grid at step A, and with removal no row goes to non-regulated
/// uses. A failure is the one that `completed` names, and nothing of the
/// table is handed back.
pub fn fix_wfactors(wfactors: Factors, user_wfactors: &UserWFactors, stripnepb: bool) -> (r: Result<
    Factors,
    EpbdError,
>)
    ensures
        match r {
            Ok(out) => completed(wfactors@.wdata, *user_wfactors, stripnepb) == Ok::<
                Seq<FactorRow>,
                EpbdError,
            >(out@.wdata) && out@.wmeta == wfactors@.wmeta && all_covered(out@.wdata) && (stripnepb
                ==> free_of_nepb(out@.wdata)),
            Err(e) => completed(wfactors@.wdata, *user_wfactors, stripnepb) == Err::<
                Seq<FactorRow>,
                EpbdError,
            >(e),
        },
{
    let ghost t0 = wfactors@.wdata;
    proof {
        lemma_completion_covers(t0, *user_wfactors, stripnepb);
        lemma_completion_strips(t0, *user_wfactors);
    }
    let Factors { wmeta, wdata } = wfactors;
    let mut wdata: Vec<Factor> = wdata;
    let codes: Vec<u8> = carrier_codes(&wdata);
    let present: Vec<u8> = distinct_codes(&codes);
    proof {
        assert forall|a: Carrier, b: Carrier| a.code_spec() == b.code_spec() implies a == b by {
            assert(Carrier::of_code(a.code_spec()) == Some(a));
            assert(Carrier::of_code(b.code_spec()) == Some(b));
        }
        lemma_distinct_map(carriers_of(t0), |c: Carrier| c.code_spec());
    }

    let ambient_onsite: Selector = Selector::of_key(
        Carrier::MEDIOAMBIENTE,
        Source::INSITU,
        Dest::SUMINISTRO,
        Step::A,
    );
    ensure_row(
        &mut wdata,
        &ambient_onsite,
        Carrier::MEDIOAMBIENTE,
        Source::INSITU,
        Dest::SUMINISTRO,
        Step::A,
        1000,
        0,
        AMBIENT_ONSITE_COMMENT,
    );
    let ambient_grid: Selector = Selector::of_key(
        Carrier::MEDIOAMBIENTE,
        Source::RED,
        Dest::SUMINISTRO,
        Step::A,
    );
    ensure_row(
        &mut wdata,
        &ambient_grid,
        Carrier::MEDIOAMBIENTE,
        Source::RED,
        Dest::SUMINISTRO,
        Step::A,
        1000,
        0,
        AMBIENT_GRID_COMMENT,
    );
    let electricity: Selector = Selector {
        carrier: Some(Carrier::ELECTRICIDAD),
        source: None,
        dest: None,
        step: None,
    };
    if find_factor(&wdata, &electricity).is_some() {
        let onsite_supply: Selector = Selector {
            carrier: Some(Carrier::ELECTRICIDAD),
            source: Some(Source::INSITU),
            dest: Some(Dest::SUMINISTRO),
            step: None,
        };
        ensure_row(
            &mut wdata,
            &onsite_supply,
            Carrier::ELECTRICIDAD,
            Source::INSITU,
            Dest::SUMINISTRO,
            Step::A,
            1000,
            0,
            ONSITE_ELECTRICITY_COMMENT,
        );
    }
    assert(factor_rows(wdata@) == with_supply_defaults(t0));

    match find_uncovered(&wdata, &present, Ghost(distinct(carriers_of(t0)))) {
        Some(c) => {
            return Err(EpbdError::MissingGridFactor { carrier: c });
        },
        None => {},
    }

    let cogen_supply: Selector = Selector {
        carrier: Some(Carrier::ELECTRICIDAD),
        source: Some(Source::COGENERACION),
        dest: Some(Dest::SUMINISTRO),
        step: None,
    };
    ensure_row(
        &mut wdata,
        &cogen_supply,
        Carrier::ELECTRICIDAD,
        Source::COGENERACION,
        Dest::SUMINISTRO,
        Step::A,
        0,
        0,
        COGEN_SUPPLY_COMMENT,
    );

    match ensure_exports(&mut wdata, Carrier::ELECTRICIDAD, Source::INSITU, user_wfactors) {
        Err(e) => {
            return Err(e);
        },
        Ok(_) => {},
    }
    match ensure_exports(&mut wdata, Carrier::ELECTRICIDAD, Source::COGENERACION, user_wfactors) {
        Err(e) => {
            return Err(e);
        },
        Ok(_) => {},
    }
    match ensure_exports(&mut wdata, Carrier::MEDIOAMBIENTE, Source::INSITU, user_wfactors) {
        Err(e) => {
            return Err(e);
        },
        Ok(_) => {},
    }

    let red1_key: Selector = Selector::of_key(
        Carrier::RED1,
        Source::RED,
        Dest::SUMINISTRO,
        Step::A,
    );
    ensure_row(
        &mut wdata,
        &red1_key,
        Carrier::RED1,
        Source::RED,
        Dest::SUMINISTRO,
        Step::A,
        user_wfactors.red1.ren,
        user_wfactors.red1.nren,
        RED1_COMMENT,
    );
    let red2_key: Selector = Selector::of_key(
        Carrier::RED2,
        Source::RED,
        Dest::SUMINISTRO,
        Step::A,
    );
    ensure_row(
        &mut wdata,
        &red2_key,
        Carrier::RED2,
        Source::RED,
        Dest::SUMINISTRO,
        Step::A,
        user_wfactors.red2.ren,
        user_wfactors.red2.nren,
        RED2_COMMENT,
    );

    if stripnepb {
        let kept: Vec<Factor> = strip_nepb(&wdata);
        Ok(Factors { wmeta, wdata: kept })
    } else {
        Ok(Factors { wmeta, wdata })
    }
}

} // verus!
