//! The regulatory factor tables, one for each location, and the way from a
//! table as it is given to a complete one.

use vstd::prelude::*;
use crate::cte::completion::{UserWFactors, completed, fix_wfactors, grid_key, row};
use crate::cte::completion_laws::{
    all_covered, lemma_completion_succeeds, lemma_match_witness,
};
use crate::cte::user::{find_user_wfactors, update_user_wfactors, user_meta, user_wfactors};
use crate::error::EpbdError;
use crate::meta::{Meta, MetaEntry, meta_entries};
use crate::rennren::RenNren;
use crate::tables::parsed_factors;
use crate::types::{Carrier, Dest, Source, Step, same_text};
use crate::wfactors::{Factor, FactorRow, Factors, FactorsView, Selector, factor_rows};

verus! {

/// Name of the mainland.
pub const PENINSULA: &'static str = "PENINSULA";

/// Name of the Balearic Islands.
pub const BALEARES: &'static str = "BALEARES";

/// Name of the Canary Islands.
pub const CANARIAS: &'static str = "CANARIAS";

/// Name of Ceuta and Melilla.
pub const CEUTAMELILLA: &'static str = "CEUTAMELILLA";

/// Metadata key of the source of a regulatory table.
pub const SOURCE_KEY: &'static str = "CTE_FUENTE";

/// The source of the regulatory tables.
pub const SOURCE_VALUE: &'static str = "RITE2014";

/// Metadata key of the location of a regulatory table.
pub const LOCATION_KEY: &'static str = "CTE_LOCALIZACION";

/// Metadata key of the comment on the source of a regulatory table.
pub const SOURCE_COMMENT_KEY: &'static str = "CTE_FUENTE_COMENTARIO";

/// The comment on the source of the regulatory tables.
pub const SOURCE_COMMENT_VALUE: &'static str =
    "Factores de paso del documento reconocido del RITE de 20/07/2014";

/// Comment of the regulatory factor for ambient energy from its fictitious
/// grid.
pub const TABLE_AMBIENT_GRID_COMMENT: &'static str =
    "Recursos usados para suministrar energía térmica del medioambiente (red de suministro ficticia)";

/// Comment of the regulatory factor for ambient energy taken on site.
pub const TABLE_AMBIENT_ONSITE_COMMENT: &'static str =
    "Recursos usados para generar in situ energía térmica del medioambiente (vector renovable)";

/// Comment of a regulatory factor for supply from the grid.
pub const TABLE_GRID_COMMENT: &'static str =
    "Recursos usados para suministrar el vector desde la red";

/// Comment of the regulatory factor for electricity produced on site.
pub const TABLE_ONSITE_ELECTRICITY_COMMENT: &'static str =
    "Recursos usados para producir electricidad in situ";

/// Comment of the regulatory factor for the supply of cogenerated
/// electricity.
pub const TABLE_COGEN_COMMENT: &'static str =
    "Recursos usados para suministrar la energía (0 porque se contabiliza el vector que alimenta el cogenerador)";

/// Comment of the regulatory factor for electricity from the grid.
pub const TABLE_GRID_ELECTRICITY_COMMENT: &'static str =
    "Recursos usados para el suministro desde la red";

/// The weights of electricity supplied from the grid at a location; none
/// for a name that is no known location.
pub open spec fn grid_electricity(loc: Seq<char>) -> Option<RenNren> {
    if loc == PENINSULA@ {
        Some(RenNren { ren: 414, nren: 1954 })
    } else if loc == BALEARES@ {
        Some(RenNren { ren: 82, nren: 2968 })
    } else if loc == CANARIAS@ {
        Some(RenNren { ren: 70, nren: 2924 })
    } else if loc == CEUTAMELILLA@ {
        Some(RenNren { ren: 72, nren: 2718 })
    } else {
        None
    }
}

/// A regulatory row: supply at step A.
pub open spec fn supply(c: Carrier, s: Source, ren: int, nren: int, comment: Seq<char>) -> FactorRow {
    row(c, s, Dest::SUMINISTRO, Step::A, ren, nren, comment)
}

/// The rows of the regulatory table of a location, given the weights of
/// its electricity from the grid.
pub open spec fn location_rows(e: RenNren) -> Seq<FactorRow> {
    seq![
        supply(Carrier::MEDIOAMBIENTE, Source::RED, 1000, 0, TABLE_AMBIENT_GRID_COMMENT@),
        supply(Carrier::MEDIOAMBIENTE, Source::INSITU, 1000, 0, TABLE_AMBIENT_ONSITE_COMMENT@),
        supply(Carrier::BIOCARBURANTE, Source::RED, 1028, 85, TABLE_GRID_COMMENT@),
        supply(Carrier::BIOMASA, Source::RED, 1003, 34, TABLE_GRID_COMMENT@),
        supply(Carrier::BIOMASADENSIFICADA, Source::RED, 1028, 85, TABLE_GRID_COMMENT@),
        supply(Carrier::CARBON, Source::RED, 2, 1082, TABLE_GRID_COMMENT@),
        supply(Carrier::GASNATURAL, Source::RED, 5, 1190, TABLE_GRID_COMMENT@),
        supply(Carrier::GASOLEO, Source::RED, 3, 1179, TABLE_GRID_COMMENT@),
        supply(Carrier::GLP, Source::RED, 3, 1201, TABLE_GRID_COMMENT@),
        supply(Carrier::ELECTRICIDAD, Source::INSITU, 1000, 0, TABLE_ONSITE_ELECTRICITY_COMMENT@),
        supply(Carrier::ELECTRICIDAD, Source::COGENERACION, 0, 0, TABLE_COGEN_COMMENT@),
        supply(
            Carrier::ELECTRICIDAD,
            Source::RED,
            e.ren as int,
            e.nren as int,
            TABLE_GRID_ELECTRICITY_COMMENT@,
        ),
    ]
}

/// The metadata of the regulatory table of a location.
pub open spec fn location_meta(loc: Seq<char>) -> Seq<MetaEntry> {
    seq![
        MetaEntry { key: SOURCE_KEY@, value: SOURCE_VALUE@ },
        MetaEntry { key: LOCATION_KEY@, value: loc },
        MetaEntry { key: SOURCE_COMMENT_KEY@, value: SOURCE_COMMENT_VALUE@ },
    ]
}

/// The complete table that a given table leads to: the weights of the user
/// are settled and written into the metadata, then the rows are completed.
pub open spec fn completed_table(
    given: FactorsView,
    cogen: Option<RenNren>,
    cogennepb: Option<RenNren>,
    red1: Option<RenNren>,
    red2: Option<RenNren>,
    stripnepb: bool,
) -> Result<FactorsView, EpbdError> {
    let user = user_wfactors(given.wmeta, given.wdata, cogen, cogennepb, red1, red2);
    match completed(given.wdata, user, stripnepb) {
        Ok(rows) => Ok(FactorsView { wmeta: user_meta(given.wmeta, user), wdata: rows }),
        Err(e) => Err(e),
    }
}

/// The regulatory table of a location can always be completed.
pub proof fn lemma_location_completes(e: RenNren, user: UserWFactors, stripnepb: bool)
    ensures
        completed(location_rows(e), user, stripnepb) is Ok,
{
    let t = location_rows(e);
    lemma_match_witness(t, grid_key(Carrier::MEDIOAMBIENTE), 0);
    lemma_match_witness(t, grid_key(Carrier::BIOCARBURANTE), 2);
    lemma_match_witness(t, grid_key(Carrier::BIOMASA), 3);
    lemma_match_witness(t, grid_key(Carrier::BIOMASADENSIFICADA), 4);
    lemma_match_witness(t, grid_key(Carrier::CARBON), 5);
    lemma_match_witness(t, grid_key(Carrier::GASNATURAL), 6);
    lemma_match_witness(t, grid_key(Carrier::GASOLEO), 7);
    lemma_match_witness(t, grid_key(Carrier::GLP), 8);
    lemma_match_witness(t, grid_key(Carrier::ELECTRICIDAD), 11);
    lemma_match_witness(
        t,
        Selector::key(Carrier::ELECTRICIDAD, Source::INSITU, Dest::SUMINISTRO, Step::A),
        9,
    );
    assert(all_covered(t));
    lemma_completion_succeeds(t, user, stripnepb);
}

/// Adds a regulatory row to a list of factors.
fn push_supply(wdata: &mut Vec<Factor>, c: Carrier, s: Source, ren: i64, nren: i64, comment: &str)
    ensures
        factor_rows(final(wdata)@) == factor_rows(old(wdata)@).push(
            supply(c, s, ren as int, nren as int, comment@),
        ),
{
    wdata.push(Factor::new(c, s, Dest::SUMINISTRO, Step::A, ren, nren, String::from_str(comment)));
    assert(factor_rows(wdata@) =~= factor_rows(old(wdata)@).push(
        supply(c, s, ren as int, nren as int, comment@),
    ));
}

/// The weights of electricity supplied from the grid at a location.
fn grid_electricity_of(loc: &str) -> (r: Option<RenNren>)
    ensures
        r == grid_electricity(loc@),
{
    if same_text(loc, PENINSULA) {
        Some(RenNren { ren: 414, nren: 1954 })
    } else if same_text(loc, BALEARES) {
        Some(RenNren { ren: 82, nren: 2968 })
    } else if same_text(loc, CANARIAS) {
        Some(RenNren { ren: 70, nren: 2924 })
    } else if same_text(loc, CEUTAMELILLA) {
        Some(RenNren { ren: 72, nren: 2718 })
    } else {
        None
    }
}

/// The regulatory table of a location, as it is published.
pub fn location_table(loc: &str) -> (r: Option<Factors>)
    ensures
        match r {
            Some(table) => grid_electricity(loc@) matches Some(e) && table@.wdata == location_rows(
                e,
            ) && table@.wmeta == location_meta(loc@),
            None => grid_electricity(loc@) is None,
        },
{
    match grid_electricity_of(loc) {
        None => None,
        Some(e) => {
            let mut wmeta: Vec<Meta> = Vec::new();
            wmeta.push(
                Meta { key: String::from_str(SOURCE_KEY), value: String::from_str(SOURCE_VALUE) },
            );
            wmeta.push(Meta { key: String::from_str(LOCATION_KEY), value: String::from_str(loc) });
            wmeta.push(
                Meta {
                    key: String::from_str(SOURCE_COMMENT_KEY),
                    value: String::from_str(SOURCE_COMMENT_VALUE),
                },
            );
            assert(meta_entries(wmeta@) =~= location_meta(loc@));
            let mut wdata: Vec<Factor> = Vec::new();
            assert(factor_rows(wdata@) =~= Seq::<FactorRow>::empty());
            push_supply(
                &mut wdata,
                Carrier::MEDIOAMBIENTE,
                Source::RED,
                1000,
                0,
                TABLE_AMBIENT_GRID_COMMENT,
            );
            push_supply(
                &mut wdata,
                Carrier::MEDIOAMBIENTE,
                Source::INSITU,
                1000,
                0,
                TABLE_AMBIENT_ONSITE_COMMENT,
            );
            push_supply(&mut wdata, Carrier::BIOCARBURANTE, Source::RED, 1028, 85, TABLE_GRID_COMMENT);
            push_supply(&mut wdata, Carrier::BIOMASA, Source::RED, 1003, 34, TABLE_GRID_COMMENT);
            push_supply(
                &mut wdata,
                Carrier::BIOMASADENSIFICADA,
                Source::RED,
                1028,
                85,
                TABLE_GRID_COMMENT,
            );
            push_supply(&mut wdata, Carrier::CARBON, Source::RED, 2, 1082, TABLE_GRID_COMMENT);
            push_supply(&mut wdata, Carrier::GASNATURAL, Source::RED, 5, 1190, TABLE_GRID_COMMENT);
            push_supply(&mut wdata, Carrier::GASOLEO, Source::RED, 3, 1179, TABLE_GRID_COMMENT);
            push_supply(&mut wdata, Carrier::GLP, Source::RED, 3, 1201, TABLE_GRID_COMMENT);
            push_supply(
                &mut wdata,
                Carrier::ELECTRICIDAD,
                Source::INSITU,
                1000,
                0,
                TABLE_ONSITE_ELECTRICITY_COMMENT,
            );
            push_supply(
                &mut wdata,
                Carrier::ELECTRICIDAD,
                Source::COGENERACION,
                0,
                0,
                TABLE_COGEN_COMMENT,
            );
            push_supply(
                &mut wdata,
                Carrier::ELECTRICIDAD,
                Source::RED,
                e.ren,
                e.nren,
                TABLE_GRID_ELECTRICITY_COMMENT,
            );
            assert(factor_rows(wdata@) =~= location_rows(e));
            Some(Factors { wmeta, wdata })
        },
    }
}

/// Completes a table as it is given: settles the weights that a user may
/// set, writes them into the metadata, and completes the rows.
pub fn complete_wfactors(
    wfactors: Factors,
    cogen: Option<RenNren>,
    cogennepb: Option<RenNren>,
    red1: Option<RenNren>,
    red2: Option<RenNren>,
    stripnepb: bool,
) -> (r: Result<Factors, EpbdError>)
    ensures
        match r {
            Ok(out) => completed_table(wfactors@, cogen, cogennepb, red1, red2, stripnepb) == Ok::<
                FactorsView,
                EpbdError,
            >(out@),
            Err(e) => completed_table(wfactors@, cogen, cogennepb, red1, red2, stripnepb) == Err::<
                FactorsView,
                EpbdError,
            >(e),
        },
{
    let mut wfactors: Factors = wfactors;
    let user: UserWFactors = find_user_wfactors(&wfactors, cogen, cogennepb, red1, red2);
    update_user_wfactors(&mut wfactors, &user);
    fix_wfactors(wfactors, &user, stripnepb)
}

/// The complete factor table of a location.
///
/// For a known location (`PENINSULA`, `BALEARES`, `CANARIAS`,
/// `CEUTAMELILLA`) this always succeeds, with what `completed_table` makes
/// of the regulatory table of the location. Any other name is refused as
/// an unknown location, and handed back in the error.
pub fn new_wfactors(
    loc: &str,
    cogen: Option<RenNren>,
    cogennepb: Option<RenNren>,
    red1: Option<RenNren>,
    red2: Option<RenNren>,
    stripnepb: bool,
) -> (r: Result<Factors, EpbdError>)
    ensures
        match grid_electricity(loc@) {
            Some(e) => r matches Ok(out) && completed_table(
                FactorsView { wmeta: location_meta(loc@), wdata: location_rows(e) },
                cogen,
                cogennepb,
                red1,
                red2,
                stripnepb,
            ) == Ok::<FactorsView, EpbdError>(out@),
            None => r matches Err(EpbdError::UnknownLocation { location }) && location@ == loc@,
        },
{
    match location_table(loc) {
        None => Err(EpbdError::UnknownLocation { location: String::from_str(loc) }),
        Some(table) => {
            proof {
                let e = grid_electricity(loc@)->0;
                lemma_location_completes(
                    e,
                    user_wfactors(table@.wmeta, table@.wdata, cogen, cogennepb, red1, red2),
                    stripnepb,
                );
            }
            complete_wfactors(table, cogen, cogennepb, red1, red2, stripnepb)
        },
    }
}

/// Reads a factor table from a text and completes it.
///
/// A malformed line is handed back in the error. Otherwise the result is
/// what `completed_table` makes of the table that the text writes.
pub fn parse_wfactors(
    wfactorsstring: &str,
    cogen: Option<RenNren>,
    cogennepb: Option<RenNren>,
    red1: Option<RenNren>,
    red2: Option<RenNren>,
    stripnepb: bool,
) -> (r: Result<Factors, EpbdError>)
    ensures
        match parsed_factors(wfactorsstring@) {
            Err(line) => r matches Err(EpbdError::MalformedRecord { record }) && record@ == line,
            Ok(given) => match r {
                Ok(out) => completed_table(given, cogen, cogennepb, red1, red2, stripnepb) == Ok::<
                    FactorsView,
                    EpbdError,
                >(out@),
                Err(e) => completed_table(given, cogen, cogennepb, red1, red2, stripnepb) == Err::<
                    FactorsView,
                    EpbdError,
                >(e),
            },
        },
{
    match Factors::parse(wfactorsstring) {
        Err(e) => Err(e),
        Ok(wfactors) => complete_wfactors(wfactors, cogen, cogennepb, red1, red2, stripnepb),
    }
}

} // verus!
