//! The weights that a user may set: cogenerated electricity exported to the
//! grid and to non-regulated uses, and the two district networks. Each is
//! taken from the first of these that gives it: the caller, the metadata of
//! the table, a row of the table, the predefined value.

use vstd::prelude::*;
use crate::cte::completion::{
    UserWFactors, cogen_to_grid_default, cogen_to_nepb_default, cte_cogen_defaults_to_grid,
    cte_cogen_defaults_to_nepb, cte_red_defaults_red1, cte_red_defaults_red2, red1_default,
    red2_default,
};
use crate::decimal::{decimal3_pair, format_pair, parse_pair, parsed_pair};
use crate::decimal_laws::lemma_pair_reads_back;
use crate::meta::{
    MetaEntry, lemma_meta_updated_other, lemma_meta_updated_same, meta_updated, meta_value,
};
use crate::rennren::RenNren;
use crate::types::{Carrier, Dest, Source, Step};
use crate::wfactors::{FactorRow, Factors, Selector, find_factor, first_match};

verus! {

/// Metadata key of the weights of cogenerated electricity exported to the
/// grid.
pub const COGEN_KEY: &'static str = "CTE_COGEN";

/// Metadata key of the weights of cogenerated electricity exported to
/// non-regulated uses.
pub const COGENNEPB_KEY: &'static str = "CTE_COGENNEPB";

/// Metadata key of the weights of district network 1.
pub const RED1_KEY: &'static str = "CTE_RED1";

/// Metadata key of the weights of district network 2.
pub const RED2_KEY: &'static str = "CTE_RED2";

/// The weights written under a metadata key, as two numbers with a comma
/// between them; none where the key is absent or its value does not read
/// as two such numbers.
pub open spec fn meta_rennren(m: Seq<MetaEntry>, key: Seq<char>) -> Option<RenNren> {
    match meta_value(m, key) {
        Some(text) => match parsed_pair(text) {
            Some((a, b)) => Some(RenNren { ren: a as i64, nren: b as i64 }),
            None => None,
        },
        None => None,
    }
}

/// The weights of a row.
pub open spec fn weights_of(r: FactorRow) -> RenNren {
    RenNren { ren: r.ren as i64, nren: r.nren as i64 }
}

/// The rows that give the weights of cogenerated electricity exported to
/// the grid.
pub open spec fn cogen_rows() -> Selector {
    Selector {
        carrier: None,
        source: Some(Source::COGENERACION),
        dest: Some(Dest::A_RED),
        step: Some(Step::A),
    }
}

/// The rows that give the weights of cogenerated electricity exported to
/// non-regulated uses.
pub open spec fn cogennepb_rows() -> Selector {
    Selector {
        carrier: None,
        source: Some(Source::COGENERACION),
        dest: Some(Dest::A_NEPB),
        step: Some(Step::A),
    }
}

/// The rows that give the weights of a district network.
pub open spec fn district_rows(c: Carrier) -> Selector {
    Selector { carrier: Some(c), source: None, dest: Some(Dest::SUMINISTRO), step: Some(Step::A) }
}

/// The weights that count for one family: those that the caller gives;
/// else those written in the metadata under the key of the family; else
/// those of the first row of the family; else the predefined ones.
pub open spec fn resolved(
    given: Option<RenNren>,
    m: Seq<MetaEntry>,
    key: Seq<char>,
    t: Seq<FactorRow>,
    sel: Selector,
    predefined: RenNren,
) -> RenNren {
    match given {
        Some(v) => v,
        None => match meta_rennren(m, key) {
            Some(v) => v,
            None => match first_match(t, sel) {
                Some(i) => weights_of(t[i]),
                None => predefined,
            },
        },
    }
}

/// The weights that count for the four families.
pub open spec fn user_wfactors(
    m: Seq<MetaEntry>,
    t: Seq<FactorRow>,
    cogen: Option<RenNren>,
    cogennepb: Option<RenNren>,
    red1: Option<RenNren>,
    red2: Option<RenNren>,
) -> UserWFactors {
    UserWFactors {
        cogen: resolved(cogen, m, COGEN_KEY@, t, cogen_rows(), cogen_to_grid_default()),
        cogennepb: resolved(
            cogennepb,
            m,
            COGENNEPB_KEY@,
            t,
            cogennepb_rows(),
            cogen_to_nepb_default(),
        ),
        red1: resolved(red1, m, RED1_KEY@, t, district_rows(Carrier::RED1), red1_default()),
        red2: resolved(red2, m, RED2_KEY@, t, district_rows(Carrier::RED2), red2_default()),
    }
}

/// The metadata with the weights of the four families written into it,
/// each with three decimals.
pub open spec fn user_meta(m: Seq<MetaEntry>, user: UserWFactors) -> Seq<MetaEntry> {
    let m1 = meta_updated(m, COGEN_KEY@, decimal3_pair(user.cogen.ren as int, user.cogen.nren as int));
    let m2 = meta_updated(
        m1,
        COGENNEPB_KEY@,
        decimal3_pair(user.cogennepb.ren as int, user.cogennepb.nren as int),
    );
    let m3 = meta_updated(m2, RED1_KEY@, decimal3_pair(user.red1.ren as int, user.red1.nren as int));
    meta_updated(m3, RED2_KEY@, decimal3_pair(user.red2.ren as int, user.red2.nren as int))
}

impl Factors {
    /// The weights written in the metadata under a key.
    pub fn get_meta_rennren(&self, key: &str) -> (r: Option<RenNren>)
        ensures
            r == meta_rennren(self@.wmeta, key@),
    {
        match self.get_meta(key) {
            Some(text) => match parse_pair(text.as_str()) {
                Some((a, b)) => Some(RenNren { ren: a, nren: b }),
                None => None,
            },
            None => None,
        }
    }
}

/// The weights that count for one family.
fn resolve(
    wfactors: &Factors,
    given: Option<RenNren>,
    key: &str,
    sel: &Selector,
    predefined: RenNren,
) -> (r: RenNren)
    ensures
        r == resolved(given, wfactors@.wmeta, key@, wfactors@.wdata, *sel, predefined),
{
    match given {
        Some(v) => v,
        None => match wfactors.get_meta_rennren(key) {
            Some(v) => v,
            None => match find_factor(&wfactors.wdata, sel) {
                Some(i) => {
                    assert(wfactors@.wdata[i as int] == wfactors.wdata[i as int]@);
                    wfactors.wdata[i].factors()
                },
                None => predefined,
            },
        },
    }
}

/// Settles the weights of the four families that a user may set.
pub fn find_user_wfactors(
    wfactors: &Factors,
    cogen: Option<RenNren>,
    cogennepb: Option<RenNren>,
    red1: Option<RenNren>,
    red2: Option<RenNren>,
) -> (r: UserWFactors)
    ensures
        r == user_wfactors(wfactors@.wmeta, wfactors@.wdata, cogen, cogennepb, red1, red2),
{
    let cogen_sel: Selector = Selector {
        carrier: None,
        source: Some(Source::COGENERACION),
        dest: Some(Dest::A_RED),
        step: Some(Step::A),
    };
    let cogennepb_sel: Selector = Selector {
        carrier: None,
        source: Some(Source::COGENERACION),
        dest: Some(Dest::A_NEPB),
        step: Some(Step::A),
    };
    let red1_sel: Selector = Selector {
        carrier: Some(Carrier::RED1),
        source: None,
        dest: Some(Dest::SUMINISTRO),
        step: Some(Step::A),
    };
    let red2_sel: Selector = Selector {
        carrier: Some(Carrier::RED2),
        source: None,
        dest: Some(Dest::SUMINISTRO),
        step: Some(Step::A),
    };
    UserWFactors {
        cogen: resolve(wfactors, cogen, COGEN_KEY, &cogen_sel, cte_cogen_defaults_to_grid()),
        cogennepb: resolve(
            wfactors,
            cogennepb,
            COGENNEPB_KEY,
            &cogennepb_sel,
            cte_cogen_defaults_to_nepb(),
        ),
        red1: resolve(wfactors, red1, RED1_KEY, &red1_sel, cte_red_defaults_red1()),
        red2: resolve(wfactors, red2, RED2_KEY, &red2_sel, cte_red_defaults_red2()),
    }
}

/// Writes the settled weights into the metadata of the table, each with
/// three decimals. The rows stay as they are.
pub fn update_user_wfactors(wfactors: &mut Factors, user_wfactors: &UserWFactors)
    ensures
        final(wfactors)@.wmeta == user_meta(old(wfactors)@.wmeta, *user_wfactors),
        final(wfactors)@.wdata == old(wfactors)@.wdata,
{
    let cogen: String = format_pair(user_wfactors.cogen.ren, user_wfactors.cogen.nren);
    wfactors.update_meta(COGEN_KEY, cogen.as_str());
    let cogennepb: String = format_pair(user_wfactors.cogennepb.ren, user_wfactors.cogennepb.nren);
    wfactors.update_meta(COGENNEPB_KEY, cogennepb.as_str());
    let red1: String = format_pair(user_wfactors.red1.ren, user_wfactors.red1.nren);
    wfactors.update_meta(RED1_KEY, red1.as_str());
    let red2: String = format_pair(user_wfactors.red2.ren, user_wfactors.red2.nren);
    wfactors.update_meta(RED2_KEY, red2.as_str());
}

/// Whether both weights can be read back once written: neither is the
/// least number that can be stored.
pub open spec fn readable(v: RenNren) -> bool {
    v.ren > i64::MIN && v.nren > i64::MIN
}

/// The four metadata keys of the weights of the user are all different.
proof fn lemma_keys_differ()
    ensures
        COGEN_KEY@ != COGENNEPB_KEY@,
        COGEN_KEY@ != RED1_KEY@,
        COGEN_KEY@ != RED2_KEY@,
        COGENNEPB_KEY@ != RED1_KEY@,
        COGENNEPB_KEY@ != RED2_KEY@,
        RED1_KEY@ != RED2_KEY@,
{
    reveal_strlit("CTE_COGEN");
    reveal_strlit("CTE_COGENNEPB");
    reveal_strlit("CTE_RED1");
    reveal_strlit("CTE_RED2");
    assert(COGEN_KEY@ == "CTE_COGEN"@);
    assert(COGENNEPB_KEY@ == "CTE_COGENNEPB"@);
    assert(RED1_KEY@ == "CTE_RED1"@);
    assert(RED2_KEY@ == "CTE_RED2"@);
    assert("CTE_COGEN"@.len() == 9);
    assert("CTE_COGENNEPB"@.len() == 13);
    assert("CTE_RED1"@.len() == 8);
    assert("CTE_RED1"@[7] != "CTE_RED2"@[7]);
}

/// What is written under a key of the weights reads back as the weights.
proof fn lemma_written_reads_back(m: Seq<MetaEntry>, key: Seq<char>, v: RenNren)
    requires
        readable(v),
    ensures
        meta_rennren(meta_updated(m, key, decimal3_pair(v.ren as int, v.nren as int)), key)
            == Some(v),
{
    lemma_meta_updated_same(m, key, decimal3_pair(v.ren as int, v.nren as int));
    lemma_pair_reads_back(v.ren as int, v.nren as int);
}

/// The weights that were written into the metadata of a table are the
/// weights that count for it from then on, unless the caller gives others:
/// what `update_user_wfactors` writes, `find_user_wfactors` reads back.
///
/// This asks that none of the weights is the least number that can be
/// stored, which is written but not read.
pub proof fn lemma_user_meta_reads_back(m: Seq<MetaEntry>, t: Seq<FactorRow>, user: UserWFactors)
    requires
        readable(user.cogen),
        readable(user.cogennepb),
        readable(user.red1),
        readable(user.red2),
    ensures
        user_wfactors(user_meta(m, user), t, None, None, None, None) == user,
{
    lemma_keys_differ();
    let v1 = decimal3_pair(user.cogen.ren as int, user.cogen.nren as int);
    let v2 = decimal3_pair(user.cogennepb.ren as int, user.cogennepb.nren as int);
    let v3 = decimal3_pair(user.red1.ren as int, user.red1.nren as int);
    let v4 = decimal3_pair(user.red2.ren as int, user.red2.nren as int);
    let m1 = meta_updated(m, COGEN_KEY@, v1);
    let m2 = meta_updated(m1, COGENNEPB_KEY@, v2);
    let m3 = meta_updated(m2, RED1_KEY@, v3);
    let m4 = meta_updated(m3, RED2_KEY@, v4);
    lemma_written_reads_back(m, COGEN_KEY@, user.cogen);
    lemma_written_reads_back(m1, COGENNEPB_KEY@, user.cogennepb);
    lemma_written_reads_back(m2, RED1_KEY@, user.red1);
    lemma_written_reads_back(m3, RED2_KEY@, user.red2);
    lemma_meta_updated_other(m1, COGENNEPB_KEY@, v2, COGEN_KEY@);
    lemma_meta_updated_other(m2, RED1_KEY@, v3, COGEN_KEY@);
    lemma_meta_updated_other(m3, RED2_KEY@, v4, COGEN_KEY@);
    lemma_meta_updated_other(m2, RED1_KEY@, v3, COGENNEPB_KEY@);
    lemma_meta_updated_other(m3, RED2_KEY@, v4, COGENNEPB_KEY@);
    lemma_meta_updated_other(m3, RED2_KEY@, v4, RED1_KEY@);
}

} // verus!
