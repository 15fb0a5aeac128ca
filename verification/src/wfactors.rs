//! Weighting factors: the rows of a factor table and how a row is looked up.

use vstd::prelude::*;
use crate::meta::{Meta, MetaEntry, meta_entries, meta_get, meta_update, meta_value, meta_updated};
use crate::rennren::RenNren;
use crate::types::{Carrier, Dest, Source, Step};

verus! {

/// A weighting factor: what one unit of a carrier, from a source, to a
/// destination, at a step, weighs in renewable and non-renewable primary
/// energy. Both weights are in thousandths.
#[derive(Debug, PartialEq, Eq)]
pub struct Factor {
    /// The carrier.
    pub carrier: Carrier,
    /// Where the energy comes from.
    pub source: Source,
    /// Where the energy goes.
    pub dest: Dest,
    /// The calculation step.
    pub step: Step,
    /// Renewable weight, in thousandths.
    pub ren: i64,
    /// Non-renewable weight, in thousandths.
    pub nren: i64,
    /// A free comment.
    pub comment: String,
}

/// What a weighting factor holds.
pub struct FactorRow {
    /// The carrier.
    pub carrier: Carrier,
    /// Where the energy comes from.
    pub source: Source,
    /// Where the energy goes.
    pub dest: Dest,
    /// The calculation step.
    pub step: Step,
    /// Renewable weight, in thousandths.
    pub ren: int,
    /// Non-renewable weight, in thousandths.
    pub nren: int,
    /// A free comment.
    pub comment: Seq<char>,
}

impl View for Factor {
    type V = FactorRow;

    open spec fn view(&self) -> FactorRow {
        FactorRow {
            carrier: self.carrier,
            source: self.source,
            dest: self.dest,
            step: self.step,
            ren: self.ren as int,
            nren: self.nren as int,
            comment: self.comment@,
        }
    }
}

impl Clone for Factor {
    fn clone(&self) -> (r: Factor)
        ensures
            r@ == self@,
    {
        Factor {
            carrier: self.carrier,
            source: self.source,
            dest: self.dest,
            step: self.step,
            ren: self.ren,
            nren: self.nren,
            comment: self.comment.clone(),
        }
    }
}

impl Factor {
    /// A factor made of the given parts.
    pub fn new(
        carrier: Carrier,
        source: Source,
        dest: Dest,
        step: Step,
        ren: i64,
        nren: i64,
        comment: String,
    ) -> (r: Factor)
        ensures
            r@ == (FactorRow {
                carrier,
                source,
                dest,
                step,
                ren: ren as int,
                nren: nren as int,
                comment: comment@,
            }),
    {
        Factor { carrier, source, dest, step, ren, nren, comment }
    }

    /// The factor's two weights.
    pub fn factors(&self) -> (r: RenNren)
        ensures
            r.ren == self.ren,
            r.nren == self.nren,
    {
        RenNren { ren: self.ren, nren: self.nren }
    }
}

/// A pattern over the key of a factor: each part is either fixed or left
/// open.
#[derive(Clone, Copy, Debug)]
pub struct Selector {
    /// The carrier asked for, if any.
    pub carrier: Option<Carrier>,
    /// The source asked for, if any.
    pub source: Option<Source>,
    /// The destination asked for, if any.
    pub dest: Option<Dest>,
    /// The step asked for, if any.
    pub step: Option<Step>,
}

impl Selector {
    /// The pattern of one full key.
    pub open spec fn key(carrier: Carrier, source: Source, dest: Dest, step: Step) -> Selector {
        Selector { carrier: Some(carrier), source: Some(source), dest: Some(dest), step: Some(step) }
    }

    /// Whether a row fits the pattern.
    pub open spec fn selects(self, row: FactorRow) -> bool {
        &&& self.carrier matches Some(c) ==> row.carrier == c
        &&& self.source matches Some(s) ==> row.source == s
        &&& self.dest matches Some(d) ==> row.dest == d
        &&& self.step matches Some(t) ==> row.step == t
    }

    /// The pattern of one full key.
    pub fn of_key(carrier: Carrier, source: Source, dest: Dest, step: Step) -> (r: Selector)
        ensures
            r == Selector::key(carrier, source, dest, step),
    {
        Selector { carrier: Some(carrier), source: Some(source), dest: Some(dest), step: Some(step) }
    }

    /// Whether a factor fits the pattern.
    pub fn accepts(&self, f: &Factor) -> (r: bool)
        ensures
            r == self.selects(f@),
    {
        let carrier_ok: bool = match self.carrier {
            Some(c) => f.carrier == c,
            None => true,
        };
        let source_ok: bool = match self.source {
            Some(s) => f.source == s,
            None => true,
        };
        let dest_ok: bool = match self.dest {
            Some(d) => f.dest == d,
            None => true,
        };
        let step_ok: bool = match self.step {
            Some(t) => f.step == t,
            None => true,
        };
        carrier_ok && source_ok && dest_ok && step_ok
    }
}

/// What a list of factors holds.
pub open spec fn factor_rows(v: Seq<Factor>) -> Seq<FactorRow> {
    Seq::new(v.len(), |i: int| v[i]@)
}

/// The position of the first row that fits the pattern.
pub open spec fn first_match(rows: Seq<FactorRow>, sel: Selector) -> Option<int>
    decreases rows.len(),
{
    if rows.len() == 0 {
        None
    } else {
        match first_match(rows.drop_last(), sel) {
            Some(i) => Some(i),
            None => if sel.selects(rows.last()) {
                Some(rows.len() - 1)
            } else {
                None
            },
        }
    }
}

/// Whether some row fits the pattern.
pub open spec fn has_match(rows: Seq<FactorRow>, sel: Selector) -> bool {
    first_match(rows, sel) is Some
}

/// `first_match` finds the least position whose row fits, and none only
/// where no row fits.
pub proof fn lemma_first_match(rows: Seq<FactorRow>, sel: Selector)
    ensures
        match first_match(rows, sel) {
            Some(i) => 0 <= i < rows.len() && sel.selects(rows[i]) && forall|j: int|
                0 <= j < i ==> !sel.selects(#[trigger] rows[j]),
            None => forall|j: int| 0 <= j < rows.len() ==> !sel.selects(#[trigger] rows[j]),
        },
    decreases rows.len(),
{
    if rows.len() > 0 {
        lemma_first_match(rows.drop_last(), sel);
        match first_match(rows.drop_last(), sel) {
            Some(i) => {
                assert(forall|j: int| 0 <= j <= i ==> rows.drop_last()[j] == rows[j]);
            },
            None => {
                assert forall|j: int| 0 <= j < rows.len() - 1 implies !sel.selects(
                    #[trigger] rows[j],
                ) by {
                    assert(rows.drop_last()[j] == rows[j]);
                }
            },
        }
    }
}

/// A position whose row fits and that has no earlier one that does is the
/// one `first_match` finds; where no row fits it finds none.
pub proof fn lemma_first_match_is(rows: Seq<FactorRow>, sel: Selector, found: Option<int>)
    requires
        match found {
            Some(i) => 0 <= i < rows.len() && sel.selects(rows[i]) && forall|j: int|
                0 <= j < i ==> !sel.selects(#[trigger] rows[j]),
            None => forall|j: int| 0 <= j < rows.len() ==> !sel.selects(#[trigger] rows[j]),
        },
    ensures
        first_match(rows, sel) == found,
{
    lemma_first_match(rows, sel);
    match (first_match(rows, sel), found) {
        (Some(a), Some(b)) => {
            if a < b {
                assert(!sel.selects(rows[a]));
            } else if b < a {
                assert(!sel.selects(rows[b]));
            }
        },
        (Some(a), None) => {
            assert(!sel.selects(rows[a]));
        },
        (None, Some(b)) => {
            assert(!sel.selects(rows[b]));
        },
        (None, None) => {},
    }
}

/// The position of the first factor that fits the pattern.
pub fn find_factor(wdata: &Vec<Factor>, sel: &Selector) -> (r: Option<usize>)
    ensures
        match r {
            Some(i) => first_match(factor_rows(wdata@), *sel) == Some(i as int) && i
                < wdata.len(),
            None => first_match(factor_rows(wdata@), *sel) == None::<int>,
        },
{
    let n: usize = wdata.len();
    let mut i: usize = 0;
    while i < n
        invariant
            i <= n,
            n == wdata.len(),
            forall|j: int| 0 <= j < i ==> !sel.selects(#[trigger] factor_rows(wdata@)[j]),
        decreases n - i,
    {
        if sel.accepts(&wdata[i]) {
            proof {
                assert(factor_rows(wdata@)[i as int] == wdata[i as int]@);
                lemma_first_match_is(factor_rows(wdata@), *sel, Some(i as int));
            }
            return Some(i);
        }
        assert(factor_rows(wdata@)[i as int] == wdata[i as int]@);
        i = i + 1;
    }
    proof {
        lemma_first_match_is(factor_rows(wdata@), *sel, None);
    }
    None
}

/// A table of weighting factors with its metadata. Rows keep the order in
/// which they were added; where several rows share a key, the first counts.
#[derive(Debug, PartialEq, Eq)]
pub struct Factors {
    /// The metadata.
    pub wmeta: Vec<Meta>,
    /// The rows.
    pub wdata: Vec<Factor>,
}

/// What a table of weighting factors holds.
pub struct FactorsView {
    /// The metadata.
    pub wmeta: Seq<MetaEntry>,
    /// The rows.
    pub wdata: Seq<FactorRow>,
}

impl View for Factors {
    type V = FactorsView;

    open spec fn view(&self) -> FactorsView {
        FactorsView { wmeta: meta_entries(self.wmeta@), wdata: factor_rows(self.wdata@) }
    }
}

impl Clone for Factors {
    fn clone(&self) -> (r: Factors)
        ensures
            r@ == self@,
    {
        let mut wdata: Vec<Factor> = Vec::new();
        let n: usize = self.wdata.len();
        let mut i: usize = 0;
        while i < n
            invariant
                i <= n,
                n == self.wdata.len(),
                wdata.len() == i,
                forall|j: int| 0 <= j < i ==> (#[trigger] wdata[j])@ == self.wdata[j]@,
            decreases n - i,
        {
            wdata.push(self.wdata[i].clone());
            i = i + 1;
        }
        assert(factor_rows(wdata@) =~= factor_rows(self.wdata@));
        Factors { wmeta: crate::meta::meta_copy(&self.wmeta), wdata }
    }
}

impl Factors {
    /// The value of the first metadata entry with the given key.
    pub fn get_meta(&self, key: &str) -> (r: Option<String>)
        ensures
            match r {
                Some(v) => meta_value(self@.wmeta, key@) == Some(v@),
                None => meta_value(self@.wmeta, key@) == None::<Seq<char>>,
            },
    {
        meta_get(&self.wmeta, key)
    }

    /// Gives a metadata key a value: the first entry of the key takes the
    /// value, or a new entry is added at the end where the key has none.
    /// The rows stay as they are.
    pub fn update_meta(&mut self, key: &str, value: &str)
        ensures
            final(self)@.wmeta == meta_updated(old(self)@.wmeta, key@, value@),
            final(self)@.wdata == old(self)@.wdata,
    {
        meta_update(&mut self.wmeta, key, value);
    }

    /// The first row that fits the pattern.
    pub fn find(&self, sel: &Selector) -> (r: Option<&Factor>)
        ensures
            match r {
                Some(f) => first_match(self@.wdata, *sel) matches Some(i) && self@.wdata[i]
                    == f@,
                None => first_match(self@.wdata, *sel) == None::<int>,
            },
    {
        match find_factor(&self.wdata, sel) {
            Some(i) => Some(&self.wdata[i]),
            None => None,
        }
    }
}

/// The pattern that only rows with the key of a given row fit.
pub open spec fn key_of(r: FactorRow) -> Selector {
    Selector::key(r.carrier, r.source, r.dest, r.step)
}

/// Whether no two rows of a table have the same key.
pub open spec fn unique_keys(t: Seq<FactorRow>) -> bool {
    forall|i: int, j: int| 0 <= i < j < t.len() ==> !key_of(#[trigger] t[i]).selects(#[trigger] t[j])
}

impl Factors {
    /// Whether no two rows of the table have the same key.
    pub fn has_unique_keys(&self) -> (r: bool)
        ensures
            r == unique_keys(self@.wdata),
    {
        let ghost t = self@.wdata;
        let n: usize = self.wdata.len();
        let mut j: usize = 0;
        while j < n
            invariant
                j <= n,
                n == self.wdata.len(),
                t == factor_rows(self.wdata@),
                forall|a: int, b: int|
                    0 <= a < b < j ==> !key_of(#[trigger] t[a]).selects(#[trigger] t[b]),
            decreases n - j,
        {
            let f: &Factor = &self.wdata[j];
            assert(t[j as int] == f@);
            let mut i: usize = 0;
            while i < j
                invariant
                    i <= j,
                    j < n,
                    n == self.wdata.len(),
                    t == factor_rows(self.wdata@),
                    t[j as int] == f@,
                    forall|a: int| 0 <= a < i ==> !key_of(#[trigger] t[a]).selects(t[j as int]),
                decreases j - i,
            {
                let g: &Factor = &self.wdata[i];
                assert(t[i as int] == g@);
                if g.carrier == f.carrier && g.source == f.source && g.dest == f.dest && g.step
                    == f.step {
                    assert(key_of(t[i as int]).selects(t[j as int]));
                    return false;
                }
                i = i + 1;
            }
            j = j + 1;
        }
        true
    }
}

} // verus!
