//! Tables as text: one record to a line, metadata in lines that begin with
//! `#META` or `#CTE_`, other lines that begin with a hash sign as comments,
//! and a header line that begins with `vector,`.

use vstd::prelude::*;
use crate::components::{
    Component, ComponentRow, Components, ComponentsView, component_rows,
};
use crate::decimal::{chars_of, parse_chars, parsed_thousandths, trim, trimmed};
use crate::error::EpbdError;

use crate::meta::{Meta, MetaEntry, meta_entries};
use crate::records::{
    char_lists, record_comment, record_fields, record_of, values_between, values_from,
};
use crate::text::{
    cut, fields, has_prefix, part_of, position_of, split_fields, starts_with, text_of,
};
use crate::types::{CSubtype, CType, Carrier, Dest, Service, Source, Step};
use crate::wfactors::{Factor, FactorRow, Factors, FactorsView, factor_rows};

verus! {

/// The lines of a text, each without the blanks around it. A byte order
/// mark at the start of the text is left out.
pub open spec fn lines_of(s: Seq<char>) -> Seq<Seq<char>> {
    let body = if s.len() > 0 && s[0] == '\u{feff}' {
        s.subrange(1, s.len() as int)
    } else {
        s
    };
    Seq::new(fields(body, '\n').len(), |k: int| trimmed(fields(body, '\n')[k]))
}

/// Whether a line holds metadata.
pub open spec fn is_meta_line(line: Seq<char>) -> bool {
    starts_with(line, "#META"@) || starts_with(line, "#CTE_"@)
}

/// Whether a line holds a record: it is not empty, no comment and not the
/// header.
pub open spec fn is_data_line(line: Seq<char>) -> bool {
    line.len() > 0 && line[0] != '#' && !starts_with(line, "vector,"@)
}

/// The metadata entry that a metadata line writes: after the first five
/// characters, a key and a value with a colon between them. A key that
/// does not begin with `CTE_` gets it put before. None where the line has
/// no colon.
pub open spec fn parsed_meta(line: Seq<char>) -> Option<MetaEntry> {
    if line.len() < 5 {
        None
    } else {
        match cut(line.subrange(5, line.len() as int), ':') {
            (k, Some(v)) => {
                let key = trimmed(k);
                Some(
                    MetaEntry {
                        key: if starts_with(key, "CTE_"@) {
                            key
                        } else {
                            "CTE_"@ + key
                        },
                        value: trimmed(v),
                    },
                )
            },
            (_, None) => None,
        }
    }
}

/// The weighting factor that a record writes: carrier, source, destination,
/// step and the two weights, then the comment after a hash sign. None for
/// any other record.
pub open spec fn parsed_factor(line: Seq<char>) -> Option<FactorRow> {
    let f = record_fields(line);
    if f.len() < 6 {
        None
    } else {
        match (
            Carrier::of_name(f[0]),
            Source::of_name(f[1]),
            Dest::of_name(f[2]),
            Step::of_name(f[3]),
            parsed_thousandths(f[4]),
            parsed_thousandths(f[5]),
        ) {
            (Some(carrier), Some(source), Some(dest), Some(step), Some(ren), Some(nren)) => Some(
                FactorRow { carrier, source, dest, step, ren, nren, comment: record_comment(line) },
            ),
            _ => None,
        }
    }
}

/// Whether a subtype goes with a type: a use is regulated or not, a
/// production is on site or cogenerated.
pub open spec fn goes_with(ctype: CType, csubtype: CSubtype) -> bool {
    match ctype {
        CType::CONSUMO => csubtype == CSubtype::EPB || csubtype == CSubtype::NEPB,
        CType::PRODUCCION => csubtype == CSubtype::INSITU || csubtype == CSubtype::COGENERACION,
    }
}

/// The component that a record writes: carrier, type, a subtype that goes
/// with the type, an optional service, and the quantities; then the
/// comment after a hash sign. None for any other record.
pub open spec fn parsed_component(line: Seq<char>) -> Option<ComponentRow> {
    let f = record_fields(line);
    if f.len() < 4 {
        None
    } else {
        match (Carrier::of_name(f[0]), CType::of_name(f[1]), CSubtype::of_name(f[2])) {
            (Some(carrier), Some(ctype), Some(csubtype)) => {
                if goes_with(ctype, csubtype) {
                    let (first, service) = match Service::of_name(f[3]) {
                        Some(service) => (4int, service),
                        None => (3int, Service::NDEF),
                    };
                    match values_between(f, first, f.len() as int) {
                        Some(values) => Some(
                            ComponentRow {
                                carrier,
                                ctype,
                                csubtype,
                                service,
                                values,
                                comment: record_comment(line),
                            },
                        ),
                        None => None,
                    }
                } else {
                    None
                }
            },
            _ => None,
        }
    }
}

/// The metadata entries that the first lines of a list write, or the first
/// metadata line among them that writes none.
pub open spec fn metas_upto(lines: Seq<Seq<char>>, n: int) -> Result<Seq<MetaEntry>, Seq<char>>
    decreases n,
{
    if n <= 0 {
        Ok(Seq::empty())
    } else {
        match metas_upto(lines, n - 1) {
            Err(l) => Err(l),
            Ok(ms) => if is_meta_line(lines[n - 1]) {
                match parsed_meta(lines[n - 1]) {
                    Some(m) => Ok(ms.push(m)),
                    None => Err(lines[n - 1]),
                }
            } else {
                Ok(ms)
            },
        }
    }
}

/// The weighting factors that the first lines of a list write, or the
/// first record among them that writes none.
pub open spec fn factors_upto(lines: Seq<Seq<char>>, n: int) -> Result<Seq<FactorRow>, Seq<char>>
    decreases n,
{
    if n <= 0 {
        Ok(Seq::empty())
    } else {
        match factors_upto(lines, n - 1) {
            Err(l) => Err(l),
            Ok(fs) => if is_data_line(lines[n - 1]) {
                match parsed_factor(lines[n - 1]) {
                    Some(f) => Ok(fs.push(f)),
                    None => Err(lines[n - 1]),
                }
            } else {
                Ok(fs)
            },
        }
    }
}

/// The components that the first lines of a list write, or the first
/// record among them that writes none.
pub open spec fn components_upto(lines: Seq<Seq<char>>, n: int) -> Result<
    Seq<ComponentRow>,
    Seq<char>,
>
    decreases n,
{
    if n <= 0 {
        Ok(Seq::empty())
    } else {
        match components_upto(lines, n - 1) {
            Err(l) => Err(l),
            Ok(cs) => if is_data_line(lines[n - 1]) {
                match parsed_component(lines[n - 1]) {
                    Some(c) => Ok(cs.push(c)),
                    None => Err(lines[n - 1]),
                }
            } else {
                Ok(cs)
            },
        }
    }
}

/// The factor table that a text writes, or the first line that is
/// malformed: of the metadata lines first, then of the records.
pub open spec fn parsed_factors(s: Seq<char>) -> Result<FactorsView, Seq<char>> {
    let lines = lines_of(s);
    match metas_upto(lines, lines.len() as int) {
        Err(l) => Err(l),
        Ok(wmeta) => match factors_upto(lines, lines.len() as int) {
            Err(l) => Err(l),
            Ok(wdata) => Ok(FactorsView { wmeta, wdata }),
        },
    }
}

/// The components that a text writes, or the first line that is malformed:
/// of the metadata lines first, then of the records.
pub open spec fn parsed_components(s: Seq<char>) -> Result<ComponentsView, Seq<char>> {
    let lines = lines_of(s);
    match metas_upto(lines, lines.len() as int) {
        Err(l) => Err(l),
        Ok(cmeta) => match components_upto(lines, lines.len() as int) {
            Err(l) => Err(l),
            Ok(cdata) => Ok(ComponentsView { cmeta, cdata }),
        },
    }
}

/// The lines of a text, each without the blanks around it.
fn split_lines(s: &str) -> (r: Vec<Vec<char>>)
    ensures
        char_lists(r@) == lines_of(s@),
{
    let all: Vec<char> = chars_of(s);
    let n: usize = all.len();
    let body: Vec<char> = if n > 0 && all[0] == '\u{feff}' {
        part_of(&all, 1, n)
    } else {
        assert(all@.subrange(0, n as int) =~= all@);
        part_of(&all, 0, n)
    };
    let raw: Vec<Vec<char>> = split_fields(&body, '\n');
    let mut out: Vec<Vec<char>> = Vec::new();
    let m: usize = raw.len();
    let mut k: usize = 0;
    while k < m
        invariant
            k <= m,
            m == raw.len(),
            out.len() == k,
            forall|j: int| 0 <= j < k ==> (#[trigger] out@[j])@ == trimmed(raw@[j]@),
        decreases m - k,
    {
        out.push(trim(&raw[k]));
        k = k + 1;
    }
    assert(char_lists(out@) =~= lines_of(s@));
    out
}

/// Whether a line holds metadata.
fn meta_line(line: &Vec<char>) -> (r: bool)
    ensures
        r == is_meta_line(line@),
{
    has_prefix(line, "#META") || has_prefix(line, "#CTE_")
}

/// Whether a line holds a record.
fn data_line(line: &Vec<char>) -> (r: bool)
    ensures
        r == is_data_line(line@),
{
    line.len() > 0 && line[0] != '#' && !has_prefix(line, "vector,")
}

/// The metadata entry that a metadata line writes.
fn parse_meta(line: &Vec<char>) -> (r: Option<Meta>)
    ensures
        match r {
            Some(m) => parsed_meta(line@) == Some(m@),
            None => parsed_meta(line@) is None,
        },
{
    let n: usize = line.len();
    if n < 5 {
        return None;
    }
    let body: Vec<char> = part_of(line, 5, n);
    let m: usize = body.len();
    let p: usize = position_of(&body, ':', 0);
    if p >= m {
        return None;
    }
    let key: Vec<char> = trim(&part_of(&body, 0, p));
    let value: Vec<char> = trim(&part_of(&body, p + 1, m));
    let key_text: String = if has_prefix(&key, "CTE_") {
        text_of(&key)
    } else {
        let mut k: String = String::from_str("CTE_");
        k.append(text_of(&key).as_str());
        k
    };
    Some(Meta { key: key_text, value: text_of(&value) })
}

/// The weighting factor that a record writes.
fn parse_factor(line: &Vec<char>) -> (r: Option<Factor>)
    ensures
        match r {
            Some(f) => parsed_factor(line@) == Some(f@),
            None => parsed_factor(line@) is None,
        },
{
    let (f, comment) = record_of(line);
    let ghost fs = record_fields(line@);
    assert forall|k: int| 0 <= k < f.len() implies (#[trigger] f@[k])@ == fs[k] by {
        assert(char_lists(f@)[k] == f@[k]@);
    }
    if f.len() < 6 {
        return None;
    }
    let carrier = Carrier::from_name(text_of(&f[0]).as_str());
    let source = Source::from_name(text_of(&f[1]).as_str());
    let dest = Dest::from_name(text_of(&f[2]).as_str());
    let step = Step::from_name(text_of(&f[3]).as_str());
    let ren = parse_chars(&f[4]);
    let nren = parse_chars(&f[5]);
    match (carrier, source, dest, step, ren, nren) {
        (Some(carrier), Some(source), Some(dest), Some(step), Some(ren), Some(nren)) => Some(
            Factor { carrier, source, dest, step, ren, nren, comment },
        ),
        _ => None,
    }
}

/// The component that a record writes.
fn parse_component(line: &Vec<char>) -> (r: Option<Component>)
    ensures
        match r {
            Some(c) => parsed_component(line@) == Some(c@),
            None => parsed_component(line@) is None,
        },
{
    let (f, comment) = record_of(line);
    let ghost fs = record_fields(line@);
    assert forall|k: int| 0 <= k < f.len() implies (#[trigger] f@[k])@ == fs[k] by {
        assert(char_lists(f@)[k] == f@[k]@);
    }
    if f.len() < 4 {
        return None;
    }
    let carrier = Carrier::from_name(text_of(&f[0]).as_str());
    let ctype = CType::from_name(text_of(&f[1]).as_str());
    let csubtype = CSubtype::from_name(text_of(&f[2]).as_str());
    match (carrier, ctype, csubtype) {
        (Some(carrier), Some(ctype), Some(csubtype)) => {
            let coherent: bool = match ctype {
                CType::CONSUMO => csubtype == CSubtype::EPB || csubtype == CSubtype::NEPB,
                CType::PRODUCCION => csubtype == CSubtype::INSITU || csubtype
                    == CSubtype::COGENERACION,
            };
            if !coherent {
                return None;
            }
            let (first, service): (usize, Service) = match Service::from_name(
                text_of(&f[3]).as_str(),
            ) {
                Some(service) => (4, service),
                None => (3, Service::NDEF),
            };
            match values_from(&f, first) {
                Some(values) => Some(
                    Component { carrier, ctype, csubtype, service, values, comment },
                ),
                None => None,
            }
        },
        _ => None,
    }
}

/// The metadata entries that the lines of a list write.
fn parse_metas(lines: &Vec<Vec<char>>) -> (r: Result<Vec<Meta>, String>)
    ensures
        match r {
            Ok(ms) => metas_upto(char_lists(lines@), lines.len() as int) == Ok::<
                Seq<MetaEntry>,
                Seq<char>,
            >(meta_entries(ms@)),
            Err(l) => metas_upto(char_lists(lines@), lines.len() as int) == Err::<
                Seq<MetaEntry>,
                Seq<char>,
            >(l@),
        },
{
    let n: usize = lines.len();
    let mut out: Vec<Meta> = Vec::new();
    let mut k: usize = 0;
    let ghost ls = char_lists(lines@);
    assert(meta_entries(out@) =~= Seq::<MetaEntry>::empty());
    while k < n
        invariant
            k <= n,
            n == lines.len(),
            ls == char_lists(lines@),
            metas_upto(ls, k as int) == Ok::<Seq<MetaEntry>, Seq<char>>(meta_entries(out@)),
        decreases n - k,
    {
        assert(ls[k as int] == lines@[k as int]@);
        if meta_line(&lines[k]) {
            match parse_meta(&lines[k]) {
                Some(m) => {
                    let ghost before = meta_entries(out@);
                    out.push(m);
                    assert(meta_entries(out@) =~= before.push(m@));
                },
                None => {
                    proof {
                        lemma_metas_fail(ls, k + 1, n as int);
                    }
                    return Err(text_of(&lines[k]));
                },
            }
        }
        k = k + 1;
    }
    Ok(out)
}

/// The weighting factors that the lines of a list write.
fn parse_factor_lines(lines: &Vec<Vec<char>>) -> (r: Result<Vec<Factor>, String>)
    ensures
        match r {
            Ok(fs) => factors_upto(char_lists(lines@), lines.len() as int) == Ok::<
                Seq<FactorRow>,
                Seq<char>,
            >(factor_rows(fs@)),
            Err(l) => factors_upto(char_lists(lines@), lines.len() as int) == Err::<
                Seq<FactorRow>,
                Seq<char>,
            >(l@),
        },
{
    let n: usize = lines.len();
    let mut out: Vec<Factor> = Vec::new();
    let mut k: usize = 0;
    let ghost ls = char_lists(lines@);
    assert(factor_rows(out@) =~= Seq::<FactorRow>::empty());
    while k < n
        invariant
            k <= n,
            n == lines.len(),
            ls == char_lists(lines@),
            factors_upto(ls, k as int) == Ok::<Seq<FactorRow>, Seq<char>>(factor_rows(out@)),
        decreases n - k,
    {
        assert(ls[k as int] == lines@[k as int]@);
        if data_line(&lines[k]) {
            match parse_factor(&lines[k]) {
                Some(f) => {
                    let ghost before = factor_rows(out@);
                    out.push(f);
                    assert(factor_rows(out@) =~= before.push(f@));
                },
                None => {
                    proof {
                        lemma_factors_fail(ls, k + 1, n as int);
                    }
                    return Err(text_of(&lines[k]));
                },
            }
        }
        k = k + 1;
    }
    Ok(out)
}

/// The components that the lines of a list write.
fn parse_component_lines(lines: &Vec<Vec<char>>) -> (r: Result<Vec<Component>, String>)
    ensures
        match r {
            Ok(cs) => components_upto(char_lists(lines@), lines.len() as int) == Ok::<
                Seq<ComponentRow>,
                Seq<char>,
            >(component_rows(cs@)),
            Err(l) => components_upto(char_lists(lines@), lines.len() as int) == Err::<
                Seq<ComponentRow>,
                Seq<char>,
            >(l@),
        },
{
    let n: usize = lines.len();
    let mut out: Vec<Component> = Vec::new();
    let mut k: usize = 0;
    let ghost ls = char_lists(lines@);
    assert(component_rows(out@) =~= Seq::<ComponentRow>::empty());
    while k < n
        invariant
            k <= n,
            n == lines.len(),
            ls == char_lists(lines@),
            components_upto(ls, k as int) == Ok::<Seq<ComponentRow>, Seq<char>>(
                component_rows(out@),
            ),
        decreases n - k,
    {
        assert(ls[k as int] == lines@[k as int]@);
        if data_line(&lines[k]) {
            match parse_component(&lines[k]) {
                Some(c) => {
                    let ghost before = component_rows(out@);
                    out.push(c);
                    assert(component_rows(out@) =~= before.push(c@));
                },
                None => {
                    proof {
                        lemma_components_fail(ls, k + 1, n as int);
                    }
                    return Err(text_of(&lines[k]));
                },
            }
        }
        k = k + 1;
    }
    Ok(out)
}

/// A failure among the first lines is the failure of the whole list.
proof fn lemma_metas_fail(lines: Seq<Seq<char>>, k: int, n: int)
    requires
        0 <= k <= n,
        metas_upto(lines, k) is Err,
    ensures
        metas_upto(lines, n) == metas_upto(lines, k),
    decreases n - k,
{
    if k < n {
        lemma_metas_fail(lines, k, n - 1);
    }
}

/// A failure among the first lines is the failure of the whole list.
proof fn lemma_factors_fail(lines: Seq<Seq<char>>, k: int, n: int)
    requires
        0 <= k <= n,
        factors_upto(lines, k) is Err,
    ensures
        factors_upto(lines, n) == factors_upto(lines, k),
    decreases n - k,
{
    if k < n {
        lemma_factors_fail(lines, k, n - 1);
    }
}

/// A failure among the first lines is the failure of the whole list.
proof fn lemma_components_fail(lines: Seq<Seq<char>>, k: int, n: int)
    requires
        0 <= k <= n,
        components_upto(lines, k) is Err,
    ensures
        components_upto(lines, n) == components_upto(lines, k),
    decreases n - k,
{
    if k < n {
        lemma_components_fail(lines, k, n - 1);
    }
}

impl Factors {
    /// The factor table that a text writes. The first line that is
    /// malformed, of the metadata lines first and then of the records, is
    /// handed back in the error.
    pub fn parse(s: &str) -> (r: Result<Factors, EpbdError>)
        ensures
            match r {
                Ok(t) => parsed_factors(s@) == Ok::<FactorsView, Seq<char>>(t@),
                Err(e) => e matches EpbdError::MalformedRecord { record } && parsed_factors(s@)
                    == Err::<FactorsView, Seq<char>>(record@),
            },
    {
        let lines: Vec<Vec<char>> = split_lines(s);
        let wmeta: Vec<Meta> = match parse_metas(&lines) {
            Ok(m) => m,
            Err(l) => {
                return Err(EpbdError::MalformedRecord { record: l });
            },
        };
        match parse_factor_lines(&lines) {
            Ok(wdata) => Ok(Factors { wmeta, wdata }),
            Err(l) => Err(EpbdError::MalformedRecord { record: l }),
        }
    }
}

impl Components {
    /// The components that a text writes. The first line that is
    /// malformed, of the metadata lines first and then of the records, is
    /// handed back in the error.
    pub fn parse(s: &str) -> (r: Result<Components, EpbdError>)
        ensures
            match r {
                Ok(c) => parsed_components(s@) == Ok::<ComponentsView, Seq<char>>(c@),
                Err(e) => e matches EpbdError::MalformedRecord { record } && parsed_components(
                    s@,
                ) == Err::<ComponentsView, Seq<char>>(record@),
            },
    {
        let lines: Vec<Vec<char>> = split_lines(s);
        let cmeta: Vec<Meta> = match parse_metas(&lines) {
            Ok(m) => m,
            Err(l) => {
                return Err(EpbdError::MalformedRecord { record: l });
            },
        };
        match parse_component_lines(&lines) {
            Ok(cdata) => Ok(Components { cmeta, cdata }),
            Err(l) => Err(EpbdError::MalformedRecord { record: l }),
        }
    }
}

} // verus!
