//! Records as lines of text: fields with commas between them, and a
//! comment after a hash sign.

use vstd::prelude::*;
use crate::decimal::{parse_chars, parsed_thousandths, trim, trimmed};
use crate::text::{cut, fields, part_of, position_of, split_fields, text_of};

verus! {

/// The fields of a record: what stands before the first hash sign, cut at
/// the commas, each part without the blanks around it.
pub open spec fn record_fields(s: Seq<char>) -> Seq<Seq<char>> {
    let head = cut(trimmed(s), '#').0;
    Seq::new(fields(head, ',').len(), |k: int| trimmed(fields(head, ',')[k]))
}

/// The comment of a record: what stands after the first hash sign, without
/// the blanks around it; empty where there is no hash sign.
pub open spec fn record_comment(s: Seq<char>) -> Seq<char> {
    match cut(trimmed(s), '#').1 {
        Some(c) => trimmed(c),
        None => Seq::empty(),
    }
}

/// The quantities that the fields from one position up to another write,
/// in thousandths; none where one of them writes no number that can be
/// stored.
pub open spec fn values_between(f: Seq<Seq<char>>, from: int, to: int) -> Option<Seq<int>>
    decreases to - from,
{
    if to <= from {
        Some(Seq::empty())
    } else {
        match (values_between(f, from, to - 1), parsed_thousandths(f[to - 1])) {
            (Some(vs), Some(v)) => Some(vs.push(v)),
            _ => None,
        }
    }
}

/// What a list of lists of characters holds.
pub open spec fn char_lists(v: Seq<Vec<char>>) -> Seq<Seq<char>> {
    Seq::new(v.len(), |k: int| v[k]@)
}

/// The fields and the comment of a record.
pub fn record_of(chars: &Vec<char>) -> (r: (Vec<Vec<char>>, String))
    ensures
        char_lists(r.0@) == record_fields(chars@),
        r.1@ == record_comment(chars@),
        r.0@.len() >= 1,
{
    let line: Vec<char> = trim(chars);
    let n: usize = line.len();
    let p: usize = position_of(&line, '#', 0);
    let head: Vec<char> = part_of(&line, 0, p);
    let comment: String = if p < n {
        let tail: Vec<char> = part_of(&line, p + 1, n);
        text_of(&trim(&tail))
    } else {
        assert(head@ =~= line@);
        String::new()
    };
    let raw: Vec<Vec<char>> = split_fields(&head, ',');
    let mut out: Vec<Vec<char>> = Vec::new();
    let m: usize = raw.len();
    let mut k: usize = 0;
    while k < m
        invariant
            k <= m,
            m == raw.len(),
            out.len() == k,
            forall|j: int| 0 <= j < k ==> (#[trigger] out@[j])@ == trimmed(raw@[j]@),
        decreases m - k,
    {
        out.push(trim(&raw[k]));
        k = k + 1;
    }
    assert(char_lists(out@) =~= record_fields(chars@));
    (out, comment)
}

/// The quantities that the fields from one position on write, in
/// thousandths.
pub fn values_from(f: &Vec<Vec<char>>, from: usize) -> (r: Option<Vec<i64>>)
    requires
        from <= f.len(),
    ensures
        match r {
            Some(vs) => values_between(char_lists(f@), from as int, f.len() as int) == Some(
                crate::fixed::ints(vs@),
            ),
            None => values_between(char_lists(f@), from as int, f.len() as int) is None,
        },
{
    let n: usize = f.len();
    let mut out: Vec<i64> = Vec::new();
    let mut k: usize = from;
    assert(crate::fixed::ints(out@) =~= Seq::<int>::empty());
    while k < n
        invariant
            from <= k <= n,
            n == f.len(),
            values_between(char_lists(f@), from as int, k as int) == Some(
                crate::fixed::ints(out@),
            ),
        decreases n - k,
    {
        assert(char_lists(f@)[k as int] == f@[k as int]@);
        match parse_chars(&f[k]) {
            Some(v) => {
                let ghost before = crate::fixed::ints(out@);
                out.push(v);
                assert(crate::fixed::ints(out@) =~= before.push(v as int));
            },
            None => {
                proof {
                    lemma_values_fail(char_lists(f@), from as int, k as int, n as int);
                }
                return None;
            },
        }
        k = k + 1;
    }
    Some(out)
}

/// Where one field writes no number, no list of fields that holds it
/// writes quantities.
pub proof fn lemma_values_fail(f: Seq<Seq<char>>, from: int, k: int, to: int)
    requires
        from <= k < to,
        parsed_thousandths(f[k]) is None,
    ensures
        values_between(f, from, to) is None,
    decreases to - k,
{
    if k < to - 1 {
        lemma_values_fail(f, from, k, to - 1);
    }
}

} // verus!
