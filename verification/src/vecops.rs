//! Arithmetic on series of quantities, entry by entry. A series that is
//! shorter than the other counts as zero beyond its end: the result is as
//! long as the longer one.

use vstd::prelude::*;
use crate::fixed::{all_fit, fits, ints};

verus! {

/// The entry of a series at a position, zero beyond its end.
pub open spec fn at(s: Seq<int>, i: int) -> int {
    if 0 <= i < s.len() {
        s[i]
    } else {
        0
    }
}

/// The greater of two lengths.
pub open spec fn longer(a: nat, b: nat) -> nat {
    if a >= b {
        a
    } else {
        b
    }
}

/// Entry by entry sum of two series.
pub open spec fn seq_sum(a: Seq<int>, b: Seq<int>) -> Seq<int> {
    Seq::new(longer(a.len(), b.len()), |i: int| at(a, i) + at(b, i))
}

/// Entry by entry difference of two series.
pub open spec fn seq_dif(a: Seq<int>, b: Seq<int>) -> Seq<int> {
    Seq::new(longer(a.len(), b.len()), |i: int| at(a, i) - at(b, i))
}

/// Entry by entry product of two series.
pub open spec fn seq_mul(a: Seq<int>, b: Seq<int>) -> Seq<int> {
    Seq::new(longer(a.len(), b.len()), |i: int| at(a, i) * at(b, i))
}

/// Entry by entry minimum of two series.
pub open spec fn seq_min(a: Seq<int>, b: Seq<int>) -> Seq<int> {
    Seq::new(
        longer(a.len(), b.len()),
        |i: int|
            if at(a, i) <= at(b, i) {
                at(a, i)
            } else {
                at(b, i)
            },
    )
}

/// A series with every entry multiplied by a number.
pub open spec fn seq_scaled(a: Seq<int>, k: int) -> Seq<int> {
    Seq::new(a.len(), |i: int| a[i] * k)
}

/// The sum of all entries of a series.
pub open spec fn total(a: Seq<int>) -> int
    decreases a.len(),
{
    if a.len() == 0 {
        0
    } else {
        total(a.drop_last()) + a.last()
    }
}

/// The length of the longest series of a list.
pub open spec fn widest(list: Seq<Seq<int>>) -> nat
    decreases list.len(),
{
    if list.len() == 0 {
        0
    } else {
        longer(widest(list.drop_last()), list.last().len())
    }
}

/// The sum over a list of series of their entries at one position.
pub open spec fn column(list: Seq<Seq<int>>, i: int) -> int
    decreases list.len(),
{
    if list.len() == 0 {
        0
    } else {
        column(list.drop_last(), i) + at(list.last(), i)
    }
}

/// Entry by entry sum of a list of series, as long as the longest of them.
pub open spec fn list_sum(list: Seq<Seq<int>>) -> Seq<int> {
    Seq::new(widest(list), |i: int| column(list, i))
}

/// What a list of stored series holds.
pub open spec fn series_of(list: Seq<Vec<i64>>) -> Seq<Seq<int>> {
    Seq::new(list.len(), |k: int| ints(list[k]@))
}

/// Beyond the longest series every column is zero.
pub proof fn lemma_column_beyond(list: Seq<Seq<int>>, i: int)
    requires
        i < 0 || i >= widest(list),
    ensures
        column(list, i) == 0,
    decreases list.len(),
{
    if list.len() > 0 {
        lemma_column_beyond(list.drop_last(), i);
    }
}

/// The entry of a stored series at a position, zero beyond its end.
fn entry(v: &[i64], i: usize) -> (r: i64)
    ensures
        r == at(ints(v@), i as int),
{
    if i < v.len() {
        v[i]
    } else {
        0
    }
}

/// The greater of two lengths.
fn longer_of(a: usize, b: usize) -> (r: usize)
    ensures
        r == longer(a as nat, b as nat),
{
    if a >= b {
        a
    } else {
        b
    }
}

/// Entry by entry sum of two series.
pub fn vecvecsum(vec1: &[i64], vec2: &[i64]) -> (r: Vec<i64>)
    requires
        all_fit(seq_sum(ints(vec1@), ints(vec2@))),
    ensures
        ints(r@) == seq_sum(ints(vec1@), ints(vec2@)),
{
    let n: usize = longer_of(vec1.len(), vec2.len());
    let ghost want = seq_sum(ints(vec1@), ints(vec2@));
    let mut out: Vec<i64> = Vec::new();
    let mut i: usize = 0;
    while i < n
        invariant
            i <= n,
            n == want.len(),
            want == seq_sum(ints(vec1@), ints(vec2@)),
            all_fit(want),
            out.len() == i,
            forall|j: int| 0 <= j < i ==> #[trigger] out[j] == want[j],
        decreases n - i,
    {
        let a: i64 = entry(vec1, i);
        let b: i64 = entry(vec2, i);
        assert(fits(want[i as int]));
        out.push(a + b);
        i = i + 1;
    }
    assert(ints(out@) =~= want);
    out
}

/// Entry by entry difference of two series.
pub fn vecvecdif(vec1: &[i64], vec2: &[i64]) -> (r: Vec<i64>)
    requires
        all_fit(seq_dif(ints(vec1@), ints(vec2@))),
    ensures
        ints(r@) == seq_dif(ints(vec1@), ints(vec2@)),
{
    let n: usize = longer_of(vec1.len(), vec2.len());
    let ghost want = seq_dif(ints(vec1@), ints(vec2@));
    let mut out: Vec<i64> = Vec::new();
    let mut i: usize = 0;
    while i < n
        invariant
            i <= n,
            n == want.len(),
            want == seq_dif(ints(vec1@), ints(vec2@)),
            all_fit(want),
            out.len() == i,
            forall|j: int| 0 <= j < i ==> #[trigger] out[j] == want[j],
        decreases n - i,
    {
        let a: i64 = entry(vec1, i);
        let b: i64 = entry(vec2, i);
        assert(fits(want[i as int]));
        out.push(a - b);
        i = i + 1;
    }
    assert(ints(out@) =~= want);
    out
}

/// Entry by entry product of two series.
pub fn vecvecmul(vec1: &[i64], vec2: &[i64]) -> (r: Vec<i64>)
    requires
        all_fit(seq_mul(ints(vec1@), ints(vec2@))),
    ensures
        ints(r@) == seq_mul(ints(vec1@), ints(vec2@)),
{
    let n: usize = longer_of(vec1.len(), vec2.len());
    let ghost want = seq_mul(ints(vec1@), ints(vec2@));
    let mut out: Vec<i64> = Vec::new();
    let mut i: usize = 0;
    while i < n
        invariant
            i <= n,
            n == want.len(),
            want == seq_mul(ints(vec1@), ints(vec2@)),
            all_fit(want),
            out.len() == i,
            forall|j: int| 0 <= j < i ==> #[trigger] out[j] == want[j],
        decreases n - i,
    {
        let a: i64 = entry(vec1, i);
        let b: i64 = entry(vec2, i);
        assert(fits(want[i as int]));
        out.push(a * b);
        i = i + 1;
    }
    assert(ints(out@) =~= want);
    out
}

/// Entry by entry minimum of two series.
pub fn vecvecmin(vec1: &[i64], vec2: &[i64]) -> (r: Vec<i64>)
    ensures
        ints(r@) == seq_min(ints(vec1@), ints(vec2@)),
{
    let n: usize = longer_of(vec1.len(), vec2.len());
    let ghost want = seq_min(ints(vec1@), ints(vec2@));
    let mut out: Vec<i64> = Vec::new();
    let mut i: usize = 0;
    while i < n
        invariant
            i <= n,
            n == want.len(),
            want == seq_min(ints(vec1@), ints(vec2@)),
            out.len() == i,
            forall|j: int| 0 <= j < i ==> #[trigger] out[j] == want[j],
        decreases n - i,
    {
        let a: i64 = entry(vec1, i);
        let b: i64 = entry(vec2, i);
        if a <= b {
            out.push(a);
        } else {
            out.push(b);
        }
        i = i + 1;
    }
    assert(ints(out@) =~= want);
    out
}

/// A series with every entry multiplied by a number.
pub fn veckmul(vec1: &[i64], k: i64) -> (r: Vec<i64>)
    requires
        all_fit(seq_scaled(ints(vec1@), k as int)),
    ensures
        ints(r@) == seq_scaled(ints(vec1@), k as int),
{
    let n: usize = vec1.len();
    let ghost want = seq_scaled(ints(vec1@), k as int);
    let mut out: Vec<i64> = Vec::new();
    let mut i: usize = 0;
    while i < n
        invariant
            i <= n,
            n == vec1.len(),
            want == seq_scaled(ints(vec1@), k as int),
            all_fit(want),
            out.len() == i,
            forall|j: int| 0 <= j < i ==> #[trigger] out[j] == want[j],
        decreases n - i,
    {
        assert(fits(want[i as int]));
        out.push(vec1[i] * k);
        i = i + 1;
    }
    assert(ints(out@) =~= want);
    out
}

/// The sum of all entries of a series, in a type wide enough for any
/// series.
pub fn wide_total(vec: &[i64]) -> (r: i128)
    ensures
        r == total(ints(vec@)),
{
    let n: usize = vec.len();
    let mut acc: i128 = 0;
    let mut i: usize = 0;
    assert(ints(vec@).take(0) =~= Seq::<int>::empty());
    while i < n
        invariant
            i <= n,
            n == vec.len(),
            acc == total(ints(vec@).take(i as int)),
            -(i as int) * 0x8000_0000_0000_0000 <= acc <= (i as int) * 0x8000_0000_0000_0000,
        decreases n - i,
    {
        proof {
            let s = ints(vec@);
            assert(s.take(i + 1).drop_last() =~= s.take(i as int));
            assert(s.take(i + 1).last() == vec[i as int]);
            assert((i as int + 1) * 0x8000_0000_0000_0000 == (i as int) * 0x8000_0000_0000_0000
                + 0x8000_0000_0000_0000) by (nonlinear_arith);
            assert((i as int + 1) * 0x8000_0000_0000_0000 <= 0x1_0000_0000_0000_0000
                * 0x8000_0000_0000_0000) by (nonlinear_arith)
                requires
                    i as int + 1 <= 0x1_0000_0000_0000_0000,
            ;
        }
        acc = acc + vec[i] as i128;
        i = i + 1;
    }
    assert(ints(vec@).take(n as int) =~= ints(vec@));
    acc
}

/// The sum of all entries of a series.
pub fn vecsum(vec: &[i64]) -> (r: i64)
    requires
        fits(total(ints(vec@))),
    ensures
        r == total(ints(vec@)),
{
    let wide: i128 = wide_total(vec);
    wide as i64
}

/// The length of the longest series of a list.
pub fn widest_of(veclist: &[Vec<i64>]) -> (r: usize)
    ensures
        r == widest(series_of(veclist@)),
{
    let n: usize = veclist.len();
    let mut best: usize = 0;
    let mut k: usize = 0;
    let ghost list = series_of(veclist@);
    assert(list.take(0) =~= Seq::<Seq<int>>::empty());
    while k < n
        invariant
            k <= n,
            n == veclist.len(),
            list == series_of(veclist@),
            best == widest(list.take(k as int)),
        decreases n - k,
    {
        proof {
            assert(list.take(k + 1).drop_last() =~= list.take(k as int));
            assert(list.take(k + 1).last().len() == veclist[k as int].len());
        }
        best = longer_of(best, veclist[k].len());
        k = k + 1;
    }
    assert(list.take(n as int) =~= list);
    best
}

/// The sum over a list of series of their entries at one position, in a
/// type wide enough for any list.
pub fn wide_column(veclist: &[Vec<i64>], i: usize) -> (r: i128)
    ensures
        r == column(series_of(veclist@), i as int),
{
    let n: usize = veclist.len();
    let mut acc: i128 = 0;
    let mut k: usize = 0;
    let ghost list = series_of(veclist@);
    assert(list.take(0) =~= Seq::<Seq<int>>::empty());
    while k < n
        invariant
            k <= n,
            n == veclist.len(),
            list == series_of(veclist@),
            acc == column(list.take(k as int), i as int),
            -(k as int) * 0x8000_0000_0000_0000 <= acc <= (k as int) * 0x8000_0000_0000_0000,
        decreases n - k,
    {
        proof {
            assert(list.take(k + 1).drop_last() =~= list.take(k as int));
            assert(list.take(k + 1).last() == ints(veclist[k as int]@));
            assert((k as int + 1) * 0x8000_0000_0000_0000 == (k as int) * 0x8000_0000_0000_0000
                + 0x8000_0000_0000_0000) by (nonlinear_arith);
            assert((k as int + 1) * 0x8000_0000_0000_0000 <= 0x1_0000_0000_0000_0000
                * 0x8000_0000_0000_0000) by (nonlinear_arith)
                requires
                    k as int + 1 <= 0x1_0000_0000_0000_0000,
            ;
        }
        let e: i64 = entry(veclist[k].as_slice(), i);
        acc = acc + e as i128;
        k = k + 1;
    }
    assert(list.take(n as int) =~= list);
    acc
}

/// Entry by entry sum of a list of series, as long as the longest of them.
pub fn veclistsum(veclist: &[Vec<i64>]) -> (r: Vec<i64>)
    requires
        all_fit(list_sum(series_of(veclist@))),
    ensures
        ints(r@) == list_sum(series_of(veclist@)),
{
    let n: usize = widest_of(veclist);
    let ghost want = list_sum(series_of(veclist@));
    let mut out: Vec<i64> = Vec::new();
    let mut i: usize = 0;
    while i < n
        invariant
            i <= n,
            n == want.len(),
            want == list_sum(series_of(veclist@)),
            all_fit(want),
            out.len() == i,
            forall|j: int| 0 <= j < i ==> #[trigger] out[j] == want[j],
        decreases n - i,
    {
        let wide: i128 = wide_column(veclist, i);
        assert(fits(want[i as int]));
        out.push(wide as i64);
        i = i + 1;
    }
    assert(ints(out@) =~= want);
    out
}

} // verus!
