//! Sequences without repetition, in the order of first appearance.

use vstd::prelude::*;
use itertools::Itertools;

verus! {

/// The items of a sequence, each once, in the order in which they first
/// appear.
pub open spec fn distinct<T>(s: Seq<T>) -> Seq<T>
    decreases s.len(),
{
    if s.len() == 0 {
        Seq::empty()
    } else {
        let before = distinct(s.drop_last());
        if before.contains(s.last()) {
            before
        } else {
            before.push(s.last())
        }
    }
}

/// `distinct` holds exactly the items of the sequence.
pub proof fn lemma_distinct_contains<T>(s: Seq<T>, x: T)
    ensures
        distinct(s).contains(x) <==> s.contains(x),
    decreases s.len(),
{
    if s.len() > 0 {
        let front = s.drop_last();
        let before = distinct(front);
        lemma_distinct_contains(front, x);
        lemma_distinct_contains(front, s.last());
        if s.contains(x) && !distinct(s).contains(x) {
            let i = choose|i: int| 0 <= i < s.len() && s[i] == x;
            if i < s.len() - 1 {
                assert(front[i] == x);
                assert(before.contains(x));
                let j = choose|j: int| 0 <= j < before.len() && before[j] == x;
                assert(distinct(s)[j] == x);
            } else {
                if before.contains(x) {
                    let j = choose|j: int| 0 <= j < before.len() && before[j] == x;
                    assert(distinct(s)[j] == x);
                } else {
                    assert(distinct(s)[before.len() as int] == x);
                }
            }
        }
        if distinct(s).contains(x) && !s.contains(x) {
            let i = choose|i: int| 0 <= i < distinct(s).len() && distinct(s)[i] == x;
            if i < before.len() {
                assert(before[i] == x);
                assert(front.contains(x));
                let j = choose|j: int| 0 <= j < front.len() && front[j] == x;
                assert(s[j] == x);
            } else {
                assert(s[s.len() - 1] == x);
            }
        }
    }
}

/// `distinct` holds no item twice.
pub proof fn lemma_distinct_no_duplicates<T>(s: Seq<T>)
    ensures
        distinct(s).no_duplicates(),
    decreases s.len(),
{
    if s.len() > 0 {
        lemma_distinct_no_duplicates(s.drop_last());
    }
}

/// Mapping the items one to one commutes with `distinct`.
pub proof fn lemma_distinct_map<A, B>(s: Seq<A>, f: spec_fn(A) -> B)
    requires
        forall|a: A, b: A| #[trigger] f(a) == #[trigger] f(b) ==> a == b,
    ensures
        distinct(s.map_values(f)) == distinct(s).map_values(f),
    decreases s.len(),
{
    if s.len() > 0 {
        lemma_distinct_map(s.drop_last(), f);
        assert(s.map_values(f).drop_last() =~= s.drop_last().map_values(f));
        let before = distinct(s.drop_last());
        let mapped = before.map_values(f);
        if before.contains(s.last()) {
            let i = choose|i: int| 0 <= i < before.len() && before[i] == s.last();
            assert(mapped[i] == f(s.last()));
        } else {
            if mapped.contains(f(s.last())) {
                let i = choose|i: int| 0 <= i < mapped.len() && mapped[i] == f(s.last());
                assert(before[i] == s.last());
            }
            assert(before.push(s.last()).map_values(f) =~= mapped.push(f(s.last())));
        }
    } else {
        assert(distinct(s).map_values(f) =~= Seq::<B>::empty());
    }
}

/// The codes of a list, each once, in the order in which they first appear.
///
/// Calls `itertools::Itertools::unique` on the codes. That adaptor yields an
/// item when it meets it for the first time and skips it afterwards, so what
/// is collected is `distinct` of the input.
#[verifier::external_body]
pub(crate) fn distinct_codes(codes: &Vec<u8>) -> (r: Vec<u8>)
    ensures
        r@ == distinct(codes@),
{
    codes.iter().cloned().unique().collect()
}

} // verus!
