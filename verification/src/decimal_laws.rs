//! What is written as decimal text reads back as the number it was.

use vstd::prelude::*;
use crate::decimal::{
    all_digits, back_blank, decimal3, decimal3_pair, digit_char, digit_value, digits,
    find_char, is_blank, number_of, parsed_pair, parsed_thousandths,
    signed_decimal, skip_blank, thousandths, trimmed, unsigned_decimal,
};

verus! {

/// A digit reads back from its character, which is neither blank nor a
/// sign, a point or a comma.
pub proof fn lemma_digit_char(d: int)
    requires
        0 <= d < 10,
    ensures
        digit_value(digit_char(d)) == Some(d),
        !is_blank(digit_char(d)),
        digit_char(d) != '.' && digit_char(d) != ',' && digit_char(d) != '-' && digit_char(d)
            != '+',
{
}

/// The digits of a number are digits, at least one, and write the number.
pub proof fn lemma_digits(n: nat)
    ensures
        digits(n).len() > 0,
        all_digits(digits(n)),
        number_of(digits(n)) == n,
        forall|i: int|
            0 <= i < digits(n).len() ==> (#[trigger] digits(n)[i]) != '.' && digits(n)[i] != ','
                && digits(n)[i] != '-' && digits(n)[i] != '+' && !is_blank(digits(n)[i]),
    decreases n,
{
    if n < 10 {
        lemma_digit_char(n as int);
        assert(digits(n).drop_last() =~= Seq::<char>::empty());
        assert(digits(n).last() == digit_char(n as int));
        assert(number_of(digits(n).drop_last()) == 0);
    } else {
        lemma_digits(n / 10);
        lemma_digit_char((n % 10) as int);
        let front = digits(n / 10);
        assert(digits(n).drop_last() =~= front);
        assert(digits(n).last() == digit_char((n % 10) as int));
        assert(number_of(digits(n)) == number_of(front) * 10 + (n % 10));
        assert forall|i: int| 0 <= i < digits(n).len() implies digit_value(
            #[trigger] digits(n)[i],
        ) is Some by {
            if i < front.len() {
                assert(digits(n)[i] == front[i]);
            }
        }
        assert forall|i: int| 0 <= i < digits(n).len() implies (#[trigger] digits(n)[i]) != '.'
            && digits(n)[i] != ',' && digits(n)[i] != '-' && digits(n)[i] != '+' && !is_blank(
            digits(n)[i],
        ) by {
            if i < front.len() {
                assert(digits(n)[i] == front[i]);
            }
        }
    }
}

/// Where a character stands at a position and not before it, searching
/// for it from the start finds the position.
pub proof fn lemma_find_char_at(s: Seq<char>, c: char, p: int, i: int)
    requires
        0 <= i <= p <= s.len(),
        forall|j: int| 0 <= j < p ==> s[j] != c,
        p < s.len() ==> s[p] == c,
    ensures
        find_char(s, c, i) == p,
    decreases p - i,
{
    if i < p {
        lemma_find_char_at(s, c, p, i + 1);
    }
}

/// A number of thousandths without sign, written with three decimals,
/// reads back.
pub proof fn lemma_unsigned_reads_back(m: nat)
    ensures
        unsigned_decimal(decimal3(m as int)) == Some(m as int),
        decimal3(m as int).len() >= 5,
        forall|i: int|
            0 <= i < decimal3(m as int).len() ==> (#[trigger] decimal3(m as int)[i]) != ','
                && decimal3(m as int)[i] != '-' && decimal3(m as int)[i] != '+' && !is_blank(
                decimal3(m as int)[i],
            ),
{
    let s = decimal3(m as int);
    let whole = digits(m / 1000);
    let d1 = ((m / 100) % 10) as int;
    let d2 = ((m / 10) % 10) as int;
    let d3 = (m % 10) as int;
    let tail = seq!['.', digit_char(d1), digit_char(d2), digit_char(d3)];
    lemma_digits(m / 1000);
    lemma_digit_char(d1);
    lemma_digit_char(d2);
    lemma_digit_char(d3);
    assert(s =~= whole + tail);
    let p = whole.len() as int;
    assert forall|j: int| 0 <= j < p implies s[j] != '.' by {
        assert(s[j] == whole[j]);
    }
    assert(s[p] == '.');
    lemma_find_char_at(s, '.', p, 0);
    assert(s.subrange(0, p) =~= whole);
    let frac = s.subrange(p + 1, s.len() as int);
    assert(frac =~= seq![digit_char(d1), digit_char(d2), digit_char(d3)]);
    assert(all_digits(frac));
    assert(thousandths(frac) == d1 * 100 + d2 * 10 + d3);
    assert((m / 1000) * 1000 + d1 * 100 + d2 * 10 + d3 == m);
    assert forall|i: int| 0 <= i < s.len() implies (#[trigger] s[i]) != ',' && s[i] != '-' && s[i]
        != '+' && !is_blank(s[i]) by {
        if i < p {
            assert(s[i] == whole[i]);
        } else {
            assert(s[i] == tail[i - p]);
        }
    }
}

/// A text without blanks at its start and at its end is what trimming
/// leaves of it.
pub proof fn lemma_trimmed_same(s: Seq<char>)
    requires
        s.len() > 0,
        !is_blank(s[0]),
        !is_blank(s[s.len() - 1]),
    ensures
        trimmed(s) == s,
{
    assert(skip_blank(s, 0) == 0);
    assert(back_blank(s, 0, s.len() as int) == s.len());
    assert(s.subrange(0, s.len() as int) =~= s);
}

/// A number of thousandths written with three decimals reads back, unless
/// it is the least number that can be stored.
pub proof fn lemma_decimal3_reads_back(v: int)
    requires
        -i64::MAX <= v <= i64::MAX,
    ensures
        parsed_thousandths(decimal3(v)) == Some(v),
        signed_decimal(decimal3(v)) == Some(v),
        decimal3(v).len() >= 5,
        !is_blank(decimal3(v)[0]),
        !is_blank(decimal3(v)[decimal3(v).len() - 1]),
        forall|i: int| 0 <= i < decimal3(v).len() ==> (#[trigger] decimal3(v)[i]) != ',',
{
    let s = decimal3(v);
    if v < 0 {
        let m = (-v) as nat;
        let body = decimal3(m as int);
        lemma_unsigned_reads_back(m);
        assert(s =~= seq!['-'] + body);
        assert(s.subrange(1, s.len() as int) =~= body);
        assert(s[0] == '-');
        assert(s[s.len() - 1] == body[body.len() - 1]);
        assert forall|i: int| 0 <= i < s.len() implies (#[trigger] s[i]) != ',' by {
            if i > 0 {
                assert(s[i] == body[i - 1]);
            }
        }
        lemma_trimmed_same(s);
    } else {
        lemma_unsigned_reads_back(v as nat);
        assert(s[0] != '-' && s[0] != '+');
        lemma_trimmed_same(s);
    }
}

/// A number of thousandths written with three decimals reads back after
/// a space too, and the space brings no comma.
proof fn lemma_after_space_reads_back(b: int)
    requires
        -i64::MAX <= b <= i64::MAX,
    ensures
        parsed_thousandths(seq![' '] + decimal3(b)) == Some(b),
        find_char(seq![' '] + decimal3(b), ',', 0) == (seq![' '] + decimal3(b)).len(),
{
    let right = seq![' '] + decimal3(b);
    lemma_decimal3_reads_back(b);
    assert forall|j: int| 0 <= j < right.len() implies right[j] != ',' by {
        if j > 0 {
            assert(right[j] == decimal3(b)[j - 1]);
        }
    }
    lemma_find_char_at(right, ',', right.len() as int, 0);
    assert(is_blank(right[0]));
    assert(right[1] == decimal3(b)[0]);
    assert(skip_blank(right, 1) == 1);
    assert(skip_blank(right, 0) == 1);
    assert(right[right.len() - 1] == decimal3(b)[decimal3(b).len() - 1]);
    assert(back_blank(right, 1, right.len() as int) == right.len());
    assert(right.subrange(1, right.len() as int) =~= decimal3(b));
    assert(trimmed(right) == decimal3(b));
}

/// In two numbers written with a comma and a space between them, the
/// first comma is the one between them.
proof fn lemma_pair_cut(a: int, b: int)
    requires
        -i64::MAX <= a <= i64::MAX,
    ensures
        find_char(decimal3_pair(a, b), ',', 0) == decimal3(a).len(),
        decimal3(a).len() < decimal3_pair(a, b).len(),
        decimal3_pair(a, b).subrange(0, decimal3(a).len() as int) == decimal3(a),
        decimal3_pair(a, b).subrange(
            decimal3(a).len() as int + 1,
            decimal3_pair(a, b).len() as int,
        ) == seq![' '] + decimal3(b),
{
    let s = decimal3_pair(a, b);
    let left = decimal3(a);
    let right = seq![' '] + decimal3(b);
    lemma_decimal3_reads_back(a);
    let p = left.len() as int;
    assert(s =~= left + seq![','] + right);
    assert forall|j: int| 0 <= j < p implies s[j] != ',' by {
        assert(s[j] == left[j]);
    }
    assert(s[p] == ',');
    lemma_find_char_at(s, ',', p, 0);
    assert(s.subrange(0, p) =~= left);
    assert(s.subrange(p + 1, s.len() as int) =~= right);
}

/// Two numbers of thousandths written with three decimals, with a comma
/// and a space between them, read back.
pub proof fn lemma_pair_reads_back(a: int, b: int)
    requires
        -i64::MAX <= a <= i64::MAX,
        -i64::MAX <= b <= i64::MAX,
    ensures
        parsed_pair(decimal3_pair(a, b)) == Some((a, b)),
{
    lemma_pair_cut(a, b);
    lemma_after_space_reads_back(b);
    lemma_decimal3_reads_back(a);
}

} // verus!
