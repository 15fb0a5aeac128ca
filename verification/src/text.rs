//! Texts as sequences of characters: fields between separators, prefixes,
//! and whole numbers.

use vstd::prelude::*;
use crate::decimal::{
    all_digits, digit_value, digits, find_char, lemma_find_char, lemma_number_grows, number_of,
    push_digits,
};

verus! {

/// The parts of a text between the occurrences of a separator, in their
/// order: one more part than there are separators.
pub open spec fn fields(s: Seq<char>, sep: char) -> Seq<Seq<char>>
    decreases s.len(),
{
    let p = find_char(s, sep, 0);
    if 0 <= p < s.len() {
        seq![s.subrange(0, p)] + fields(s.subrange(p + 1, s.len() as int), sep)
    } else {
        seq![s]
    }
}

/// Whether a text begins with another.
pub open spec fn starts_with(s: Seq<char>, prefix: Seq<char>) -> bool {
    prefix.len() <= s.len() && s.subrange(0, prefix.len() as int) == prefix
}

/// A text cut in two at the first occurrence of a separator: what stands
/// before it, and what stands after it if the separator occurs at all.
pub open spec fn cut(s: Seq<char>, sep: char) -> (Seq<char>, Option<Seq<char>>) {
    let p = find_char(s, sep, 0);
    if 0 <= p < s.len() {
        (s.subrange(0, p), Some(s.subrange(p + 1, s.len() as int)))
    } else {
        (s, None)
    }
}

/// A whole number written in decimal digits, with a minus sign if it is
/// negative.
pub open spec fn integer_text(v: int) -> Seq<char> {
    if v < 0 {
        seq!['-'] + digits((-v) as nat)
    } else {
        digits(v as nat)
    }
}

/// The whole number that a text writes: decimal digits, at least one, after
/// a minus or a plus sign or none. None for any other text.
pub open spec fn parsed_integer(s: Seq<char>) -> Option<int> {
    let body = if s.len() > 0 && (s[0] == '-' || s[0] == '+') {
        s.subrange(1, s.len() as int)
    } else {
        s
    };
    if body.len() > 0 && all_digits(body) {
        if s[0] == '-' {
            Some(-number_of(body))
        } else {
            Some(number_of(body))
        }
    } else {
        None
    }
}

/// Searching a text from a position on is searching what follows the
/// position from its start.
pub proof fn lemma_find_char_from(s: Seq<char>, c: char, a: int, i: int)
    requires
        0 <= a <= a + i <= s.len(),
    ensures
        find_char(s.subrange(a, s.len() as int), c, i) + a == find_char(s, c, a + i),
    decreases s.len() - a - i,
{
    let rest = s.subrange(a, s.len() as int);
    if a + i < s.len() && s[a + i] != c {
        assert(rest[i] == s[a + i]);
        lemma_find_char_from(s, c, a, i + 1);
    } else if a + i < s.len() {
        assert(rest[i] == s[a + i]);
    }
}

/// The characters of a part of a text.
pub fn part_of(v: &Vec<char>, lo: usize, hi: usize) -> (r: Vec<char>)
    requires
        lo <= hi <= v.len(),
    ensures
        r@ == v@.subrange(lo as int, hi as int),
{
    let mut out: Vec<char> = Vec::new();
    let mut i: usize = lo;
    while i < hi
        invariant
            lo <= i <= hi,
            hi <= v.len(),
            out@ == v@.subrange(lo as int, i as int),
        decreases hi - i,
    {
        out.push(v[i]);
        assert(out@ =~= v@.subrange(lo as int, i + 1));
        i = i + 1;
    }
    out
}

/// The first position from a given one on that holds a given character.
pub fn position_of(v: &Vec<char>, c: char, from: usize) -> (r: usize)
    requires
        from <= v.len(),
    ensures
        r == find_char(v@, c, from as int),
        from <= r <= v.len(),
{
    let mut i: usize = from;
    proof {
        lemma_find_char(v@, c, from as int);
    }
    while i < v.len() && v[i] != c
        invariant
            from <= i <= v.len(),
            find_char(v@, c, from as int) == find_char(v@, c, i as int),
        decreases v.len() - i,
    {
        i = i + 1;
    }
    i
}

/// The parts of a text between the occurrences of a separator.
pub fn split_fields(v: &Vec<char>, sep: char) -> (r: Vec<Vec<char>>)
    ensures
        r@.len() == fields(v@, sep).len(),
        forall|k: int| 0 <= k < r@.len() ==> (#[trigger] r@[k])@ == fields(v@, sep)[k],
        r@.len() >= 1,
{
    let n: usize = v.len();
    let mut out: Vec<Vec<char>> = Vec::new();
    let mut start: usize = 0;
    let ghost mut done: Seq<Seq<char>> = Seq::empty();
    assert(v@.subrange(0, n as int) =~= v@);
    loop
        invariant
            start <= n,
            n == v.len(),
            out@.len() == done.len(),
            forall|k: int| 0 <= k < out@.len() ==> (#[trigger] out@[k])@ == done[k],
            fields(v@, sep) == done + fields(v@.subrange(start as int, n as int), sep),
        decreases n - start,
    {
        let p: usize = position_of(v, sep, start);
        let ghost rest = v@.subrange(start as int, n as int);
        proof {
            lemma_find_char_from(v@, sep, start as int, 0);
            assert(find_char(rest, sep, 0) == p - start);
        }
        let piece: Vec<char> = part_of(v, start, p);
        assert(piece@ =~= rest.subrange(0, p - start));
        out.push(piece);
        if p >= n {
            proof {
                assert(rest.subrange(0, p - start) =~= rest);
                assert(fields(rest, sep) =~= seq![rest]);
                assert(fields(v@, sep) =~= done.push(rest));
                done = done.push(rest);
            }
            return out;
        }
        proof {
            let tail = rest.subrange(p - start + 1, rest.len() as int);
            assert(tail =~= v@.subrange(p + 1, n as int));
            assert(fields(rest, sep) =~= seq![rest.subrange(0, p - start)] + fields(tail, sep));
            assert(done + (seq![rest.subrange(0, p - start)] + fields(tail, sep)) =~= done.push(
                rest.subrange(0, p - start),
            ) + fields(tail, sep));
            done = done.push(rest.subrange(0, p - start));
        }
        start = p + 1;
    }
}

/// Whether a text begins with another.
pub fn has_prefix(v: &Vec<char>, prefix: &str) -> (r: bool)
    ensures
        r == starts_with(v@, prefix@),
{
    let p: Vec<char> = crate::decimal::chars_of(prefix);
    let n: usize = p.len();
    if n > v.len() {
        return false;
    }
    let mut i: usize = 0;
    while i < n
        invariant
            i <= n,
            n == p.len(),
            n <= v.len(),
            p@ == prefix@,
            forall|j: int| 0 <= j < i ==> v@[j] == p@[j],
        decreases n - i,
    {
        if v[i] != p[i] {
            assert(v@.subrange(0, n as int)[i as int] != prefix@[i as int]);
            return false;
        }
        i = i + 1;
    }
    assert(v@.subrange(0, n as int) =~= prefix@);
    true
}

/// The text that a list of characters makes.
pub fn text_of(v: &Vec<char>) -> (r: String)
    ensures
        r@ == v@,
{
    let mut out: String = String::new();
    let n: usize = v.len();
    let mut i: usize = 0;
    while i < n
        invariant
            i <= n,
            n == v.len(),
            out@ == v@.subrange(0, i as int),
        decreases n - i,
    {
        out.push(v[i]);
        assert(out@ =~= v@.subrange(0, i + 1));
        i = i + 1;
    }
    assert(v@.subrange(0, n as int) =~= v@);
    out
}

/// Whether a list of characters makes a given text.
pub fn is_text(v: &Vec<char>, text: &str) -> (r: bool)
    ensures
        r == (v@ == text@),
{
    text_of(v) == String::from_str(text)
}

/// Appends a whole number in decimal digits to a text.
pub fn push_integer(out: &mut String, v: i64)
    ensures
        final(out)@ == old(out)@ + integer_text(v as int),
{
    if v < 0 {
        out.push('-');
        push_digits(out, (-(v as i128)) as u128);
        assert(out@ =~= old(out)@ + integer_text(v as int));
    } else {
        push_digits(out, v as u128);
    }
}

/// The whole number that a text writes, where it is one of 32 bits.
pub fn parse_i32(v: &Vec<char>) -> (r: Option<i32>)
    ensures
        match r {
            Some(x) => parsed_integer(v@) == Some(x as int),
            None => match parsed_integer(v@) {
                Some(y) => y < i32::MIN || y > i32::MAX,
                None => true,
            },
        },
{
    let n: usize = v.len();
    let signed: bool = n > 0 && (v[0] == '-' || v[0] == '+');
    let negative: bool = n > 0 && v[0] == '-';
    let body: Vec<char> = if signed {
        part_of(v, 1, n)
    } else {
        assert(v@.subrange(0, n as int) =~= v@);
        part_of(v, 0, n)
    };
    let m: usize = body.len();
    if m == 0 {
        return None;
    }
    let mut acc: i64 = 0;
    let mut i: usize = 0;
    assert(body@.take(0) =~= Seq::<char>::empty());
    while i < m
        invariant
            i <= m,
            m == body.len(),
            m > 0,
            n == v.len(),
            signed == (n > 0 && (v@[0] == '-' || v@[0] == '+')),
            negative == (n > 0 && v@[0] == '-'),
            body@ == if signed {
                v@.subrange(1, n as int)
            } else {
                v@
            },
            forall|j: int| 0 <= j < i ==> digit_value(#[trigger] body@[j]) is Some,
            acc == number_of(body@.take(i as int)),
            0 <= acc <= 0x8000_0000,
        decreases m - i,
    {
        proof {
            assert(body@.take(i + 1).drop_last() =~= body@.take(i as int));
            assert(body@.take(i + 1).last() == body@[i as int]);
        }
        let d: i64 = match digit_number(body[i]) {
            Some(d) => d,
            None => {
                assert(!all_digits(body@));
                return None;
            },
        };
        let next: i64 = acc * 10 + d;
        if next > 0x8000_0000 {
            proof {
                if all_digits(body@) {
                    lemma_number_grows(body@, i + 1);
                }
            }
            return None;
        }
        acc = next;
        i = i + 1;
    }
    assert(body@.take(m as int) =~= body@);
    if negative {
        Some((-acc) as i32)
    } else if acc > 0x7fff_ffff {
        None
    } else {
        Some(acc as i32)
    }
}

/// The decimal digit that a character stands for, if any.
fn digit_number(c: char) -> (r: Option<i64>)
    ensures
        match r {
            Some(d) => digit_value(c) == Some(d as int) && 0 <= d < 10,
            None => digit_value(c) == None::<int>,
        },
{
    if c == '0' {
        Some(0)
    } else if c == '1' {
        Some(1)
    } else if c == '2' {
        Some(2)
    } else if c == '3' {
        Some(3)
    } else if c == '4' {
        Some(4)
    } else if c == '5' {
        Some(5)
    } else if c == '6' {
        Some(6)
    } else if c == '7' {
        Some(7)
    } else if c == '8' {
        Some(8)
    } else if c == '9' {
        Some(9)
    } else {
        None
    }
}

} // verus!
