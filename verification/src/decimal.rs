//! Thousandths as decimal text: writing a stored number with three
//! decimals, and reading one back.

use vstd::prelude::*;

use crate::text::{part_of, position_of};

verus! {

/// `String::push` appends the given character to the end of the string.
pub assume_specification[ String::push ](s: &mut String, c: char)
    ensures
        final(s)@ == old(s)@.push(c),
;

/// The character of a decimal digit.
pub open spec fn digit_char(d: int) -> char {
    if d == 0 {
        '0'
    } else if d == 1 {
        '1'
    } else if d == 2 {
        '2'
    } else if d == 3 {
        '3'
    } else if d == 4 {
        '4'
    } else if d == 5 {
        '5'
    } else if d == 6 {
        '6'
    } else if d == 7 {
        '7'
    } else if d == 8 {
        '8'
    } else {
        '9'
    }
}

/// The decimal digit that a character stands for, if any.
pub open spec fn digit_value(c: char) -> Option<int> {
    if c == '0' {
        Some(0)
    } else if c == '1' {
        Some(1)
    } else if c == '2' {
        Some(2)
    } else if c == '3' {
        Some(3)
    } else if c == '4' {
        Some(4)
    } else if c == '5' {
        Some(5)
    } else if c == '6' {
        Some(6)
    } else if c == '7' {
        Some(7)
    } else if c == '8' {
        Some(8)
    } else if c == '9' {
        Some(9)
    } else {
        None
    }
}

/// The decimal digits of a natural number, without leading zeros.
pub open spec fn digits(n: nat) -> Seq<char>
    decreases n,
{
    if n < 10 {
        seq![digit_char(n as int)]
    } else {
        digits(n / 10).push(digit_char((n % 10) as int))
    }
}

/// A number of thousandths written with three decimals: a minus sign if
/// it is negative, the digits of the whole part, a point, and the three
/// digits of the thousandths.
pub open spec fn decimal3(v: int) -> Seq<char> {
    let m = if v < 0 {
        -v
    } else {
        v
    };
    let sign = if v < 0 {
        seq!['-']
    } else {
        Seq::<char>::empty()
    };
    sign + digits((m / 1000) as nat) + seq![
        '.',
        digit_char((m / 100) % 10),
        digit_char((m / 10) % 10),
        digit_char(m % 10),
    ]
}

/// Two numbers of thousandths written with three decimals, with a comma
/// and a space between them.
pub open spec fn decimal3_pair(a: int, b: int) -> Seq<char> {
    decimal3(a) + seq![',', ' '] + decimal3(b)
}

/// The character of a decimal digit.
fn digit_to_char(d: u128) -> (c: char)
    requires
        d < 10,
    ensures
        c == digit_char(d as int),
{
    if d == 0 {
        '0'
    } else if d == 1 {
        '1'
    } else if d == 2 {
        '2'
    } else if d == 3 {
        '3'
    } else if d == 4 {
        '4'
    } else if d == 5 {
        '5'
    } else if d == 6 {
        '6'
    } else if d == 7 {
        '7'
    } else if d == 8 {
        '8'
    } else {
        '9'
    }
}

/// Appends the decimal digits of a number to a text.
pub fn push_digits(out: &mut String, n: u128)
    ensures
        final(out)@ == old(out)@ + digits(n as nat),
    decreases n,
{
    if n >= 10 {
        push_digits(out, n / 10);
    }
    out.push(digit_to_char(n % 10));
    assert(out@ =~= old(out)@ + digits(n as nat));
}

/// The size of a number.
fn size_of(v: i128) -> (m: u128)
    ensures
        m == if v < 0 {
            -v
        } else {
            v as int
        },
{
    if v == i128::MIN {
        0x8000_0000_0000_0000_0000_0000_0000_0000
    } else if v < 0 {
        (-v) as u128
    } else {
        v as u128
    }
}

/// Appends a number of thousandths, written with three decimals, to a
/// text.
pub fn push_thousandths(out: &mut String, v: i64)
    ensures
        final(out)@ == old(out)@ + decimal3(v as int),
{
    let m: u128 = size_of(v as i128);
    if v < 0 {
        out.push('-');
    }
    push_digits(out, m / 1000);
    out.push('.');
    out.push(digit_to_char((m / 100) % 10));
    out.push(digit_to_char((m / 10) % 10));
    out.push(digit_to_char(m % 10));
    assert(out@ =~= old(out)@ + decimal3(v as int));
}

/// A number of hundredths written with two decimals.
pub open spec fn decimal2(u: int) -> Seq<char> {
    let m = if u < 0 {
        -u
    } else {
        u
    };
    let sign = if u < 0 {
        seq!['-']
    } else {
        Seq::<char>::empty()
    };
    sign + digits((m / 100) as nat) + seq!['.', digit_char((m / 10) % 10), digit_char(m % 10)]
}

/// A number of tenths written with one decimal.
pub open spec fn decimal1(u: int) -> Seq<char> {
    let m = if u < 0 {
        -u
    } else {
        u
    };
    let sign = if u < 0 {
        seq!['-']
    } else {
        Seq::<char>::empty()
    };
    sign + digits((m / 10) as nat) + seq!['.', digit_char(m % 10)]
}

/// A number in units of a given size, to the nearest unit; a number half
/// way between two units goes to the even one.
pub open spec fn rounded(v: int, unit: int) -> int {
    let q = v / unit;
    let r = v % unit;
    if 2 * r > unit || (2 * r == unit && q % 2 != 0) {
        q + 1
    } else {
        q
    }
}

/// A number of thousandths written with two decimals, rounded.
pub open spec fn thousandths_to_2(v: int) -> Seq<char> {
    decimal2(rounded(v, 10))
}

/// A number of thousandths written with one decimal, rounded.
pub open spec fn thousandths_to_1(v: int) -> Seq<char> {
    decimal1(rounded(v, 100))
}

/// A number in units of a given size, to the nearest unit.
fn round_to(v: i128, unit: i128) -> (r: i128)
    requires
        unit == 10 || unit == 100,
    ensures
        r == rounded(v as int, unit as int),
{
    let t: i128 = v / unit;
    proof {
        if v >= 0 {
            vstd::arithmetic::div_mod::lemma_fundamental_div_mod(v as int, unit as int);
            vstd::arithmetic::div_mod::lemma_mod_bound(v as int, unit as int);
        } else {
            vstd::arithmetic::div_mod::lemma_fundamental_div_mod(-(v as int), unit as int);
            vstd::arithmetic::div_mod::lemma_mod_bound(-(v as int), unit as int);
        }
    }
    let ghost back: int = if v >= 0 {
        (v as int) % (unit as int)
    } else {
        -((-(v as int)) % (unit as int))
    };
    assert(t * unit == v - back) by (nonlinear_arith)
        requires
            v >= 0 ==> v as int == unit * (v as int / unit as int) + back && t == v as int
                / unit as int,
            v < 0 ==> -(v as int) == unit * ((-(v as int)) / (unit as int)) - back && t == -((-(
            v as int)) / (unit as int)),
    ;
    let rem: i128 = v - t * unit;
    let q: i128 = if rem < 0 {
        t - 1
    } else {
        t
    };
    let r: i128 = if rem < 0 {
        rem + unit
    } else {
        rem
    };
    proof {
        assert(v as int == q * unit + r) by (nonlinear_arith)
            requires
                t * unit == v - rem,
                rem < 0 ==> q == t - 1 && r == rem + unit,
                rem >= 0 ==> q == t && r == rem,
        ;
        vstd::arithmetic::div_mod::lemma_fundamental_div_mod_converse(
            v as int,
            unit as int,
            q as int,
            r as int,
        );
    }
    let half: i128 = q / 2;
    let odd: bool = q - half * 2 != 0;
    proof {
        vstd::arithmetic::div_mod::lemma_fundamental_div_mod(q as int, 2);
        vstd::arithmetic::div_mod::lemma_mod_bound(q as int, 2);
        if q < 0 {
            vstd::arithmetic::div_mod::lemma_fundamental_div_mod(-(q as int), 2);
            vstd::arithmetic::div_mod::lemma_mod_bound(-(q as int), 2);
        }
    }
    assert(odd == (q as int % 2 != 0));
    if 2 * r > unit || (2 * r == unit && odd) {
        q + 1
    } else {
        q
    }
}

/// Appends a number of thousandths, written with two decimals, to a text.
pub fn push_rounded_2(out: &mut String, v: i128)
    ensures
        final(out)@ == old(out)@ + thousandths_to_2(v as int),
{
    let u: i128 = round_to(v, 10);
    let m: u128 = size_of(u);
    if u < 0 {
        out.push('-');
    }
    push_digits(out, m / 100);
    out.push('.');
    out.push(digit_to_char((m / 10) % 10));
    out.push(digit_to_char(m % 10));
    assert(out@ =~= old(out)@ + thousandths_to_2(v as int));
}

/// Appends a number of thousandths, written with one decimal, to a text.
pub fn push_rounded_1(out: &mut String, v: i128)
    ensures
        final(out)@ == old(out)@ + thousandths_to_1(v as int),
{
    let u: i128 = round_to(v, 100);
    let m: u128 = size_of(u);
    if u < 0 {
        out.push('-');
    }
    push_digits(out, m / 10);
    out.push('.');
    out.push(digit_to_char(m % 10));
    assert(out@ =~= old(out)@ + thousandths_to_1(v as int));
}

/// A number of thousandths written with three decimals.
pub fn format_thousandths(v: i64) -> (r: String)
    ensures
        r@ == decimal3(v as int),
{
    let mut out: String = String::new();
    push_thousandths(&mut out, v);
    assert(out@ =~= decimal3(v as int));
    out
}

/// Two numbers of thousandths written with three decimals, with a comma
/// and a space between them.
pub fn format_pair(a: i64, b: i64) -> (r: String)
    ensures
        r@ == decimal3_pair(a as int, b as int),
{
    let mut out: String = String::new();
    push_thousandths(&mut out, a);
    out.push(',');
    out.push(' ');
    push_thousandths(&mut out, b);
    assert(out@ =~= decimal3_pair(a as int, b as int));
    out
}

/// Whether a character is blank.
pub open spec fn is_blank(c: char) -> bool {
    c == ' ' || c == '\t' || c == '\n' || c == '\r'
}

/// The first position from a given one on that holds no blank.
pub open spec fn skip_blank(s: Seq<char>, i: int) -> int
    decreases s.len() - i,
{
    if 0 <= i < s.len() && is_blank(s[i]) {
        skip_blank(s, i + 1)
    } else {
        i
    }
}

/// The end of a text from a given position on, once the blanks before a
/// given end are left out.
pub open spec fn back_blank(s: Seq<char>, lo: int, j: int) -> int
    decreases j - lo,
{
    if lo < j <= s.len() && is_blank(s[j - 1]) {
        back_blank(s, lo, j - 1)
    } else {
        j
    }
}

/// A text without the blanks at its start and at its end.
pub open spec fn trimmed(s: Seq<char>) -> Seq<char> {
    let a = skip_blank(s, 0);
    let b = back_blank(s, a, s.len() as int);
    s.subrange(a, b)
}

/// The first position from a given one on that holds a given character,
/// or the length of the text where none does.
pub open spec fn find_char(s: Seq<char>, c: char, i: int) -> int
    decreases s.len() - i,
{
    if 0 <= i < s.len() && s[i] != c {
        find_char(s, c, i + 1)
    } else {
        i
    }
}

/// Whether a text is made of decimal digits only.
pub open spec fn all_digits(s: Seq<char>) -> bool {
    forall|i: int| 0 <= i < s.len() ==> digit_value(#[trigger] s[i]) is Some
}

/// The number that a text of decimal digits writes; zero for no digits.
pub open spec fn number_of(s: Seq<char>) -> int
    decreases s.len(),
{
    if s.len() == 0 {
        0
    } else {
        number_of(s.drop_last()) * 10 + match digit_value(s.last()) {
            Some(d) => d,
            None => 0,
        }
    }
}

/// The digit at a position of a text, zero beyond its end.
pub open spec fn digit_at(s: Seq<char>, k: int) -> int {
    if 0 <= k < s.len() {
        match digit_value(s[k]) {
            Some(d) => d,
            None => 0,
        }
    } else {
        0
    }
}

/// The thousandths that the digits after a point write: the first three
/// count, further ones are dropped.
pub open spec fn thousandths(frac: Seq<char>) -> int {
    digit_at(frac, 0) * 100 + digit_at(frac, 1) * 10 + digit_at(frac, 2)
}

/// The thousandths that a text without sign writes: digits, with or
/// without a point among them, at least one digit in all. None for any
/// other text.
pub open spec fn unsigned_decimal(s: Seq<char>) -> Option<int> {
    let p = find_char(s, '.', 0);
    let whole = s.subrange(0, p);
    let frac = if p < s.len() {
        s.subrange(p + 1, s.len() as int)
    } else {
        Seq::<char>::empty()
    };
    if 0 <= p <= s.len() && all_digits(whole) && all_digits(frac) && whole.len() + frac.len() > 0 {
        Some(number_of(whole) * 1000 + thousandths(frac))
    } else {
        None
    }
}

/// The thousandths that a text writes: an unsigned decimal, or one after a
/// minus or a plus sign.
pub open spec fn signed_decimal(s: Seq<char>) -> Option<int> {
    if s.len() > 0 && s[0] == '-' {
        match unsigned_decimal(s.subrange(1, s.len() as int)) {
            Some(v) => Some(-v),
            None => None,
        }
    } else if s.len() > 0 && s[0] == '+' {
        unsigned_decimal(s.subrange(1, s.len() as int))
    } else {
        unsigned_decimal(s)
    }
}

/// The thousandths that a text writes, where they can be stored: blanks
/// around the number do not count.
pub open spec fn parsed_thousandths(s: Seq<char>) -> Option<int> {
    match signed_decimal(trimmed(s)) {
        Some(v) => if -i64::MAX <= v <= i64::MAX {
            Some(v)
        } else {
            None
        },
        None => None,
    }
}

/// The two numbers of thousandths that a text writes with one comma
/// between them. None where the text has no comma or more than one, or
/// where either side writes no number that can be stored.
pub open spec fn parsed_pair(s: Seq<char>) -> Option<(int, int)> {
    let p = find_char(s, ',', 0);
    if 0 <= p < s.len() {
        let left = s.subrange(0, p);
        let right = s.subrange(p + 1, s.len() as int);
        if find_char(right, ',', 0) < right.len() {
            None
        } else {
            match (parsed_thousandths(left), parsed_thousandths(right)) {
                (Some(a), Some(b)) => Some((a, b)),
                _ => None,
            }
        }
    } else {
        None
    }
}

/// `find_char` stays within the text.
pub proof fn lemma_find_char(s: Seq<char>, c: char, i: int)
    requires
        0 <= i <= s.len(),
    ensures
        i <= find_char(s, c, i) <= s.len(),
        find_char(s, c, i) < s.len() ==> s[find_char(s, c, i)] == c,
        forall|j: int| i <= j < find_char(s, c, i) ==> s[j] != c,
    decreases s.len() - i,
{
    if i < s.len() && s[i] != c {
        lemma_find_char(s, c, i + 1);
    }
}

/// The number that digits write does not shrink when digits follow.
pub proof fn lemma_number_grows(s: Seq<char>, k: int)
    requires
        0 <= k <= s.len(),
    ensures
        0 <= number_of(s.take(k)) <= number_of(s),
    decreases s.len() - k,
{
    if k < s.len() {
        lemma_number_grows(s, k + 1);
        assert(s.take(k + 1).drop_last() =~= s.take(k));
        lemma_number_nonnegative(s.take(k));
    } else {
        assert(s.take(k) =~= s);
        lemma_number_nonnegative(s);
    }
}

/// The number that digits write is not negative.
pub proof fn lemma_number_nonnegative(s: Seq<char>)
    ensures
        0 <= number_of(s),
    decreases s.len(),
{
    if s.len() > 0 {
        lemma_number_nonnegative(s.drop_last());
    }
}

/// The characters of a text.
pub fn chars_of(s: &str) -> (v: Vec<char>)
    ensures
        v@ == s@,
{
    let mut v: Vec<char> = Vec::new();
    for c in it: s.chars()
        invariant
            v@ == it.seq().take(it.index() as int),
            it.seq() == s@,
    {
        v.push(c);
    }
    v
}

/// A text without the blanks at its start and at its end.
pub fn trim(v: &Vec<char>) -> (r: Vec<char>)
    ensures
        r@ == trimmed(v@),
{
    let n: usize = v.len();
    let mut a: usize = 0;
    while a < n && (v[a] == ' ' || v[a] == '\t' || v[a] == '\n' || v[a] == '\r')
        invariant
            a <= n,
            n == v.len(),
            skip_blank(v@, 0) == skip_blank(v@, a as int),
        decreases n - a,
    {
        a = a + 1;
    }
    let mut b: usize = n;
    while a < b && (v[b - 1] == ' ' || v[b - 1] == '\t' || v[b - 1] == '\n' || v[b - 1] == '\r')
        invariant
            a <= b <= n,
            n == v.len(),
            back_blank(v@, a as int, n as int) == back_blank(v@, a as int, b as int),
        decreases b - a,
    {
        b = b - 1;
    }
    part_of(v, a, b)
}

/// The decimal digit that a character stands for, if any.
fn digit_of(c: char) -> (r: Option<u64>)
    ensures
        match r {
            Some(d) => digit_value(c) == Some(d as int) && d < 10,
            None => digit_value(c) == None::<int>,
        },
{
    if c == '0' {
        Some(0)
    } else if c == '1' {
        Some(1)
    } else if c == '2' {
        Some(2)
    } else if c == '3' {
        Some(3)
    } else if c == '4' {
        Some(4)
    } else if c == '5' {
        Some(5)
    } else if c == '6' {
        Some(6)
    } else if c == '7' {
        Some(7)
    } else if c == '8' {
        Some(8)
    } else if c == '9' {
        Some(9)
    } else {
        None
    }
}

/// Whether a text is made of decimal digits only.
fn only_digits(v: &Vec<char>) -> (r: bool)
    ensures
        r == all_digits(v@),
{
    let n: usize = v.len();
    let mut i: usize = 0;
    while i < n
        invariant
            i <= n,
            n == v.len(),
            forall|j: int| 0 <= j < i ==> digit_value(#[trigger] v@[j]) is Some,
        decreases n - i,
    {
        if digit_of(v[i]).is_none() {
            return false;
        }
        i = i + 1;
    }
    true
}

/// The digit at a position of a text of digits, zero beyond its end.
fn digit_or_zero(v: &Vec<char>, k: usize) -> (r: u64)
    ensures
        r == digit_at(v@, k as int),
        r < 10,
{
    if k < v.len() {
        match digit_of(v[k]) {
            Some(d) => d,
            None => 0,
        }
    } else {
        0
    }
}

/// The greatest whole part whose thousandths can be stored.
pub const WHOLE_MAX: u64 = 9_223_372_036_854_775;

/// The number that a text of digits writes, where it is at most
/// `WHOLE_MAX`.
fn small_number(v: &Vec<char>) -> (r: Option<u64>)
    requires
        all_digits(v@),
    ensures
        match r {
            Some(x) => x == number_of(v@) && x <= WHOLE_MAX,
            None => number_of(v@) > WHOLE_MAX,
        },
{
    let n: usize = v.len();
    let mut acc: u64 = 0;
    let mut i: usize = 0;
    assert(v@.take(0) =~= Seq::<char>::empty());
    while i < n
        invariant
            i <= n,
            n == v.len(),
            all_digits(v@),
            acc == number_of(v@.take(i as int)),
            acc <= WHOLE_MAX,
        decreases n - i,
    {
        proof {
            assert(v@.take(i + 1).drop_last() =~= v@.take(i as int));
            assert(v@.take(i + 1).last() == v@[i as int]);
        }
        let d: u64 = match digit_of(v[i]) {
            Some(d) => d,
            None => 0,
        };
        let next: u64 = acc * 10 + d;
        if next > WHOLE_MAX {
            proof {
                lemma_number_grows(v@, i + 1);
            }
            return None;
        }
        acc = next;
        i = i + 1;
    }
    assert(v@.take(n as int) =~= v@);
    Some(acc)
}

/// The thousandths that a text without sign writes, where they are at most
/// the greatest quantity that can be stored.
fn parse_unsigned(v: &Vec<char>) -> (r: Option<i64>)
    ensures
        match r {
            Some(x) => unsigned_decimal(v@) == Some(x as int) && 0 <= x,
            None => match unsigned_decimal(v@) {
                Some(y) => y > i64::MAX,
                None => true,
            },
        },
{
    let n: usize = v.len();
    let p: usize = position_of(v, '.', 0);
    let whole: Vec<char> = part_of(v, 0, p);
    let frac: Vec<char> = if p < n {
        part_of(v, p + 1, n)
    } else {
        let empty: Vec<char> = Vec::new();
        assert(empty@ =~= Seq::<char>::empty());
        empty
    };
    if !only_digits(&whole) || !only_digits(&frac) || whole.len() + frac.len() == 0 {
        return None;
    }
    match small_number(&whole) {
        Some(w) => {
            let f: u64 = digit_or_zero(&frac, 0) * 100 + digit_or_zero(&frac, 1) * 10
                + digit_or_zero(&frac, 2);
            let total: u64 = w * 1000 + f;
            if total > 9_223_372_036_854_775_807 {
                None
            } else {
                Some(total as i64)
            }
        },
        None => None,
    }
}

/// The thousandths that a text writes, where they can be stored.
pub fn parse_thousandths(s: &str) -> (r: Option<i64>)
    ensures
        match r {
            Some(x) => parsed_thousandths(s@) == Some(x as int),
            None => parsed_thousandths(s@) == None::<int>,
        },
{
    let chars: Vec<char> = chars_of(s);
    parse_chars(&chars)
}

/// The thousandths that a list of characters writes, where they can be
/// stored.
pub fn parse_chars(chars: &Vec<char>) -> (r: Option<i64>)
    ensures
        match r {
            Some(x) => parsed_thousandths(chars@) == Some(x as int),
            None => parsed_thousandths(chars@) == None::<int>,
        },
{
    let v: Vec<char> = trim(chars);
    let n: usize = v.len();
    if n > 0 && v[0] == '-' {
        let rest: Vec<char> = part_of(&v, 1, n);
        match parse_unsigned(&rest) {
            Some(x) => Some(-x),
            None => None,
        }
    } else if n > 0 && v[0] == '+' {
        let rest: Vec<char> = part_of(&v, 1, n);
        parse_unsigned(&rest)
    } else {
        parse_unsigned(&v)
    }
}

/// The two numbers of thousandths that a text writes with one comma
/// between them, where both can be stored.
pub fn parse_pair(s: &str) -> (r: Option<(i64, i64)>)
    ensures
        match r {
            Some((a, b)) => parsed_pair(s@) == Some((a as int, b as int)),
            None => parsed_pair(s@) == None::<(int, int)>,
        },
{
    let chars: Vec<char> = chars_of(s);
    let n: usize = chars.len();
    let p: usize = position_of(&chars, ',', 0);
    if p >= n {
        return None;
    }
    let left: Vec<char> = part_of(&chars, 0, p);
    let right: Vec<char> = part_of(&chars, p + 1, n);
    if position_of(&right, ',', 0) < right.len() {
        return None;
    }
    match (parse_chars(&left), parse_chars(&right)) {
        (Some(a), Some(b)) => Some((a, b)),
        _ => None,
    }
}

} // verus!
