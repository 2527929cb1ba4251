//! Amounts as decimal text and as fixed-point integers.
//!
//! An amount is stored as a `u64` that counts ten-thousandths: the text
//! `1.5` stands for 15000. Reading keeps four fraction digits and cuts the
//! rest off; writing leaves out the zeros at the end of the fraction, and
//! what is written reads back as the same amount.

use vstd::prelude::*;
use vstd::string::StringExecFns;

verus! {

/// Stored units in one unit of currency.
pub const SCALE: u64 = 10_000;

/// Whether `c` is one of `0` to `9`.
pub open spec fn is_digit(c: char) -> bool {
    '0' <= c && c <= '9'
}

/// The number that the digit `c` stands for.
pub open spec fn digit_value(c: char) -> nat {
    (c as u32 - '0' as u32) as nat
}

/// Whether `s` holds digits only.
pub open spec fn all_digits(s: Seq<char>) -> bool {
    forall|i: int| 0 <= i < s.len() ==> is_digit(#[trigger] s[i])
}

/// The number that the digits `s` denote in base ten; zero for no digits.
pub open spec fn decimal_value(s: Seq<char>) -> nat
    decreases s.len(),
{
    if s.len() == 0 {
        0
    } else {
        decimal_value(s.drop_last()) * 10 + digit_value(s.last())
    }
}

/// The `u64` that the digits `s` denote: none where `s` is empty, holds
/// anything but digits, or denotes more than `u64::MAX`.
pub open spec fn digits_u64(s: Seq<char>) -> Option<u64> {
    if s.len() > 0 && all_digits(s) && decimal_value(s) <= u64::MAX {
        Some(decimal_value(s) as u64)
    } else {
        None
    }
}

/// The `u64` that `s` denotes: an optional `+`, then one digit or more,
/// which together do not exceed `u64::MAX`. Any other text denotes none.
pub open spec fn decimal_u64(s: Seq<char>) -> Option<u64> {
    if s.len() > 0 && s[0] == '+' {
        digits_u64(s.skip(1))
    } else {
        digits_u64(s)
    }
}

/// The place of the first `.` of `s` at or after `from`, or the length of
/// `s` where none follows.
pub open spec fn next_dot(s: Seq<char>, from: int) -> int
    decreases s.len() - from,
{
    if from >= s.len() {
        s.len() as int
    } else if s[from] == '.' {
        from
    } else {
        next_dot(s, from + 1)
    }
}

/// What `s` holds before its first `.`: all of `s` where it has none.
pub open spec fn whole_part(s: Seq<char>) -> Seq<char> {
    s.subrange(0, next_dot(s, 0))
}

/// What `s` holds between its first `.` and its second, or its end; nothing
/// where `s` has no `.`.
pub open spec fn fraction_part(s: Seq<char>) -> Seq<char> {
    let dot = next_dot(s, 0);
    if dot >= s.len() {
        Seq::empty()
    } else {
        s.subrange(dot + 1, next_dot(s, dot + 1))
    }
}

/// The first four characters of `fraction`, with `0` in each place that
/// `fraction` is too short to fill.
pub open spec fn four_places(fraction: Seq<char>) -> Seq<char> {
    Seq::new(
        4,
        |i: int|
            if i < fraction.len() {
                fraction[i]
            } else {
                '0'
            },
    )
}

/// The text of `s` in stored units: the whole part followed by exactly four
/// fraction places.
pub open spec fn scaled_text(s: Seq<char>) -> Seq<char> {
    whole_part(s) + four_places(fraction_part(s))
}

/// The amount that the decimal text `s` stands for, in stored units.
///
/// Fraction digits after the fourth are cut off, not rounded, and what
/// follows a second `.` is not read. A part that is left out reads as
/// zero, so that `.5`, `1.` and the empty text are amounts. A `-`, any
/// other character that is no digit, and an amount above `u64::MAX` stored
/// units give none.
pub open spec fn amount_of(s: Seq<char>) -> Option<u64> {
    decimal_u64(scaled_text(s))
}

/// The digit that stands for `d`, which is less than ten.
pub open spec fn digit_char(d: nat) -> char {
    if d == 0 {
        '0'
    } else if d == 1 {
        '1'
    } else if d == 2 {
        '2'
    } else if d == 3 {
        '3'
    } else if d == 4 {
        '4'
    } else if d == 5 {
        '5'
    } else if d == 6 {
        '6'
    } else if d == 7 {
        '7'
    } else if d == 8 {
        '8'
    } else {
        '9'
    }
}

/// The digits of `n` in base ten, without leading zeros; `0` for zero.
pub open spec fn decimal_text(n: nat) -> Seq<char>
    decreases n,
{
    if n < 10 {
        seq![digit_char(n)]
    } else {
        decimal_text(n / 10).push(digit_char(n % 10))
    }
}

/// The four digits of `f`, which is less than ten thousand.
pub open spec fn four_digits(f: nat) -> Seq<char> {
    seq![
        digit_char(f / 1000),
        digit_char(f / 100 % 10),
        digit_char(f / 10 % 10),
        digit_char(f % 10),
    ]
}

/// The fraction digits of `f` ten-thousandths, without the zeros at the
/// end. It is meant for `f` from 1 to 9999.
pub open spec fn fraction_text(f: nat) -> Seq<char> {
    let places = four_digits(f);
    if f % 1000 == 0 {
        places.take(1)
    } else if f % 100 == 0 {
        places.take(2)
    } else if f % 10 == 0 {
        places.take(3)
    } else {
        places
    }
}

/// The decimal text of `a` stored units: the whole units, and where a
/// fraction is left, a `.` and its digits without zeros at the end.
pub open spec fn amount_text(a: u64) -> Seq<char> {
    let whole = decimal_text((a / SCALE) as nat);
    let f = (a % SCALE) as nat;
    if f == 0 {
        whole
    } else {
        whole + seq!['.'] + fraction_text(f)
    }
}

/// A prefix of a digit string denotes no more than the whole string.
proof fn lemma_prefix_value(s: Seq<char>, k: int)
    requires
        0 <= k <= s.len(),
    ensures
        decimal_value(s.take(k)) <= decimal_value(s),
    decreases s.len() - k,
{
    if k == s.len() {
        assert(s.take(k) =~= s);
    } else {
        lemma_prefix_value(s.drop_last(), k);
        assert(s.drop_last().take(k) =~= s.take(k));
    }
}

/// The digits of a number are digits, and denote that number.
pub proof fn lemma_decimal_text(n: nat)
    ensures
        decimal_text(n).len() > 0,
        all_digits(decimal_text(n)),
        decimal_value(decimal_text(n)) == n,
    decreases n,
{
    if n < 10 {
        assert(decimal_text(n).drop_last() =~= Seq::<char>::empty());
        assert(decimal_value(decimal_text(n).drop_last()) == 0);
    } else {
        lemma_decimal_text(n / 10);
        assert(decimal_text(n).drop_last() =~= decimal_text(n / 10));
    }
}

/// Four characters after a digit string move its value up by four places.
pub proof fn lemma_four_digits(whole: Seq<char>, places: Seq<char>)
    requires
        places.len() == 4,
    ensures
        decimal_value(whole + places) == decimal_value(whole) * 10000 + digit_value(places[0])
            * 1000 + digit_value(places[1]) * 100 + digit_value(places[2]) * 10 + digit_value(
            places[3],
        ),
{
    let s4 = whole + places;
    let s3 = whole + places.take(3);
    let s2 = whole + places.take(2);
    let s1 = whole + places.take(1);
    assert(s4.drop_last() =~= s3);
    assert(s3.drop_last() =~= s2);
    assert(s2.drop_last() =~= s1);
    assert(s1.drop_last() =~= whole);
    assert(decimal_value(s4) == decimal_value(s3) * 10 + digit_value(places[3]));
    assert(decimal_value(s3) == decimal_value(s2) * 10 + digit_value(places[2]));
    assert(decimal_value(s2) == decimal_value(s1) * 10 + digit_value(places[1]));
    assert(decimal_value(s1) == decimal_value(whole) * 10 + digit_value(places[0]));
}

/// The character for a digit is a digit and stands for it.
pub proof fn lemma_digit_char(d: nat)
    requires
        d < 10,
    ensures
        is_digit(digit_char(d)),
        digit_value(digit_char(d)) == d,
{
}

/// The four digits of a number under ten thousand are digits and denote it,
/// and the fraction text is those digits without the zeros at the end.
proof fn lemma_fraction_text(f: nat)
    requires
        f < 10000,
    ensures
        all_digits(four_digits(f)),
        digit_value(four_digits(f)[0]) * 1000 + digit_value(four_digits(f)[1]) * 100
            + digit_value(four_digits(f)[2]) * 10 + digit_value(four_digits(f)[3]) == f,
        all_digits(fraction_text(f)),
        four_places(fraction_text(f)) == four_digits(f),
        four_places(Seq::<char>::empty()) == four_digits(0),
{
    let d3 = f / 1000;
    let d2 = f / 100 % 10;
    let d1 = f / 10 % 10;
    let d0 = f % 10;
    assert(d3 < 10 && d2 < 10 && d1 < 10 && d0 < 10);
    assert(d3 * 1000 + d2 * 100 + d1 * 10 + d0 == f);
    lemma_digit_char(d3);
    lemma_digit_char(d2);
    lemma_digit_char(d1);
    lemma_digit_char(d0);
    let digits = four_digits(f);
    assert(digits[0] == digit_char(d3));
    assert(digits[1] == digit_char(d2));
    assert(digits[2] == digit_char(d1));
    assert(digits[3] == digit_char(d0));
    assert(f % 1000 == 0 ==> d2 == 0 && d1 == 0 && d0 == 0);
    assert(f % 100 == 0 ==> d1 == 0 && d0 == 0);
    assert(four_places(fraction_text(f)) =~= digits);
    assert(four_places(Seq::<char>::empty()) =~= four_digits(0));
}

/// Where no `.` stands from `from` up to `to`, and `to` is the end of `s`
/// or the place of a `.`, the first `.` at or after `from` is at `to`.
proof fn lemma_next_dot(s: Seq<char>, from: int, to: int)
    requires
        0 <= from <= to <= s.len(),
        forall|i: int| from <= i < to ==> s[i] != '.',
        to < s.len() ==> s[to] == '.',
    ensures
        next_dot(s, from) == to,
    decreases to - from,
{
    if from < to {
        lemma_next_dot(s, from + 1, to);
    }
}

/// The text `whole`, `.`, `fraction`, where neither part holds a `.`,
/// stands for what the digits of `whole` followed by the first four places
/// of `fraction` denote. What `fraction` holds after its fourth place
/// changes nothing: the amount is cut off there, not rounded.
pub proof fn lemma_amount_of_parts(whole: Seq<char>, fraction: Seq<char>)
    requires
        forall|i: int| 0 <= i < whole.len() ==> whole[i] != '.',
        forall|i: int| 0 <= i < fraction.len() ==> fraction[i] != '.',
    ensures
        amount_of(whole) == decimal_u64(whole + four_places(Seq::empty())),
        amount_of(whole + seq!['.'] + fraction) == decimal_u64(whole + four_places(fraction)),
        decimal_value(whole + four_places(fraction)) == decimal_value(whole) * 10000
            + decimal_value(four_places(fraction)),
{
    lemma_next_dot(whole, 0, whole.len() as int);
    assert(whole_part(whole) =~= whole);
    assert(fraction_part(whole) =~= Seq::<char>::empty());
    let s = whole + seq!['.'] + fraction;
    let dot = whole.len() as int;
    lemma_next_dot(s, 0, dot);
    lemma_next_dot(s, dot + 1, s.len() as int);
    assert(whole_part(s) =~= whole);
    assert(fraction_part(s) =~= fraction);
    lemma_four_digits(whole, four_places(fraction));
    lemma_four_digits(Seq::empty(), four_places(fraction));
    assert(Seq::<char>::empty() + four_places(fraction) =~= four_places(fraction));
}

/// The first `.` at or after `from` stands between `from` and the end.
proof fn lemma_next_dot_bounds(s: Seq<char>, from: int)
    requires
        0 <= from <= s.len(),
    ensures
        from <= next_dot(s, from) <= s.len(),
    decreases s.len() - from,
{
    if from < s.len() && s[from] != '.' {
        lemma_next_dot_bounds(s, from + 1);
    }
}

/// A text that begins with `-` is no amount.
pub proof fn lemma_negative_is_no_amount(s: Seq<char>)
    requires
        s.len() > 0,
        s[0] == '-',
    ensures
        amount_of(s) is None,
{
    let scaled = scaled_text(s);
    lemma_next_dot_bounds(s, 1);
    assert(next_dot(s, 0) == next_dot(s, 1));
    assert(whole_part(s)[0] == '-');
    assert(scaled[0] == '-');
    assert(!is_digit(scaled[0]));
}

/// Digits followed by digits are digits.
proof fn lemma_all_digits_concat(a: Seq<char>, b: Seq<char>)
    requires
        all_digits(a),
        all_digits(b),
    ensures
        all_digits(a + b),
{
    assert forall|i: int| 0 <= i < (a + b).len() implies is_digit(#[trigger] (a + b)[i]) by {
        if i < a.len() {
            assert((a + b)[i] == a[i]);
        } else {
            assert((a + b)[i] == b[i - a.len()]);
        }
    }
}

/// The digits of `units`, followed by the four digits of `f`, denote
/// `units` ten thousand times and `f`.
proof fn lemma_scaled_value(units: nat, f: nat)
    requires
        f < 10000,
    ensures
        digits_u64(decimal_text(units) + four_digits(f)) == if units * 10000 + f <= u64::MAX {
            Some((units * 10000 + f) as u64)
        } else {
            None
        },
        (decimal_text(units) + four_digits(f))[0] != '+',
{
    let whole = decimal_text(units);
    let places = four_digits(f);
    lemma_decimal_text(units);
    lemma_fraction_text(f);
    lemma_four_digits(whole, places);
    lemma_all_digits_concat(whole, places);
    assert((whole + places)[0] == whole[0]);
    assert(is_digit(whole[0]));
}

/// The text written for an amount reads back as that amount.
pub proof fn lemma_text_reads_back(a: u64)
    ensures
        amount_of(amount_text(a)) == Some(a),
{
    let units = (a / SCALE) as nat;
    let f = (a % SCALE) as nat;
    let whole = decimal_text(units);
    let fraction = fraction_text(f);
    assert(units * 10000 + f == a);
    lemma_scaled_value(units, f);
    lemma_decimal_text(units);
    lemma_fraction_text(f);
    assert forall|i: int| 0 <= i < whole.len() implies whole[i] != '.' by {
        assert(is_digit(whole[i]));
    }
    assert forall|i: int| 0 <= i < fraction.len() implies fraction[i] != '.' by {
        assert(is_digit(fraction[i]));
    }
    lemma_amount_of_parts(whole, fraction);
}

/// The characters of `s`, in order.
fn chars_of(s: &str) -> (v: Vec<char>)
    ensures
        v@ == s@,
{
    let mut v: Vec<char> = Vec::new();
    for c in it: s.chars()
        invariant
            it.seq() == s@,
            v@ == it.seq().take(it.index()),
    {
        v.push(c);
    }
    v
}

/// The digit that `c` stands for, where it is one.
fn digit_of(c: char) -> (r: Option<u64>)
    ensures
        r == if is_digit(c) {
            Some(digit_value(c) as u64)
        } else {
            None
        },
        is_digit(c) ==> digit_value(c) <= 9,
{
    if '0' <= c && c <= '9' {
        Some((c as u32 - '0' as u32) as u64)
    } else {
        None
    }
}

/// Finds the first `.` of `text` at or after `from`.
fn find_dot(text: &Vec<char>, from: usize) -> (r: usize)
    requires
        from <= text.len(),
    ensures
        r == next_dot(text@, from as int),
        from <= r <= text.len(),
{
    let mut i: usize = from;
    while i < text.len() && text[i] != '.'
        invariant
            from <= i <= text.len(),
            next_dot(text@, from as int) == next_dot(text@, i as int),
        decreases text.len() - i,
    {
        i += 1;
    }
    i
}

/// Writes `text` in stored units.
fn scale(text: &Vec<char>) -> (r: Vec<char>)
    ensures
        r@ == scaled_text(text@),
{
    let n = text.len();
    let dot = find_dot(text, 0);
    let mut out: Vec<char> = Vec::new();
    let mut i: usize = 0;
    while i < dot
        invariant
            i <= dot <= n,
            n == text.len(),
            out@ == text@.subrange(0, i as int),
        decreases dot - i,
    {
        out.push(text[i]);
        i += 1;
    }
    let start: usize = if dot < n {
        dot + 1
    } else {
        n
    };
    let end: usize = if dot < n {
        find_dot(text, dot + 1)
    } else {
        n
    };
    let ghost fraction = fraction_part(text@);
    assert(fraction =~= text@.subrange(start as int, end as int));
    let mut k: usize = 0;
    while k < 4
        invariant
            k <= 4,
            start <= end <= n,
            n == text.len(),
            fraction == text@.subrange(start as int, end as int),
            out@ == whole_part(text@) + four_places(fraction).take(k as int),
        decreases 4 - k,
    {
        let c = if k < end - start {
            text[start + k]
        } else {
            '0'
        };
        out.push(c);
        k += 1;
    }
    assert(four_places(fraction).take(4) =~= four_places(fraction));
    out
}

/// Reads `text` as a `u64`.
fn read_decimal(text: &Vec<char>) -> (r: Option<u64>)
    ensures
        r == decimal_u64(text@),
{
    let n = text.len();
    let start: usize = if n > 0 && text[0] == '+' {
        1
    } else {
        0
    };
    let ghost digits = text@.skip(start as int);
    assert(start == 0 ==> digits =~= text@);
    assert(decimal_u64(text@) == digits_u64(digits));
    if start == n {
        return None;
    }
    let mut value: u64 = 0;
    let mut i: usize = start;
    while i < n
        invariant
            start <= i <= n,
            n == text.len(),
            digits == text@.skip(start as int),
            decimal_u64(text@) == digits_u64(digits),
            all_digits(digits.take(i - start)),
            value == decimal_value(digits.take(i - start)),
        decreases n - i,
    {
        let ghost next = digits.take(i - start + 1);
        proof {
            assert(next.drop_last() =~= digits.take(i - start));
            assert(next.last() == text@[i as int]);
            assert(decimal_value(next) == value * 10 + digit_value(text@[i as int]));
            lemma_prefix_value(digits, i - start + 1);
        }
        let d = match digit_of(text[i]) {
            Some(d) => d,
            None => {
                assert(digits[i - start] == text@[i as int]);
                assert(!all_digits(digits));
                return None;
            },
        };
        let tens = match value.checked_mul(10) {
            Some(t) => t,
            None => {
                assert(decimal_value(digits) > u64::MAX);
                return None;
            },
        };
        value = match tens.checked_add(d) {
            Some(v) => v,
            None => {
                return None;
            },
        };
        i += 1;
    }
    assert(digits.take(n - start) =~= digits);
    Some(value)
}

/// Appends the digit that stands for `d`.
fn push_digit(s: &mut String, d: u64)
    requires
        d < 10,
    ensures
        final(s)@ == old(s)@.push(digit_char(d as nat)),
{
    let digit = if d == 0 {
        "0"
    } else if d == 1 {
        "1"
    } else if d == 2 {
        "2"
    } else if d == 3 {
        "3"
    } else if d == 4 {
        "4"
    } else if d == 5 {
        "5"
    } else if d == 6 {
        "6"
    } else if d == 7 {
        "7"
    } else if d == 8 {
        "8"
    } else {
        "9"
    };
    proof {
        reveal_strlit("0");
        reveal_strlit("1");
        reveal_strlit("2");
        reveal_strlit("3");
        reveal_strlit("4");
        reveal_strlit("5");
        reveal_strlit("6");
        reveal_strlit("7");
        reveal_strlit("8");
        reveal_strlit("9");
    }
    assert(digit@ =~= seq![digit_char(d as nat)]);
    s.append(digit);
    assert(final(s)@ =~= old(s)@.push(digit_char(d as nat)));
}

/// Appends the digits of `n`.
fn push_decimal(s: &mut String, n: u64)
    ensures
        final(s)@ == old(s)@ + decimal_text(n as nat),
    decreases n,
{
    if n >= 10 {
        push_decimal(s, n / 10);
    }
    push_digit(s, n % 10);
    assert(final(s)@ =~= old(s)@ + decimal_text(n as nat));
}

/// Writes `a` stored units as decimal text.
pub fn ser_amount(a: u64) -> (r: String)
    ensures
        r@ == amount_text(a),
{
    let mut s = String::new();
    push_decimal(&mut s, a / SCALE);
    let f = a % SCALE;
    if f > 0 {
        proof {
            reveal_strlit(".");
        }
        s.append(".");
        push_digit(&mut s, f / 1000);
        if f % 1000 != 0 {
            push_digit(&mut s, f / 100 % 10);
            if f % 100 != 0 {
                push_digit(&mut s, f / 10 % 10);
                if f % 10 != 0 {
                    push_digit(&mut s, f % 10);
                }
            }
        }
    }
    assert(s@ =~= amount_text(a));
    s
}

/// Reads the decimal text `s` as an amount in stored units.
pub fn deser_amount(s: &str) -> (r: Option<u64>)
    ensures
        r == amount_of(s@),
{
    let text = chars_of(s);
    let scaled = scale(&text);
    read_decimal(&scaled)
}

} // verus!
