//! Decimal notation of signed 64-bit integers.

use vstd::prelude::*;
use vstd::string::*;

verus! {

/// The digit that writes `d`, for `d` below ten.
pub open spec fn digit_char(d: int) -> char {
    if d == 0 {
        '0'
    } else if d == 1 {
        '1'
    } else if d == 2 {
        '2'
    } else if d == 3 {
        '3'
    } else if d == 4 {
        '4'
    } else if d == 5 {
        '5'
    } else if d == 6 {
        '6'
    } else if d == 7 {
        '7'
    } else if d == 8 {
        '8'
    } else {
        '9'
    }
}

/// The number that a digit writes, or `None` for any other character.
pub open spec fn digit_value(c: char) -> Option<int> {
    if c == '0' {
        Some(0)
    } else if c == '1' {
        Some(1)
    } else if c == '2' {
        Some(2)
    } else if c == '3' {
        Some(3)
    } else if c == '4' {
        Some(4)
    } else if c == '5' {
        Some(5)
    } else if c == '6' {
        Some(6)
    } else if c == '7' {
        Some(7)
    } else if c == '8' {
        Some(8)
    } else if c == '9' {
        Some(9)
    } else {
        None
    }
}

/// The digits of `n`, most significant first, without leading zeros.
pub open spec fn digits_of(n: nat) -> Seq<char>
    decreases n,
{
    if n < 10 {
        seq![digit_char(n as int)]
    } else {
        digits_of(n / 10).push(digit_char((n % 10) as int))
    }
}

/// The decimal notation of `n`: a minus sign if it is negative, then its digits.
pub open spec fn decimal_text(n: int) -> Seq<char> {
    if n < 0 {
        seq!['-'] + digits_of((-n) as nat)
    } else {
        digits_of(n as nat)
    }
}

pub open spec fn all_digits(s: Seq<char>) -> bool {
    forall|i: int| 0 <= i < s.len() ==> digit_value(#[trigger] s[i]) is Some
}

/// The number that a run of digits writes.
pub open spec fn digits_value(s: Seq<char>) -> int
    decreases s.len(),
{
    if s.len() == 0 {
        0
    } else {
        digits_value(s.drop_last()) * 10 + match digit_value(s.last()) {
            Some(d) => d,
            None => 0,
        }
    }
}

/// The integer that a text writes: an optional plus or minus sign, then one
/// or more digits and nothing else, of a value that fits 64 bits.
pub open spec fn decimal_value(s: Seq<char>) -> Option<i64> {
    let signed = s.len() > 0 && (s[0] == '-' || s[0] == '+');
    let body = if signed { s.skip(1) } else { s };
    let value = if s.len() > 0 && s[0] == '-' { -digits_value(body) } else { digits_value(body) };
    if body.len() > 0 && all_digits(body) && i64::MIN <= value <= i64::MAX {
        Some(value as i64)
    } else {
        None
    }
}

/// The number that `c` writes, if `c` is a digit.
fn digit_of(c: char) -> (d: Option<u8>)
    ensures
        match d {
            Some(v) => digit_value(c) == Some(v as int) && v < 10,
            None => digit_value(c) is None,
        },
{
    match c {
        '0' => Some(0),
        '1' => Some(1),
        '2' => Some(2),
        '3' => Some(3),
        '4' => Some(4),
        '5' => Some(5),
        '6' => Some(6),
        '7' => Some(7),
        '8' => Some(8),
        '9' => Some(9),
        _ => None,
    }
}

/// The digit that writes `d`, as a text of one character.
fn digit_text(d: u64) -> (text: &'static str)
    requires
        d < 10,
    ensures
        text@ == seq![digit_char(d as int)],
{
    proof {
        reveal_strlit("0");
        reveal_strlit("1");
        reveal_strlit("2");
        reveal_strlit("3");
        reveal_strlit("4");
        reveal_strlit("5");
        reveal_strlit("6");
        reveal_strlit("7");
        reveal_strlit("8");
        reveal_strlit("9");
    }
    let text = match d {
        0 => "0",
        1 => "1",
        2 => "2",
        3 => "3",
        4 => "4",
        5 => "5",
        6 => "6",
        7 => "7",
        8 => "8",
        _ => "9",
    };
    assert(text@ =~= seq![digit_char(d as int)]);
    text
}

/// A run of digits never writes a negative number.
proof fn lemma_value_not_negative(s: Seq<char>)
    ensures
        digits_value(s) >= 0,
    decreases s.len(),
{
    if s.len() > 0 {
        lemma_value_not_negative(s.drop_last());
    }
}

/// A run of digits writes no less than any of its prefixes.
proof fn lemma_prefix_value(s: Seq<char>, k: int)
    requires
        0 <= k <= s.len(),
    ensures
        digits_value(s.take(k)) <= digits_value(s),
    decreases s.len() - k,
{
    if k == s.len() {
        assert(s.take(k) =~= s);
    } else {
        lemma_prefix_value(s.drop_last(), k);
        lemma_value_not_negative(s.drop_last());
        assert(s.drop_last().take(k) =~= s.take(k));
    }
}

/// Reads a signed integer written in decimal: an optional sign, then digits
/// only. A text of any other form, or of a value that 64 bits cannot hold,
/// gives `None`.
pub fn parse_decimal(text: &str) -> (value: Option<i64>)
    ensures
        value == decimal_value(text@),
{
    let n = text.unicode_len();
    if n == 0 {
        return None;
    }
    let first = text.get_char(0);
    let negative = first == '-';
    let start: usize = if first == '-' || first == '+' { 1 } else { 0 };
    if start == n {
        return None;
    }
    let ghost body = if start == 1 { text@.skip(1) } else { text@ };
    let mut magnitude: i128 = 0;
    let mut i: usize = start;
    assert(body.take(0) =~= Seq::<char>::empty());
    while i < n
        invariant
            start <= i <= n,
            start <= 1,
            (start == 1) == (text@[0] == '-' || text@[0] == '+'),
            negative == (text@[0] == '-'),
            n == text@.len(),
            body == (if start == 1 { text@.skip(1) } else { text@ }),
            all_digits(body.take(i - start)),
            magnitude == digits_value(body.take(i - start)),
            0 <= magnitude <= 0x8000_0000_0000_0000,
        decreases n - i,
    {
        let ghost k = i - start;
        assert(body[k] == text@[i as int]);
        assert(body.take(k + 1).drop_last() =~= body.take(k));
        assert(body.take(k + 1).last() == body[k]);
        match digit_of(text.get_char(i)) {
            None => {
                assert(digit_value(body[k]) is None);
                return None;
            },
            Some(d) => {
                magnitude = magnitude * 10 + d as i128;
                if magnitude > 0x8000_0000_0000_0000 {
                    proof {
                        lemma_prefix_value(body, k + 1);
                    }
                    return None;
                }
            },
        }
        i += 1;
    }
    assert(body.take(n - start) =~= body);
    let value: i128 = if negative { -magnitude } else { magnitude };
    if value > i64::MAX as i128 {
        None
    } else {
        Some(value as i64)
    }
}

/// Appends the digits of `n` to `text`.
fn push_digits(n: u64, text: &mut String)
    ensures
        final(text)@ == old(text)@ + digits_of(n as nat),
    decreases n,
{
    if n >= 10 {
        push_digits(n / 10, text);
    }
    text.append(digit_text(n % 10));
    assert(text@ =~= old(text)@ + digits_of(n as nat));
}

/// Writes a signed integer in decimal: a minus sign if it is negative, then
/// its digits without leading zeros.
pub fn format_decimal(n: i64) -> (text: String)
    ensures
        text@ == decimal_text(n as int),
{
    let mut text = String::new();
    if n < 0 {
        proof {
            reveal_strlit("-");
        }
        text.append("-");
        let magnitude: i128 = -(n as i128);
        push_digits(magnitude as u64, &mut text);
    } else {
        push_digits(n as u64, &mut text);
    }
    assert(text@ =~= decimal_text(n as int));
    text
}

/// Every character of a decimal notation is a digit or the minus sign.
pub proof fn lemma_decimal_text_chars(n: int)
    ensures
        decimal_text(n).len() > 0,
        forall|i: int|
            0 <= i < decimal_text(n).len() ==> {
                let c = #[trigger] decimal_text(n)[i];
                c == '-' || digit_value(c) is Some
            },
{
    if n < 0 {
        lemma_digits_of_chars((-n) as nat);
    } else {
        lemma_digits_of_chars(n as nat);
    }
}

proof fn lemma_digits_of_chars(n: nat)
    ensures
        digits_of(n).len() > 0,
        all_digits(digits_of(n)),
    decreases n,
{
    if n >= 10 {
        lemma_digits_of_chars(n / 10);
    }
}

proof fn lemma_digits_round_trip(n: nat)
    ensures
        digits_value(digits_of(n)) == n,
    decreases n,
{
    let s = digits_of(n);
    if n < 10 {
        assert(s.drop_last() =~= Seq::<char>::empty());
        assert(s.last() == digit_char(n as int));
        assert(digits_value(s.drop_last()) == 0);
    } else {
        lemma_digits_round_trip(n / 10);
        assert(s.drop_last() =~= digits_of(n / 10));
        assert(s.last() == digit_char((n % 10) as int));
    }
}

/// Reading the decimal notation of an integer gives the integer back.
pub proof fn lemma_decimal_round_trip(n: i64)
    ensures
        decimal_value(decimal_text(n as int)) == Some(n),
{
    let s = decimal_text(n as int);
    if n < 0 {
        let m = (-n) as nat;
        lemma_digits_of_chars(m);
        lemma_digits_round_trip(m);
        assert(s[0] == '-');
        assert(s.skip(1) =~= digits_of(m));
    } else {
        let m = n as nat;
        lemma_digits_of_chars(m);
        lemma_digits_round_trip(m);
        assert(digit_value(s[0]) is Some);
    }
}

} // verus!
