//! Numbers and clock readings as text.
use vstd::prelude::*;
use vstd::string::*;
use crate::patterns::is_digit;

verus! {

/// The decimal digit for `d`.
pub open spec fn digit_char(d: nat) -> char {
    if d == 0 {
        '0'
    } else if d == 1 {
        '1'
    } else if d == 2 {
        '2'
    } else if d == 3 {
        '3'
    } else if d == 4 {
        '4'
    } else if d == 5 {
        '5'
    } else if d == 6 {
        '6'
    } else if d == 7 {
        '7'
    } else if d == 8 {
        '8'
    } else {
        '9'
    }
}

/// `n` in decimal, without leading zeros.
pub open spec fn decimal(n: nat) -> Seq<char>
    decreases n,
{
    if n < 10 {
        seq![digit_char(n)]
    } else {
        decimal(n / 10) + seq![digit_char(n % 10)]
    }
}

/// The value of the decimal digit `c`.
pub open spec fn digit_value(c: char) -> nat
    recommends
        is_digit(c),
{
    (c as nat - '0' as nat) as nat
}

/// The number that the digits of `s` spell, or `None` where `s` is empty or
/// holds anything but digits.
pub open spec fn digits_value(s: Seq<char>) -> Option<nat>
    decreases s.len(),
{
    if s.len() == 0 || !is_digit(s.last()) {
        None
    } else if s.len() == 1 {
        Some(digit_value(s.last()))
    } else {
        match digits_value(s.drop_last()) {
            Some(v) => Some(10 * v + digit_value(s.last())),
            None => None,
        }
    }
}

/// The index that `s` spells: digits, with one `+` allowed in front, whose
/// value fits the machine's word.
pub open spec fn index_value(s: Seq<char>) -> Option<usize> {
    let digits = if s.len() > 0 && s[0] == '+' {
        s.subrange(1, s.len() as int)
    } else {
        s
    };
    match digits_value(digits) {
        Some(v) => if v <= usize::MAX {
            Some(v as usize)
        } else {
            None
        },
        None => None,
    }
}

/// The formats in which the clock is written.
pub open spec fn is_clock_format(format: Seq<char>) -> bool {
    format == "%F"@ || format == "%T"@ || format == "%F_%T"@
}

/// The moment `secs` seconds after the Unix epoch, in UTC, written in
/// `format`, or `None` where the time library cannot hold that moment.
pub uninterp spec fn utc_text(secs: int, format: Seq<char>) -> Option<Seq<char>>;

/// `chrono::DateTime::from_timestamp`, then `chrono::NaiveDateTime::format`
/// on its UTC reading. The first returns `None` for a number of seconds out
/// of its range. The second reads `%F` as year-month-day and `%T` as
/// hour:minute:second; other formats are left out because writing with a
/// wrong one panics. The result is named: it depends on the two arguments
/// alone.
#[verifier::external_body]
pub(crate) fn format_utc(secs: i64, format: &str) -> (r: Option<String>)
    requires
        is_clock_format(format@),
    ensures
        crate::model::text_of(r) == utc_text(secs as int, format@),
{
    chrono::DateTime::from_timestamp(secs, 0).map(|t| t.naive_utc().format(format).to_string())
}

/// The text of one decimal digit.
fn digit_text(d: u64) -> (r: &'static str)
    requires
        d < 10,
    ensures
        r@ == seq![digit_char(d as nat)],
{
    proof {
        reveal_strlit("0");
        reveal_strlit("1");
        reveal_strlit("2");
        reveal_strlit("3");
        reveal_strlit("4");
        reveal_strlit("5");
        reveal_strlit("6");
        reveal_strlit("7");
        reveal_strlit("8");
        reveal_strlit("9");
    }
    let r = if d == 0 {
        "0"
    } else if d == 1 {
        "1"
    } else if d == 2 {
        "2"
    } else if d == 3 {
        "3"
    } else if d == 4 {
        "4"
    } else if d == 5 {
        "5"
    } else if d == 6 {
        "6"
    } else if d == 7 {
        "7"
    } else if d == 8 {
        "8"
    } else {
        "9"
    };
    assert(r@ =~= seq![digit_char(d as nat)]);
    r
}

/// Writes `n` in decimal.
pub fn decimal_text(n: u64) -> (r: String)
    ensures
        r@ == decimal(n as nat),
    decreases n,
{
    if n < 10 {
        digit_text(n).to_owned()
    } else {
        let mut out = decimal_text(n / 10);
        out.append(digit_text(n % 10));
        out
    }
}

/// A longer run of digits spells no smaller a number.
pub proof fn lemma_digits_grow(s: Seq<char>, n: int)
    requires
        1 <= n <= s.len(),
        digits_value(s) is Some,
    ensures
        digits_value(s.take(n)) is Some,
        digits_value(s.take(n)).unwrap() <= digits_value(s).unwrap(),
    decreases s.len() - n,
{
    if n == s.len() {
        assert(s.take(n) =~= s);
    } else {
        assert(s.drop_last().take(n) =~= s.take(n));
        lemma_digits_grow(s.drop_last(), n);
    }
}

/// Reads an index: digits, with one `+` allowed in front, whose value fits
/// the machine's word.
pub fn parse_index_text(s: &str) -> (r: Option<usize>)
    ensures
        r == index_value(s@),
{
    let n = s.unicode_len();
    let start: usize = if n > 0 && s.get_char(0) == '+' {
        1
    } else {
        0
    };
    let ghost digits = s@.subrange(start as int, n as int);
    proof {
        if start == 0 {
            assert(digits =~= s@);
        }
    }
    if start == n {
        return None;
    }
    let mut value: usize = 0;
    let mut i: usize = start;
    while i < n
        invariant
            n == s@.len(),
            start < n,
            start <= i <= n,
            digits == s@.subrange(start as int, n as int),
            digits == if s@.len() > 0 && s@[0] == '+' {
                s@.subrange(1, s@.len() as int)
            } else {
                s@
            },
            i > start ==> digits_value(digits.take(i - start)) == Some(value as nat),
        decreases n - i,
    {
        let c = s.get_char(i);
        let ghost upto = digits.take(i - start + 1);
        proof {
            assert(upto.last() == c);
            assert(upto.drop_last() =~= digits.take(i - start));
            assert(upto.len() == 1 <==> i == start);
        }
        if !('0' <= c && c <= '9') {
            proof {
                assert(digits_value(upto) is None);
                if digits_value(digits) is Some {
                    lemma_digits_grow(digits, i - start + 1);
                }
            }
            return None;
        }
        let d: usize = (c as u32 - '0' as u32) as usize;
        if i > start && (value > usize::MAX / 10 || value * 10 > usize::MAX - d) {
            proof {
                assert(d == digit_value(c));
                assert(digits_value(upto) == Some(10 * (value as nat) + digit_value(c)));
                if digits_value(digits) is Some {
                    lemma_digits_grow(digits, i - start + 1);
                }
            }
            return None;
        }
        value = if i > start {
            value * 10 + d
        } else {
            d
        };
        i += 1;
    }
    assert(digits.take(n - start) =~= digits);
    Some(value)
}

} // verus!
