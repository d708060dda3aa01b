use vstd::prelude::*;

use crate::duration::Duration;

verus! {

/// Splits `s` at every `sep`; there is always at least one piece.
pub open spec fn split_at_char(s: Seq<char>, sep: char) -> Seq<Seq<char>>
    decreases s.len(),
{
    if s.len() == 0 {
        seq![Seq::empty()]
    } else {
        let p = split_at_char(s.drop_last(), sep);
        if s.last() == sep {
            p.push(Seq::empty())
        } else {
            p.update(p.len() - 1, p.last().push(s.last()))
        }
    }
}

proof fn lemma_split_nonempty(s: Seq<char>, sep: char)
    ensures
        split_at_char(s, sep).len() >= 1,
    decreases s.len(),
{
    if s.len() > 0 {
        lemma_split_nonempty(s.drop_last(), sep);
    }
}

pub open spec fn is_digit(c: char) -> bool {
    '0' <= c <= '9'
}

/// A non-empty run of decimal digits.
pub open spec fn is_number(w: Seq<char>) -> bool {
    w.len() > 0 && forall|i: int| 0 <= i < w.len() ==> is_digit(#[trigger] w[i])
}

/// The value of a run of decimal digits.
pub open spec fn number_value(w: Seq<char>) -> nat
    decreases w.len(),
{
    if w.len() == 0 {
        0
    } else {
        number_value(w.drop_last()) * 10 + digit_value(w.last())
    }
}

/// The value of a decimal digit; zero for any other character.
pub open spec fn digit_value(c: char) -> nat {
    if c == '1' {
        1
    } else if c == '2' {
        2
    } else if c == '3' {
        3
    } else if c == '4' {
        4
    } else if c == '5' {
        5
    } else if c == '6' {
        6
    } else if c == '7' {
        7
    } else if c == '8' {
        8
    } else if c == '9' {
        9
    } else {
        0
    }
}

fn read_digit(c: char) -> (r: u128)
    ensures
        r == digit_value(c),
{
    if c == '1' {
        1
    } else if c == '2' {
        2
    } else if c == '3' {
        3
    } else if c == '4' {
        4
    } else if c == '5' {
        5
    } else if c == '6' {
        6
    } else if c == '7' {
        7
    } else if c == '8' {
        8
    } else if c == '9' {
        9
    } else {
        0
    }
}

/// Why a duration could not be read.
#[derive(Clone, Copy, Debug, PartialEq, Eq, Structural)]
pub enum DurationParseError {
    /// The seconds hold more than one `.`, or more than four digits after it.
    BadFraction,
    /// A part is not a run of decimal digits.
    BadNumber,
    /// There are more than three parts.
    BadPartCount,
    /// The duration is too long to represent.
    TooLong,
}

/// Ticks in one unit of the last digit of a fraction with `k` digits.
pub open spec fn fraction_scale(k: nat) -> nat {
    if k == 1 {
        1000
    } else if k == 2 {
        100
    } else if k == 3 {
        10
    } else {
        1
    }
}

/// The ticks of the seconds part: whole seconds, plus a decimal fraction of a second.
pub open spec fn seconds_ticks(last: Seq<char>) -> int {
    let dots = split_at_char(last, '.');
    if dots.len() == 2 {
        (number_value(dots[1]) * fraction_scale(dots[1].len()) + number_value(dots[0]) * 10_000) as int
    } else {
        (number_value(last) * 10_000) as int
    }
}

pub open spec fn seconds_ok(last: Seq<char>) -> bool {
    let dots = split_at_char(last, '.');
    if dots.len() == 2 {
        is_number(dots[0]) && is_number(dots[1])
    } else {
        is_number(last)
    }
}

/// What reading `H:MM:SS.d`, `MM:SS.d` or `SS.d` notation gives, in ticks. The fraction
/// is optional and has one to four digits.
pub open spec fn parse_spec(s: Seq<char>) -> Result<int, DurationParseError> {
    let parts = split_at_char(s, ':');
    let n = parts.len();
    let last = parts[n - 1];
    if split_at_char(last, '.').len() > 2 || (split_at_char(last, '.').len() == 2 && split_at_char(
        last,
        '.',
    )[1].len() > 4) {
        Err(DurationParseError::BadFraction)
    } else if !seconds_ok(last) {
        Err(DurationParseError::BadNumber)
    } else if n > 3 {
        Err(DurationParseError::BadPartCount)
    } else if (n >= 2 && !is_number(parts[n - 2])) || (n == 3 && !is_number(parts[0])) {
        Err(DurationParseError::BadNumber)
    } else {
        let total = seconds_ticks(last) + if n >= 2 {
            (number_value(parts[n - 2]) * 600_000) as int
        } else {
            0
        } + if n == 3 {
            (number_value(parts[0]) * 36_000_000) as int
        } else {
            0
        };
        if total > i64::MAX {
            Err(DurationParseError::TooLong)
        } else {
            Ok(total)
        }
    }
}

pub const VALUE_CAP: u128 = 0x8000_0000_0000_0000;

fn split_chars(s: &Vec<char>, sep: char) -> (r: Vec<Vec<char>>)
    ensures
        r@.len() == split_at_char(s@, sep).len(),
        forall|i: int| 0 <= i < r@.len() ==> (#[trigger] r@[i])@ == split_at_char(s@, sep)[i],
{
    let mut out: Vec<Vec<char>> = Vec::new();
    let mut cur: Vec<char> = Vec::new();
    let mut i: usize = 0;
    while i < s.len()
        invariant
            i <= s@.len(),
            out@.len() + 1 == split_at_char(s@.subrange(0, i as int), sep).len(),
            forall|k: int| 0 <= k < out@.len() ==> (#[trigger] out@[k])@ == split_at_char(s@.subrange(0, i as int), sep)[k],
            cur@ == split_at_char(s@.subrange(0, i as int), sep).last(),
        decreases s@.len() - i,
    {
        proof {
            lemma_split_nonempty(s@.subrange(0, i as int), sep);
            assert(s@.subrange(0, i + 1).drop_last() =~= s@.subrange(0, i as int));
        }
        let c = s[i];
        if c == sep {
            out.push(cur);
            cur = Vec::new();
            proof {
                let p = split_at_char(s@.subrange(0, i as int), sep);
                assert(split_at_char(s@.subrange(0, i + 1), sep) == p.push(Seq::empty()));
            }
        } else {
            cur.push(c);
        }
        i = i + 1;
    }
    assert(s@.subrange(0, s@.len() as int) =~= s@);
    out.push(cur);
    out
}

/// The value of a run of digits, capped at `VALUE_CAP`, and whether it is a number.
fn read_number(w: &Vec<char>) -> (r: (u128, bool))
    ensures
        r.1 == is_number(w@),
        r.0 == if number_value(w@) < VALUE_CAP {
            number_value(w@)
        } else {
            VALUE_CAP as nat
        },
{
    let mut v: u128 = 0;
    let mut ok = w.len() > 0;
    let mut i: usize = 0;
    while i < w.len()
        invariant
            i <= w@.len(),
            ok == (w@.len() > 0 && forall|k: int| 0 <= k < i ==> is_digit(#[trigger] w@[k])),
            v == if number_value(w@.subrange(0, i as int)) < VALUE_CAP {
                number_value(w@.subrange(0, i as int))
            } else {
                VALUE_CAP as nat
            },
        decreases w@.len() - i,
    {
        assert(w@.subrange(0, i + 1).drop_last() =~= w@.subrange(0, i as int));
        let c = w[i];
        let digit = read_digit(c);
        if !('0' <= c && c <= '9') {
            ok = false;
        }
        if v >= VALUE_CAP {
            proof {
                let prev = number_value(w@.subrange(0, i as int));
                assert(prev * 10 + digit_value(c) >= prev) by (nonlinear_arith);
            }
            v = VALUE_CAP;
        } else {
            let nv = v * 10 + digit;
            if nv >= VALUE_CAP {
                v = VALUE_CAP;
            } else {
                v = nv;
            }
        }
        i = i + 1;
    }
    assert(w@.subrange(0, w@.len() as int) =~= w@);
    (v, ok)
}

fn str_chars(s: &str) -> (r: Vec<char>)
    ensures
        r@ == s@,
{
    let n = vstd::string::StrSliceExecFns::unicode_len(s);
    let mut out: Vec<char> = Vec::new();
    let mut i: usize = 0;
    while i < n
        invariant
            n == s@.len(),
            i <= n,
            out@ =~= s@.subrange(0, i as int),
        decreases n - i,
    {
        out.push(vstd::string::StrSliceExecFns::get_char(s, i));
        i = i + 1;
    }
    out
}

impl Duration {
    /// Reads `H:MM:SS.d`, `MM:SS.d` or `SS.d` notation, such as "3:00" for three minutes.
    /// This is not the inverse of `to_string`.
    pub fn parse(string: &str) -> (r: Result<Duration, DurationParseError>)
        ensures
            match (r, parse_spec(string@)) {
                (Ok(d), Ok(t)) => d.ticks == t,
                (Err(a), Err(b)) => a == b,
                _ => false,
            },
    {
        let chars = str_chars(string);
        let parts = split_chars(&chars, ':');
        proof {
            lemma_split_nonempty(string@, ':');
        }
        let n = parts.len();
        let last = &parts[n - 1];
        let dots = split_chars(last, '.');
        if dots.len() > 2 || (dots.len() == 2 && dots[1].len() > 4) {
            return Err(DurationParseError::BadFraction);
        }
        let mut secs: u128;
        if dots.len() == 2 {
            let (frac, ok1) = read_number(&dots[1]);
            let (whole, ok0) = read_number(&dots[0]);
            if !ok1 || !ok0 {
                return Err(DurationParseError::BadNumber);
            }
            let k = dots[1].len();
            let scale: u128 = if k == 1 {
                1000
            } else if k == 2 {
                100
            } else if k == 3 {
                10
            } else {
                1
            };
            secs = frac * scale + whole * 10_000;
        } else {
            let (whole, ok) = read_number(last);
            if !ok {
                return Err(DurationParseError::BadNumber);
            }
            secs = whole * 10_000;
        }
        if n > 3 {
            return Err(DurationParseError::BadPartCount);
        }
        let mut total: u128 = secs;
        if n >= 2 {
            let (mins, ok) = read_number(&parts[n - 2]);
            if !ok {
                return Err(DurationParseError::BadNumber);
            }
            total = total + mins * 600_000;
        }
        if n == 3 {
            let (hrs, ok) = read_number(&parts[0]);
            if !ok {
                return Err(DurationParseError::BadNumber);
            }
            total = total + hrs * 36_000_000;
        }
        if total > (i64::MAX as u128) {
            return Err(DurationParseError::TooLong);
        }
        Ok(Duration { ticks: total as i64 })
    }
}

} // verus!
