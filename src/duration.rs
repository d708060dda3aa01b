use vstd::prelude::*;

use crate::text::{decimal, push_chars, push_decimal};

verus! {

/// Number of ticks in one second; one tick is the smallest representable duration.
pub const TICKS_PER_SECOND: i64 = 10_000;

/// Ticks in a minute.
pub const TICKS_PER_MINUTE: i64 = 600_000;

/// Ticks in an hour.
pub const TICKS_PER_HOUR: i64 = 36_000_000;

/// Ticks in a day.
pub const TICKS_PER_DAY: i64 = 864_000_000;

/// A signed duration, stored as a whole number of ticks of 0.0001 s.
#[derive(Clone, Copy, Debug, PartialEq, Eq, Structural, PartialOrd, Ord, Hash)]
pub struct Duration {
    pub ticks: i64,
}

/// How durations are rendered as text.
#[derive(Clone, Copy, Debug, PartialEq, Eq, Structural)]
pub struct UnitFmt {
    pub metric: bool,
    pub round_durations: bool,
}

/// Magnitude of a tick count.
pub open spec fn mag(t: i64) -> nat {
    if t < 0 {
        (-t) as nat
    } else {
        t as nat
    }
}

/// Remainder with the sign of the dividend, as floating-point `%` behaves.
pub open spec fn rem_spec(a: i64, m: i64) -> int {
    if a < 0 {
        -((mag(a) % mag(m)) as int)
    } else {
        (mag(a) % mag(m)) as int
    }
}

/// Whole hours of the magnitude.
pub open spec fn hours_part(t: i64) -> nat {
    mag(t) / (TICKS_PER_HOUR as nat)
}

/// Whole minutes left after the hours.
pub open spec fn minutes_part(t: i64) -> nat {
    (mag(t) % (TICKS_PER_HOUR as nat)) / (TICKS_PER_MINUTE as nat)
}

/// Whole seconds left after the minutes.
pub open spec fn seconds_part(t: i64) -> nat {
    (mag(t) % (TICKS_PER_MINUTE as nat)) / (TICKS_PER_SECOND as nat)
}

/// Tenths of a second left after the seconds.
pub open spec fn tenths_part(t: i64) -> nat {
    (mag(t) % (TICKS_PER_SECOND as nat)) / 1000
}

/// Minutes in `a` ticks, counting any leftover tenth of a second as one more minute.
pub open spec fn minutes_up(a: nat) -> nat {
    a / (TICKS_PER_MINUTE as nat) + if a % (TICKS_PER_MINUTE as nat) >= 1000 {
        1nat
    } else {
        0nat
    }
}

/// Minutes of the magnitude, counting any leftover tenth of a second as one more minute.
pub open spec fn minutes_rounded_up(t: i64) -> nat {
    minutes_up(mag(t))
}

/// Five minutes, in ticks.
pub open spec fn five_minutes() -> nat {
    5 * (TICKS_PER_MINUTE as nat)
}

/// Minutes between axis labels for a maximum of `t` ticks and `n` intervals. Under five
/// minutes per interval, the maximum rounded up to five minutes is shared out; otherwise
/// the share of each interval is rounded up to a multiple of five minutes. Divisions
/// round to the nearest tick.
pub open spec fn interval_minutes(t: i64, n: nat) -> nat {
    let five = five_minutes();
    if t < n * five {
        let r = round_up_spec(t, five as i64);
        let mag_r = if r < 0 {
            -r
        } else {
            r
        };
        minutes_up(((2 * mag_r + n) / (2 * n as int)) as nat)
    } else {
        let share = (1_200_000 * minutes_rounded_up(t) + n) / (2 * n);
        5 * (((share + five - 1) as nat) / five)
    }
}

/// The rounded maximum for `n` intervals, in ticks.
pub open spec fn intervals_max(t: i64, n: nat) -> int {
    n * interval_minutes(t, n) * TICKS_PER_MINUTE
}

/// What `round_up` returns.
pub open spec fn round_up_spec(a: i64, m: i64) -> int {
    if rem_spec(a, m) == 0 {
        a as int
    } else {
        a + m - rem_spec(a, m)
    }
}

/// `t / k` rounded to the nearest whole number, halves away from zero.
pub open spec fn div_round(t: i64, k: i64) -> int {
    let q = ((2 * mag(t) + mag(k)) / (2 * mag(k))) as int;
    if (t < 0) != (k < 0) {
        -q
    } else {
        q
    }
}

pub open spec fn fits_i64(x: int) -> bool {
    i64::MIN <= x <= i64::MAX
}

/// The seconds word of a formatted duration, empty when there are no seconds to show.
pub open spec fn seconds_word(t: i64, round: bool) -> Seq<char> {
    let s = seconds_part(t);
    let c = tenths_part(t);
    if c != 0 {
        if round {
            decimal(s).push('s')
        } else {
            (decimal(s).push('.') + decimal(c)).push('s')
        }
    } else if s != 0 {
        decimal(s).push('s')
    } else {
        Seq::empty()
    }
}

/// The text of a duration: an optional sign, then hours, minutes and seconds, leaving out
/// zero parts, with tenths of a second unless rounding is asked for. No trailing space.
pub open spec fn format_spec(t: i64, round: bool) -> Seq<char> {
    let h = hours_part(t);
    let m = minutes_part(t);
    if h == 0 && m == 0 && seconds_part(t) == 0 && tenths_part(t) == 0 {
        seq!['0', 's']
    } else {
        let sign = if t < 0 {
            seq!['-']
        } else {
            Seq::empty()
        };
        let hp = if h != 0 {
            decimal(h) + seq!['h', 'r', ' ']
        } else {
            Seq::empty()
        };
        let mp = if m != 0 {
            decimal(m) + seq!['m', 'i', 'n', ' ']
        } else {
            Seq::empty()
        };
        let sp = seconds_word(t, round);
        let body = sign + hp + mp + sp;
        if sp.len() == 0 {
            body.drop_last()
        } else {
            body
        }
    }
}

/// The tick count that encodes a duration.
pub open spec fn encode(d: Duration) -> i64 {
    d.ticks
}

/// The duration that a tick count encodes.
pub open spec fn decode(t: i64) -> Duration {
    Duration { ticks: t }
}

/// The unsigned tick count that encodes a duration: its two's complement.
pub open spec fn encode_u64(d: Duration) -> u64 {
    if d.ticks >= 0 {
        d.ticks as u64
    } else {
        (d.ticks + 0x1_0000_0000_0000_0000int) as u64
    }
}

/// The duration that an unsigned tick count encodes in two's complement.
pub open spec fn decode_u64(x: u64) -> Duration {
    if x <= i64::MAX {
        Duration { ticks: x as i64 }
    } else {
        Duration { ticks: (x - 0x1_0000_0000_0000_0000int) as i64 }
    }
}

/// Sum of the tick counts.
pub open spec fn ticks_sum(s: Seq<Duration>) -> int
    decreases s.len(),
{
    if s.len() == 0 {
        0
    } else {
        ticks_sum(s.drop_last()) + s.last().ticks
    }
}

/// Encoding is lossless: decoding the tick count of a duration gives it back, and
/// encoding a decoded tick count gives the count back.
pub proof fn encode_decode_round_trip(d: Duration, t: i64, x: u64)
    ensures
        decode(encode(d)) == d,
        encode(decode(t)) == t,
        decode_u64(encode_u64(d)) == d,
        encode_u64(decode_u64(x)) == x,
{
}

/// Adding and then subtracting the same duration gives back the first one exactly.
pub proof fn plus_then_minus(a: Duration, b: Duration)
    requires
        fits_i64(a.ticks + b.ticks),
    ensures
        fits_i64((a.ticks + b.ticks) - b.ticks),
        (a.ticks + b.ticks) - b.ticks == a.ticks,
{
}

fn magnitude(t: i64) -> (r: u64)
    ensures
        r as nat == mag(t),
{
    if t >= 0 {
        t as u64
    } else {
        ((-(t + 1)) as u64) + 1
    }
}

impl Default for Duration {
    fn default() -> (r: Duration)
        ensures
            r.ticks == 0,
    {
        Duration { ticks: 0 }
    }
}

impl Duration {
    /// The zero duration.
    pub fn zero() -> (r: Duration)
        ensures
            r.ticks == 0,
    {
        Duration { ticks: 0 }
    }

    /// The smallest positive duration, one tick.
    pub fn epsilon() -> (r: Duration)
        ensures
            r.ticks == 1,
    {
        Duration { ticks: 1 }
    }

    /// Decodes a tick count.
    pub fn from_ticks(ticks: i64) -> (r: Duration)
        ensures
            r == decode(ticks),
    {
        Duration { ticks }
    }

    /// Encodes the duration as its tick count.
    pub fn to_ticks(self) -> (r: i64)
        ensures
            r == encode(self),
    {
        self.ticks
    }

    /// Encodes the duration as an unsigned tick count, in two's complement.
    pub fn to_u64(self) -> (r: u64)
        ensures
            r == encode_u64(self),
    {
        if self.ticks >= 0 {
            self.ticks as u64
        } else {
            ((self.ticks + i64::MAX + 1) as u64) + 0x8000_0000_0000_0000u64
        }
    }

    /// Decodes an unsigned tick count written in two's complement.
    pub fn from_u64(x: u64) -> (r: Duration)
        ensures
            r == decode_u64(x),
    {
        if x <= 0x7FFF_FFFF_FFFF_FFFFu64 {
            Duration { ticks: x as i64 }
        } else {
            Duration { ticks: ((x - 0x8000_0000_0000_0000u64) as i64) - i64::MAX - 1 }
        }
    }

    /// A whole number of seconds.
    pub fn seconds(secs: i64) -> (r: Duration)
        requires
            fits_i64(secs * TICKS_PER_SECOND),
        ensures
            r.ticks == secs * TICKS_PER_SECOND,
    {
        Duration { ticks: secs * TICKS_PER_SECOND }
    }

    /// A whole number of minutes.
    pub fn minutes(mins: u64) -> (r: Duration)
        requires
            mins * TICKS_PER_MINUTE <= i64::MAX,
        ensures
            r.ticks == mins * TICKS_PER_MINUTE,
    {
        Duration { ticks: (mins as i64) * TICKS_PER_MINUTE }
    }

    /// A whole number of hours.
    pub fn hours(hours: u64) -> (r: Duration)
        requires
            hours * TICKS_PER_HOUR <= i64::MAX,
        ensures
            r.ticks == hours * TICKS_PER_HOUR,
    {
        Duration { ticks: (hours as i64) * TICKS_PER_HOUR }
    }

    /// Sum of two durations.
    pub fn plus(self, other: Duration) -> (r: Duration)
        requires
            fits_i64(self.ticks + other.ticks),
        ensures
            r.ticks == self.ticks + other.ticks,
    {
        Duration { ticks: self.ticks + other.ticks }
    }

    /// Difference of two durations.
    pub fn minus(self, other: Duration) -> (r: Duration)
        requires
            fits_i64(self.ticks - other.ticks),
        ensures
            r.ticks == self.ticks - other.ticks,
    {
        Duration { ticks: self.ticks - other.ticks }
    }

    /// The duration scaled by a whole factor.
    pub fn times(self, k: i64) -> (r: Duration)
        requires
            fits_i64(self.ticks * k),
        ensures
            r.ticks == self.ticks * k,
    {
        Duration { ticks: self.ticks * k }
    }

    /// The duration divided by a whole factor, to the nearest tick. Dividing by zero is
    /// not allowed.
    pub fn divided_by(self, k: i64) -> (r: Duration)
        requires
            k != 0,
            fits_i64(div_round(self.ticks, k)),
        ensures
            r.ticks == div_round(self.ticks, k),
    {
        let a = magnitude(self.ticks) as u128;
        let b = magnitude(k) as u128;
        let q = (2 * a + b) / (2 * b);
        if (self.ticks < 0) != (k < 0) {
            Duration { ticks: -(q as i128) as i64 }
        } else {
            Duration { ticks: q as i64 }
        }
    }

    /// Remainder of a division by another duration; it takes the sign of `self`.
    pub fn modulo(self, other: Duration) -> (r: Duration)
        requires
            other.ticks != 0,
        ensures
            r.ticks == rem_spec(self.ticks, other.ticks),
    {
        let a = magnitude(self.ticks);
        let m = magnitude(other.ticks);
        let r = a % m;
        if self.ticks < 0 {
            Duration { ticks: -(r as i64) }
        } else {
            Duration { ticks: r as i64 }
        }
    }

    /// Whether the two durations are less than a tenth of a second apart, so that they
    /// print the same.
    pub fn epsilon_eq(self, other: Duration) -> (r: bool)
        ensures
            r == (-1000 < self.ticks - other.ticks < 1000),
    {
        let d: i128 = (self.ticks as i128) - (other.ticks as i128);
        -1000 < d && d < 1000
    }

    /// Rounds up to the nearest whole multiple of `multiple`, going by the remainder of the
    /// division.
    pub fn round_up(self, multiple: Duration) -> (r: Duration)
        requires
            multiple.ticks != 0,
            fits_i64(round_up_spec(self.ticks, multiple.ticks)),
        ensures
            r.ticks == round_up_spec(self.ticks, multiple.ticks),
    {
        let rem = self.modulo(multiple);
        if rem.ticks == 0 {
            self
        } else {
            let v: i128 = (self.ticks as i128) + (multiple.ticks as i128) - (rem.ticks as i128);
            Duration { ticks: v as i64 }
        }
    }

    /// Splits the magnitude into hours, minutes, seconds and tenths of a second.
    pub fn get_parts(self) -> (r: (u64, u64, u64, u64))
        ensures
            r.0 == hours_part(self.ticks),
            r.1 == minutes_part(self.ticks),
            r.2 == seconds_part(self.ticks),
            r.3 == tenths_part(self.ticks),
    {
        let a = magnitude(self.ticks);
        let h = a / (TICKS_PER_HOUR as u64);
        let m = (a % (TICKS_PER_HOUR as u64)) / (TICKS_PER_MINUTE as u64);
        let s = (a % (TICKS_PER_MINUTE as u64)) / (TICKS_PER_SECOND as u64);
        let c = (a % (TICKS_PER_SECOND as u64)) / 1000;
        (h, m, s, c)
    }

    /// The duration as a number of minutes, rounded up.
    pub fn num_minutes_rounded_up(self) -> (r: u64)
        ensures
            r == minutes_rounded_up(self.ticks),
    {
        let a = magnitude(self.ticks);
        let (hrs, mins, secs, rem) = self.get_parts();
        assert(a / (TICKS_PER_MINUTE as u64) == hrs * 60 + mins) by {
            assert(a as nat / 600_000 == (a as nat / 36_000_000) * 60 + (a as nat % 36_000_000)
                / 600_000) by (nonlinear_arith);
        }
        assert((secs != 0 || rem != 0) == (a % 600_000 >= 1000)) by (nonlinear_arith)
            requires
                secs == (a as nat % 600_000) / 10_000,
                rem == (a as nat % 10_000) / 1000,
        {
            assert(a as nat % 10_000 == (a as nat % 600_000) % 10_000) by (nonlinear_arith);
        }
        let mut result = mins + 60 * hrs;
        if secs != 0 || rem != 0 {
            result = result + 1;
        }
        result
    }
    /// Describes the duration according to the formatting rules.
    pub fn to_string(self, fmt: &UnitFmt) -> (r: String)
        ensures
            r@ == format_spec(self.ticks, fmt.round_durations),
    {
        let (hours, minutes, seconds, remainder) = self.get_parts();
        if hours == 0 && minutes == 0 && seconds == 0 && remainder == 0 {
            let mut z = String::new();
            push_chars(&mut z, &['0', 's']);
            assert(z@ =~= seq!['0', 's']);
            return z;
        }
        let mut s = String::new();
        if self.ticks < 0 {
            s.push('-');
        }
        let ghost sign = s@;
        if hours != 0 {
            push_decimal(&mut s, hours);
            push_chars(&mut s, &['h', 'r', ' ']);
        }
        let ghost after_h = s@;
        if minutes != 0 {
            push_decimal(&mut s, minutes);
            push_chars(&mut s, &['m', 'i', 'n', ' ']);
        }
        let ghost after_m = s@;
        let mut wrote_seconds = false;
        if remainder != 0 {
            push_decimal(&mut s, seconds);
            if !fmt.round_durations {
                s.push('.');
                push_decimal(&mut s, remainder);
            }
            s.push('s');
            wrote_seconds = true;
        } else if seconds != 0 {
            push_decimal(&mut s, seconds);
            s.push('s');
            wrote_seconds = true;
        }
        proof {
            let hp = if hours != 0 {
                decimal(hours as nat) + seq!['h', 'r', ' ']
            } else {
                Seq::empty()
            };
            let mp = if minutes != 0 {
                decimal(minutes as nat) + seq!['m', 'i', 'n', ' ']
            } else {
                Seq::empty()
            };
            let sp = seconds_word(self.ticks, fmt.round_durations);
            assert(after_h =~= sign + hp);
            assert(after_m =~= sign + hp + mp);
            assert(s@ =~= sign + hp + mp + sp);
            assert(wrote_seconds == (sp.len() != 0));
        }
        if !wrote_seconds {
            s.pop();
        }
        s
    }
    fn interval_minutes_of(self, num_labels: u64) -> (mpi: u128)
        requires
            num_labels > 0,
        ensures
            mpi == interval_minutes(self.ticks, num_labels as nat),
    {
        let n = num_labels as u128;
        let five: u128 = 5 * (TICKS_PER_MINUTE as u128);
        let mpi: u128;
        assert(n * five <= 0x1_0000_0000_0000_0000 * 3_000_000) by (nonlinear_arith)
            requires
                n <= 0x1_0000_0000_0000_0000,
                five == 3_000_000,
        ;
        if (self.ticks as i128) < (n as i128) * (five as i128) {
            // `round_up` on 128 bits: near the top of the range the rounded value does not fit
            // in a `Duration`, and only its minutes matter here.
            let rem = self.modulo(Duration { ticks: 5 * TICKS_PER_MINUTE });
            let r: i128 = if rem.ticks == 0 {
                self.ticks as i128
            } else {
                (self.ticks as i128) + (five as i128) - (rem.ticks as i128)
            };
            let mag_r: u128 = if r < 0 {
                (-r) as u128
            } else {
                r as u128
            };
            let d = (2 * mag_r + n) / (2 * n);
            mpi = d / (TICKS_PER_MINUTE as u128) + if d % (TICKS_PER_MINUTE as u128) >= 1000 {
                1
            } else {
                0
            };
        } else {
            let m = self.num_minutes_rounded_up() as u128;
            let share = (1_200_000 * m + n) / (2 * n);
            mpi = 5 * ((share + five - 1) / five);
        }
        mpi
    }

    /// `make_intervals_for_max`, or none where the rounded maximum would not fit or would
    /// fall short of `self`.
    pub fn try_make_intervals_for_max(self, num_labels: u64) -> (r: Option<(Duration, Vec<u64>)>)
        ensures
            r is None <==> (num_labels == 0 || intervals_max(self.ticks, num_labels as nat)
                > i64::MAX || intervals_max(self.ticks, num_labels as nat) < self.ticks),
            r is Some ==> r->Some_0.0.ticks == intervals_max(self.ticks, num_labels as nat) && r->Some_0.1@.len()
                == num_labels + 1 && forall|i: int|
                0 <= i <= num_labels ==> r->Some_0.1@[i] == i * interval_minutes(
                    self.ticks,
                    num_labels as nat,
                ),
    {
        if num_labels == 0 {
            return None;
        }
        let mpi = self.interval_minutes_of(num_labels);
        let n = num_labels as u128;
        if mpi > 0 && n > (i64::MAX as u128) / mpi {
            proof {
                assert(n * mpi > i64::MAX) by (nonlinear_arith)
                    requires
                        mpi > 0,
                        n > (i64::MAX as u128) / mpi,
                ;
                assert(n * mpi * TICKS_PER_MINUTE >= n * mpi) by (nonlinear_arith)
                    requires
                        n * mpi >= 0,
                ;
            }
            return None;
        }
        assert(n * mpi <= i64::MAX) by (nonlinear_arith)
            requires
                mpi == 0 || n <= (i64::MAX as u128) / mpi,
        ;
        let total: u128 = n * mpi * (TICKS_PER_MINUTE as u128);
        if total > (i64::MAX as u128) || (total as i128) < (self.ticks as i128) {
            return None;
        }
        Some(self.make_intervals_for_max(num_labels))
    }

    /// A rounded maximum and the label positions, in minutes, for an axis that shows
    /// durations up to `self` in `num_labels` intervals.
    pub fn make_intervals_for_max(self, num_labels: u64) -> (r: (Duration, Vec<u64>))
        requires
            num_labels > 0,
            intervals_max(self.ticks, num_labels as nat) <= i64::MAX,
            intervals_max(self.ticks, num_labels as nat) >= self.ticks,
        ensures
            r.0.ticks == intervals_max(self.ticks, num_labels as nat),
            r.0.ticks >= self.ticks,
            r.1@.len() == num_labels + 1,
            forall|i: int|
                0 <= i <= num_labels ==> r.1@[i] == i * interval_minutes(self.ticks, num_labels as nat),
    {
        let n = num_labels as u128;
        let mpi = self.interval_minutes_of(num_labels);
        assert(mpi == interval_minutes(self.ticks, num_labels as nat));
        proof {
            assert(n * mpi * TICKS_PER_MINUTE <= i64::MAX);
            assert(n * mpi <= n * mpi * TICKS_PER_MINUTE) by (nonlinear_arith)
                requires
                    n * mpi >= 0,
            ;
        }
        let max = Duration { ticks: ((n * mpi) as i64) * TICKS_PER_MINUTE };
        let mut labels: Vec<u64> = Vec::new();
        let mut i: u128 = 0;
        while i <= n
            invariant
                i <= n + 1,
                n == num_labels,
                n * mpi <= i64::MAX,
                labels@.len() == i,
                forall|k: int| 0 <= k < i ==> labels@[k] == k * mpi,
            decreases n + 1 - i,
        {
            proof {
                assert(i * mpi <= n * mpi) by (nonlinear_arith)
                    requires
                        i <= n,
                ;
            }
            labels.push((i * mpi) as u64);
            i = i + 1;
        }
        (max, labels)
    }
    /// The total of a list of durations.
    pub fn sum(v: &Vec<Duration>) -> (r: Duration)
        requires
            forall|k: int| 0 <= k <= v@.len() ==> fits_i64(#[trigger] ticks_sum(v@.subrange(0, k))),
        ensures
            r.ticks == ticks_sum(v@),
    {
        let mut total = Duration::zero();
        let mut i: usize = 0;
        while i < v.len()
            invariant
                i <= v@.len(),
                total.ticks == ticks_sum(v@.subrange(0, i as int)),
                forall|k: int| 0 <= k <= v@.len() ==> fits_i64(#[trigger] ticks_sum(v@.subrange(0, k))),
            decreases v@.len() - i,
        {
            assert(v@.subrange(0, i + 1).drop_last() =~= v@.subrange(0, i as int));
            assert(fits_i64(ticks_sum(v@.subrange(0, i + 1))));
            total = total.plus(v[i]);
            i = i + 1;
        }
        assert(v@.subrange(0, v@.len() as int) =~= v@);
        total
    }
}

} // verus!
