//! The grammar of the texts a user writes for a firing rule: a duration such
//! as `1d2h30m5s`, and a wall-clock time such as `13:05`.
use crate::clock::{next_at, next_at_fire, LocalTime, MAX_UNIX};
use vstd::prelude::*;
use vstd::string::StringSliceAdditionalSpecFns;

verus! {

pub open spec fn is_digit(b: u8) -> bool {
    48 <= b <= 57
}

/// The value of a run of decimal digits.
pub open spec fn digits_value(s: Seq<u8>) -> nat
    decreases s.len(),
{
    if s.len() == 0 {
        0
    } else {
        digits_value(s.drop_last()) * 10 + (s.last() - 48) as nat
    }
}

/// How many digits `s` starts with.
pub open spec fn digit_run(s: Seq<u8>) -> nat
    decreases s.len(),
{
    if s.len() > 0 && is_digit(s[0]) {
        1 + digit_run(s.drop_first())
    } else {
        0
    }
}

proof fn lemma_digit_run(s: Seq<u8>, n: int)
    requires
        0 <= n <= s.len(),
        forall|j: int| 0 <= j < n ==> is_digit(#[trigger] s[j]),
        n == s.len() || !is_digit(s[n]),
    ensures
        digit_run(s) == n,
    decreases n,
{
    if n > 0 {
        lemma_digit_run(s.drop_first(), n - 1);
    }
}

/// Reads the run of digits of `b` that starts at `start`. Returns where the
/// run ends, and its value where that is at most `limit`.
pub fn read_digits(b: &[u8], start: usize, limit: u64) -> (r: (usize, Option<u64>))
    requires
        start <= b@.len(),
    ensures
        r.0 == start + digit_run(b@.subrange(start as int, b@.len() as int)),
        r.0 <= b@.len(),
        r.1 is Some <==> digits_value(b@.subrange(start as int, r.0 as int)) <= limit,
        r.1 is Some ==> r.1->0 == digits_value(b@.subrange(start as int, r.0 as int)),
{
    let mut i = start;
    let mut acc: u64 = 0;
    let mut over = false;
    while i < b.len() && 48 <= b[i] && b[i] <= 57
        invariant
            start <= i <= b@.len(),
            forall|j: int| start <= j < i ==> is_digit(#[trigger] b@[j]),
            !over ==> acc == digits_value(b@.subrange(start as int, i as int)) && acc <= limit,
            over ==> digits_value(b@.subrange(start as int, i as int)) > limit,
        decreases b@.len() - i,
    {
        let d = (b[i] - 48) as u64;
        proof {
            let s = b@.subrange(start as int, i + 1);
            assert(s.drop_last() =~= b@.subrange(start as int, i as int));
        }
        if !over {
            if d > limit || acc > (limit - d) / 10 {
                proof {
                    if d <= limit {
                        assert(acc * 10 + d > limit) by (nonlinear_arith)
                            requires
                                acc > (limit - d) / 10,
                                d <= limit,
                        ;
                    }
                }
                over = true;
            } else {
                assert(acc * 10 + d <= limit) by (nonlinear_arith)
                    requires
                        acc <= (limit - d) / 10,
                        d <= limit,
                ;
                acc = acc * 10 + d;
            }
        }
        i += 1;
    }
    proof {
        let s = b@.subrange(start as int, b@.len() as int);
        lemma_digit_run(s, i - start);
    }
    if over {
        (i, None)
    } else {
        (i, Some(acc))
    }
}

/// Why a text was not taken.
#[derive(Clone, Copy, Debug, PartialEq, Eq, Structural)]
pub enum ParseError {
    /// The text is not of the required form.
    InvalidFormat,
    /// The text has the form, but a number in it is out of range.
    OutOfRange,
    /// The local UTC offset could not be read.
    NoLocalOffset,
    /// A duration that must not be zero is zero.
    ZeroDuration,
}

/// The position of a unit letter in `d h m s`; 4 for any other byte.
pub open spec fn unit_index(b: u8) -> int {
    if b == 100 {
        0
    } else if b == 104 {
        1
    } else if b == 109 {
        2
    } else if b == 115 {
        3
    } else {
        4
    }
}

/// Seconds in one unit: a day, an hour, a minute, a second.
pub open spec fn unit_secs(u: int) -> nat {
    if u == 0 {
        86400
    } else if u == 1 {
        3600
    } else if u == 2 {
        60
    } else {
        1
    }
}

/// The seconds that a duration text spells, where its first component may
/// use unit `k` or a later one: components `<digits><unit>`, units in the
/// order `d h m s`, each at most once. `None` where the text has another form.
pub open spec fn duration_secs(s: Seq<u8>, k: int) -> Option<nat>
    decreases s.len(),
{
    if s.len() == 0 {
        Some(0)
    } else {
        let n = digit_run(s) as int;
        if n == 0 || n >= s.len() {
            None
        } else {
            let u = unit_index(s[n]);
            if u < k || u >= 4 {
                None
            } else {
                match duration_secs(s.subrange(n + 1, s.len() as int), u + 1) {
                    Some(rest) => Some(digits_value(s.take(n)) * unit_secs(u) + rest),
                    None => None,
                }
            }
        }
    }
}

pub open spec fn add_some(a: nat, o: Option<nat>) -> Option<nat> {
    match o {
        Some(x) => Some(a + x),
        None => None,
    }
}

fn unit_of(b: u8) -> (r: usize)
    ensures
        r == unit_index(b),
{
    if b == 100 {
        0
    } else if b == 104 {
        1
    } else if b == 109 {
        2
    } else if b == 115 {
        3
    } else {
        4
    }
}

fn secs_of_unit(u: usize) -> (r: u64)
    ensures
        r == unit_secs(u as int),
{
    if u == 0 {
        86400
    } else if u == 1 {
        3600
    } else if u == 2 {
        60
    } else {
        1
    }
}

/// Parses a duration such as `1d1h1m1s`, `2h`, `30s` or `55m` into seconds.
/// The empty text is zero seconds.
pub fn parse_duration(duration: &str) -> (r: Result<u64, ParseError>)
    ensures
        match duration_secs(duration.spec_bytes(), 0) {
            None => r == Err::<u64, ParseError>(ParseError::InvalidFormat),
            Some(v) => if v <= u64::MAX {
                r == Ok::<u64, ParseError>(v as u64)
            } else {
                r == Err::<u64, ParseError>(ParseError::OutOfRange)
            },
        },
{
    let b = duration.as_bytes();
    let ghost whole = b@;
    let mut i: usize = 0;
    let mut k: usize = 0;
    let mut total: u64 = 0;
    let mut over = false;
    let ghost mut acc: nat = 0;
    assert(whole.subrange(0, whole.len() as int) =~= whole);
    while i < b.len()
        invariant
            b@ == whole,
            whole == duration.spec_bytes(),
            i <= whole.len(),
            k <= 4,
            duration_secs(whole, 0) == add_some(
                acc,
                duration_secs(whole.subrange(i as int, whole.len() as int), k as int),
            ),
            over <==> acc > u64::MAX,
            !over ==> total == acc,
        decreases whole.len() - i,
    {
        let ghost rest = whole.subrange(i as int, whole.len() as int);
        let (end, v) = read_digits(b, i, u64::MAX);
        if end == i || end >= b.len() {
            assert(duration_secs(rest, k as int) is None);
            return Err(ParseError::InvalidFormat);
        }
        let u = unit_of(b[end]);
        if u < k || u >= 4 {
            assert(rest[end - i] == b@[end as int]);
            assert(duration_secs(rest, k as int) is None);
            return Err(ParseError::InvalidFormat);
        }
        proof {
            let n = end - i;
            assert(rest[n] == b@[end as int]);
            assert(rest.take(n) =~= whole.subrange(i as int, end as int));
            assert(rest.subrange(n + 1, rest.len() as int) =~= whole.subrange(
                end + 1,
                whole.len() as int,
            ));
        }
        let ghost c = digits_value(whole.subrange(i as int, end as int)) * unit_secs(u as int);
        proof {
            acc = acc + c;
        }
        if !over {
            match v {
                None => {
                    proof {
                        assert(c >= digits_value(whole.subrange(i as int, end as int))) by (
                        nonlinear_arith)
                            requires
                                c == digits_value(whole.subrange(i as int, end as int))
                                    * unit_secs(u as int),
                                unit_secs(u as int) >= 1,
                        ;
                    }
                    over = true;
                },
                Some(d) => {
                    match d.checked_mul(secs_of_unit(u)) {
                        None => {
                            over = true;
                        },
                        Some(p) => {
                            match total.checked_add(p) {
                                None => {
                                    over = true;
                                },
                                Some(t) => {
                                    total = t;
                                },
                            }
                        },
                    }
                },
            }
        }
        i = end + 1;
        k = u + 1;
    }
    proof {
        assert(whole.subrange(i as int, whole.len() as int).len() == 0);
    }
    if over {
        Err(ParseError::OutOfRange)
    } else {
        Ok(total)
    }
}

/// Whether `<digits>:<digit>` starts at position `p` of `s`: a run of digits,
/// a colon, and a digit after it.
pub open spec fn clock_match_at(s: Seq<u8>, p: int) -> bool {
    let n = digit_run(s.subrange(p, s.len() as int)) as int;
    0 <= p < s.len() && n > 0 && p + n + 1 < s.len() && s[p + n] == 58 && is_digit(
        s[p + n + 1],
    )
}

/// The first position at or after `p` where `<digits>:<digits>` starts.
pub open spec fn first_clock_match(s: Seq<u8>, p: int) -> Option<int>
    decreases s.len() - p,
{
    if p < 0 || p >= s.len() {
        None
    } else if clock_match_at(s, p) {
        Some(p)
    } else {
        first_clock_match(s, p + 1)
    }
}

/// The hour and minute of the first `<digits>:<digits>` in a text, wherever
/// it stands (`at 13:05`, `13:05pm`, `13:05:59`); each run of digits is
/// taken whole.
pub open spec fn clock_text(s: Seq<u8>) -> Option<(nat, nat)> {
    match first_clock_match(s, 0) {
        None => None,
        Some(p) => {
            let n = digit_run(s.subrange(p, s.len() as int)) as int;
            let m = digit_run(s.subrange(p + n + 1, s.len() as int)) as int;
            Some(
                (
                    digits_value(s.subrange(p, p + n)),
                    digits_value(s.subrange(p + n + 1, p + n + 1 + m)),
                ),
            )
        },
    }
}

/// Reads a wall-clock time `hour:minute` (seconds may follow and are not
/// read) and gives the first instant after `now` at which the local clock
/// shows it, keeping the seconds that the clock shows at `now`.
#[verifier::rlimit(40)]
pub fn parse_at_from(next_fire: &str, now: LocalTime) -> (r: Result<LocalTime, ParseError>)
    requires
        now.wf(),
    ensures
        match clock_text(next_fire.spec_bytes()) {
            None => r == Err::<LocalTime, ParseError>(ParseError::InvalidFormat),
            Some((h, m)) => if h < 24 && m < 60 && next_at(
                now.unix as int,
                now.offset as int,
                h as int,
                m as int,
            ) <= MAX_UNIX {
                r == Ok::<LocalTime, ParseError>(
                    LocalTime {
                        unix: next_at(now.unix as int, now.offset as int, h as int, m as int) as i64,
                        offset: now.offset,
                    },
                )
            } else {
                r == Err::<LocalTime, ParseError>(ParseError::OutOfRange)
            },
        },
        r is Ok ==> r->Ok_0.wf(),
{
    let b = next_fire.as_bytes();
    let ghost s = b@;
    let mut p: usize = 0;
    let mut found: Option<(usize, Option<u64>, Option<u64>)> = None;
    while p < b.len() && found.is_none()
        invariant
            b@ == s,
            s == next_fire.spec_bytes(),
            p <= s.len(),
            found is None ==> first_clock_match(s, 0) == first_clock_match(s, p as int),
            found is Some ==> ({
                let (q, hour, minute) = found->Some_0;
                let n = digit_run(s.subrange(q as int, s.len() as int)) as int;
                let m = digit_run(s.subrange(q + n + 1, s.len() as int)) as int;
                &&& first_clock_match(s, 0) == Some(q as int)
                &&& (hour is Some <==> digits_value(s.subrange(q as int, q + n)) <= 23)
                &&& (hour is Some ==> hour->Some_0 == digits_value(s.subrange(q as int, q + n)))
                &&& (minute is Some <==> digits_value(s.subrange(q + n + 1, q + n + 1 + m)) <= 59)
                &&& (minute is Some ==> minute->Some_0 == digits_value(
                    s.subrange(q + n + 1, q + n + 1 + m),
                ))
            }),
        decreases s.len() - p + (if found is None { 1int } else { 0 }),
    {
        let (e1, hour) = read_digits(b, p, 23);
        if e1 > p && e1 < b.len() && e1 + 1 < b.len() && b[e1] == 58 && 48 <= b[e1 + 1] && b[e1 + 1] <= 57 {
            let (_e2, minute) = read_digits(b, e1 + 1, 59);
            assert(clock_match_at(s, p as int));
            found = Some((p, hour, minute));
        } else {
            assert(!clock_match_at(s, p as int));
            p += 1;
        }
    }
    let (hour, minute) = match found {
        None => {
            assert(first_clock_match(s, p as int) is None);
            return Err(ParseError::InvalidFormat);
        },
        Some((_, h, m)) => (h, m),
    };
    match (hour, minute) {
        (Some(h), Some(m)) => {
            let fire = next_at_fire(now.unix, now.offset, h as u8, m as u8);
            if fire > MAX_UNIX {
                Err(ParseError::OutOfRange)
            } else {
                Ok(LocalTime { unix: fire, offset: now.offset })
            }
        },
        _ => Err(ParseError::OutOfRange),
    }
}

} // verus!
