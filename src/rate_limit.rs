//! Rate-limit snapshots read from response headers, and how they are shown.
use vstd::prelude::*;
use crate::text::{push_char, push_two_digits, two_digits};

verus! {

/// The API quota as reported by one response.
#[derive(Clone, Copy, Debug, Default, PartialEq, Eq, Structural)]
pub struct RateLimitInfo {
    pub limit: u32,
    pub remaining: u32,
    /// When the quota is restored, in seconds since the Unix epoch.
    pub reset_timestamp: u64,
}

/// How close the quota is to running out.
#[derive(Clone, Copy, Debug, PartialEq, Eq, Structural)]
pub enum RateLimitLevel {
    /// More than half of the quota is left.
    Normal,
    /// More than a fifth, and at most half, is left.
    Warning,
    /// At most a fifth is left.
    Danger,
}

/// A local wall-clock time of day.
#[derive(Clone, Copy, Debug, PartialEq, Eq, Structural)]
pub struct ClockTime {
    pub hours: u32,
    pub minutes: u32,
}

pub open spec fn is_digit(c: char) -> bool {
    '0' <= c <= '9'
}

/// The value of a run of decimal digits.
pub open spec fn digits_value(s: Seq<char>) -> nat
    decreases s.len(),
{
    if s.len() == 0 {
        0
    } else {
        digits_value(s.drop_last()) * 10 + (s.last() as nat - 48) as nat
    }
}

/// The digits of an unsigned number: the text after an optional leading `+`.
pub open spec fn unsigned_digits(s: Seq<char>) -> Seq<char> {
    if s.len() > 0 && s[0] == '+' {
        s.drop_first()
    } else {
        s
    }
}

/// Whether `s` is the text of an unsigned decimal number: an optional `+`
/// and at least one digit, nothing else.
pub open spec fn is_unsigned_text(s: Seq<char>) -> bool {
    let d = unsigned_digits(s);
    d.len() > 0 && forall|i: int| 0 <= i < d.len() ==> is_digit(#[trigger] d[i])
}

/// The number that `s` reads as, when it is one and does not exceed `max`.
pub open spec fn parsed_unsigned(s: Seq<char>, max: nat) -> Option<nat> {
    if is_unsigned_text(s) && digits_value(unsigned_digits(s)) <= max {
        Some(digits_value(unsigned_digits(s)))
    } else {
        None
    }
}

/// A header's number: 0 when the header is missing or is not a number in range.
pub open spec fn header_number(h: Option<Seq<char>>, max: nat) -> nat {
    match h {
        Some(s) => match parsed_unsigned(s, max) {
            Some(v) => v,
            None => 0,
        },
        None => 0,
    }
}

pub open spec fn text_of(h: Option<&str>) -> Option<Seq<char>> {
    match h {
        Some(s) => Some(s@),
        None => None,
    }
}

/// The snapshot for the three header values; none when the limit is missing or 0.
pub open spec fn rate_limit_of(
    limit: Option<Seq<char>>,
    remaining: Option<Seq<char>>,
    reset: Option<Seq<char>>,
) -> Option<RateLimitInfo> {
    let l = header_number(limit, u32::MAX as nat);
    if l > 0 {
        Some(
            RateLimitInfo {
                limit: l as u32,
                remaining: header_number(remaining, u32::MAX as nat) as u32,
                reset_timestamp: header_number(reset, u64::MAX as nat) as u64,
            },
        )
    } else {
        None
    }
}

pub open spec fn level_of(info: RateLimitInfo) -> RateLimitLevel {
    if 2 * info.remaining > info.limit {
        RateLimitLevel::Normal
    } else if 5 * info.remaining > info.limit {
        RateLimitLevel::Warning
    } else {
        RateLimitLevel::Danger
    }
}

/// The time of day as `HH:MM`.
pub open spec fn clock_text(t: ClockTime) -> Seq<char> {
    two_digits(t.hours as nat) + seq![':'] + two_digits(t.minutes as nat)
}

proof fn lemma_digits_value_prefix(t: Seq<char>, k: int)
    requires
        0 <= k <= t.len(),
    ensures
        digits_value(t) >= digits_value(t.subrange(0, k)),
    decreases t.len(),
{
    if k < t.len() {
        lemma_digits_value_prefix(t.drop_last(), k);
        assert(t.drop_last().subrange(0, k) =~= t.subrange(0, k));
    } else {
        assert(t.subrange(0, k) =~= t);
    }
}

/// Reads `s` as an unsigned decimal number no greater than `max`: an optional
/// `+` followed by one or more digits, nothing else.
pub fn parse_unsigned(s: &str, max: u64) -> (r: Option<u64>)
    ensures
        r matches Some(v) ==> parsed_unsigned(s@, max as nat) == Some(v as nat),
        r is None ==> parsed_unsigned(s@, max as nat) is None,
{
    let ghost start: int = if s@.len() > 0 && s@[0] == '+' { 1 } else { 0 };
    let mut value: u64 = 0;
    let mut first = true;
    let mut any_digit = false;
    for c in it: s.chars()
        invariant
            it.seq() == s@,
            start == (if s@.len() > 0 && s@[0] == '+' { 1int } else { 0int }),
            first <==> it.index() == 0,
            value <= max,
            it.index() < start ==> it.index() == 0 && value == 0,
            it.index() >= start ==> {
                let d = s@.subrange(start, it.index() as int);
                &&& forall|i: int| 0 <= i < d.len() ==> is_digit(#[trigger] d[i])
                &&& value == digits_value(d)
            },
            any_digit <==> it.index() > start,
    {
        let ghost i = it.index() as int;
        assert(c == s@[i]);
        if first && c == '+' {
            first = false;
            assert(s@.subrange(start, i + 1) =~= Seq::<char>::empty());
        } else {
            first = false;
            if !('0' <= c && c <= '9') {
                proof {
                    let d = unsigned_digits(s@);
                    assert(d[i - start] == c);
                }
                return None;
            }
            let next: u128 = value as u128 * 10 + (c as u32 - 48) as u128;
            proof {
                let d = s@.subrange(start, i + 1);
                assert(d.drop_last() =~= s@.subrange(start, i));
                assert(digits_value(d) == next);
            }
            if next > max as u128 {
                proof {
                    let d = unsigned_digits(s@);
                    assert(d =~= s@.subrange(start, s@.len() as int));
                    assert(d.subrange(0, i + 1 - start) =~= s@.subrange(start, i + 1));
                    lemma_digits_value_prefix(d, i + 1 - start);
                }
                return None;
            }
            value = next as u64;
            any_digit = true;
            proof {
                let d = s@.subrange(start, i + 1);
                assert(d =~= s@.subrange(start, i).push(c));
                assert forall|j: int| 0 <= j < d.len() implies is_digit(#[trigger] d[j]) by {
                    if j < d.len() - 1 {
                        assert(d[j] == s@.subrange(start, i)[j]);
                    }
                }
                assert(value == digits_value(d));
            }
        }
    }
    proof {
        assert(unsigned_digits(s@) =~= s@.subrange(start, s@.len() as int));
    }
    if any_digit {
        Some(value)
    } else {
        None
    }
}

/// The number in a header value, 0 when it is missing or not a number in range.
fn header_value(h: Option<&str>, max: u64) -> (r: u64)
    ensures
        r == header_number(text_of(h), max as nat),
{
    match h {
        Some(s) => match parse_unsigned(s, max) {
            Some(v) => v,
            None => 0,
        },
        None => 0,
    }
}

/// Builds the snapshot from the values of the `x-ratelimit-limit`,
/// `x-ratelimit-remaining` and `x-ratelimit-reset` headers; none when the
/// limit is missing, unreadable or 0.
pub fn rate_limit_from_headers(limit: Option<&str>, remaining: Option<&str>, reset: Option<&str>) -> (r: Option<RateLimitInfo>)
    ensures
        r == rate_limit_of(text_of(limit), text_of(remaining), text_of(reset)),
{
    let l = header_value(limit, u32::MAX as u64);
    let rem = header_value(remaining, u32::MAX as u64);
    let reset_timestamp = header_value(reset, u64::MAX);
    if l > 0 {
        Some(RateLimitInfo { limit: l as u32, remaining: rem as u32, reset_timestamp })
    } else {
        None
    }
}

impl RateLimitInfo {
    /// How much of the quota is left: more than half, more than a fifth, or less.
    pub fn level(&self) -> (r: RateLimitLevel)
        ensures
            r == level_of(*self),
    {
        let remaining = self.remaining as u64;
        let limit = self.limit as u64;
        if 2 * remaining > limit {
            RateLimitLevel::Normal
        } else if 5 * remaining > limit {
            RateLimitLevel::Warning
        } else {
            RateLimitLevel::Danger
        }
    }

    /// Whether the reset time is worth showing: fewer than ten requests left.
    pub fn shows_reset_time(&self) -> (r: bool)
        ensures
            r == (self.remaining < 10),
    {
        self.remaining < 10
    }
}

impl ClockTime {
    /// The time as `HH:MM`, each part padded to two digits.
    pub fn format(&self) -> (r: String)
        ensures
            r@ == clock_text(*self),
    {
        let mut s = String::new();
        push_two_digits(&mut s, self.hours as u64);
        push_char(&mut s, ':');
        push_two_digits(&mut s, self.minutes as u64);
        assert(s@ =~= clock_text(*self));
        s
    }
}

} // verus!
