//! Quiet hours: reading the two times of a schedule and deciding whether a
//! moment of local time falls inside its window.

use vstd::prelude::*;
use chrono::{Datelike, Timelike};
use crate::models::{Schedule, ScheduleView};
use crate::text::{chars_of, digit_of, digit_value, is_digit};

verus! {

/// A moment of local time, as far as quiet hours care.
#[derive(Clone, Copy, Debug, PartialEq, Eq, Structural)]
pub struct LocalTime {
    /// The day of the week; Sunday is 0, Saturday is 6.
    pub weekday: u8,
    /// The hour of the day, `0..=23`.
    pub hour: u8,
    /// The minute of the hour, `0..=59`.
    pub minute: u8,
}

impl LocalTime {
    /// Whether the three fields are in their ranges.
    pub open spec fn in_range(self) -> bool {
        self.weekday < 7 && self.hour < 24 && self.minute < 60
    }

    /// Minutes since local midnight.
    pub open spec fn minute_of_day(self) -> int {
        self.hour * 60 + self.minute
    }
}

/// The number that the decimal digits `s` write.
pub open spec fn decimal_value(s: Seq<char>) -> nat
    decreases s.len(),
{
    if s.len() == 0 {
        0
    } else {
        decimal_value(s.drop_last()) * 10 + digit_value(s.last())
    }
}

/// Whether `s` holds decimal digits only.
pub open spec fn all_digits(s: Seq<char>) -> bool {
    forall|i: int| 0 <= i < s.len() ==> is_digit(#[trigger] s[i])
}

/// `s` without a leading `+`.
pub open spec fn unsigned_part(s: Seq<char>) -> Seq<char> {
    if s.len() > 0 && s[0] == '+' {
        s.subrange(1, s.len() as int)
    } else {
        s
    }
}

/// The `u32` that `s` writes: an optional `+`, then one or more decimal
/// digits, of a value that fits. Anything else writes none.
pub open spec fn parse_number(s: Seq<char>) -> Option<u32> {
    let digits = unsigned_part(s);
    if digits.len() > 0 && all_digits(digits) && decimal_value(digits) <= u32::MAX {
        Some(decimal_value(digits) as u32)
    } else {
        None
    }
}

/// The number of `:` in `s`.
pub open spec fn colons(s: Seq<char>) -> nat
    decreases s.len(),
{
    if s.len() == 0 {
        0
    } else {
        colons(s.drop_last()) + if s.last() == ':' {
            1nat
        } else {
            0nat
        }
    }
}

/// The position of the first `:` in `s`, or the length of `s` without one.
pub open spec fn first_colon(s: Seq<char>) -> int
    decreases s.len(),
{
    if s.len() == 0 {
        0
    } else if s[0] == ':' {
        0
    } else {
        1 + first_colon(s.drop_first())
    }
}

/// The hour and the minute that `s` writes: exactly one `:`, with a number
/// on either side of it. The numbers are not bounded by 23 and 59.
pub open spec fn parse_time(s: Seq<char>) -> Option<(u32, u32)> {
    if colons(s) != 1 {
        None
    } else {
        let at = first_colon(s);
        match (parse_number(s.subrange(0, at)), parse_number(s.subrange(at + 1, s.len() as int))) {
            (Some(h), Some(m)) => Some((h, m)),
            _ => None,
        }
    }
}

/// The day before `day`, for days counted from Sunday as 0.
pub open spec fn day_before(day: u8) -> u8 {
    ((day - 1) % 7) as u8
}

/// Whether the window from minute `start` to minute `end` of the day, open
/// on `days`, holds the moment `now`. With `start < end` the window lies
/// within one day. With `start > end` it runs over midnight, and its part
/// after midnight belongs to the day before. With `start == end` it is empty.
pub open spec fn window_holds(start: int, end: int, days: Seq<u8>, now: LocalTime) -> bool {
    let t = now.minute_of_day();
    if start < end {
        days.contains(now.weekday) && start <= t < end
    } else if start > end {
        (t >= start && days.contains(now.weekday)) || (t < end && days.contains(
            day_before(now.weekday),
        ))
    } else {
        false
    }
}

impl ScheduleView {
    /// Whether the schedule asks for silence at `now`. A schedule with a
    /// time that cannot be read never does.
    pub open spec fn mutes_at(self, now: LocalTime) -> bool {
        match (parse_time(self.start_time), parse_time(self.end_time)) {
            (Some(start), Some(end)) => window_holds(
                start.0 * 60 + start.1,
                end.0 * 60 + end.1,
                self.days,
                now,
            ),
            _ => false,
        }
    }
}

proof fn lemma_decimal_value_prefix(s: Seq<char>, k: int)
    requires
        0 <= k <= s.len(),
    ensures
        decimal_value(s.subrange(0, k)) <= decimal_value(s),
    decreases s.len() - k,
{
    if k == s.len() {
        assert(s.subrange(0, k) =~= s);
    } else {
        lemma_decimal_value_prefix(s, k + 1);
        assert(s.subrange(0, k + 1).drop_last() =~= s.subrange(0, k));
    }
}

fn read_number(chars: &Vec<char>, from: usize, to: usize) -> (r: Option<u32>)
    requires
        from <= to <= chars.len(),
    ensures
        r == parse_number(chars@.subrange(from as int, to as int)),
{
    let ghost s = chars@.subrange(from as int, to as int);
    let mut i: usize = from;
    if i < to && chars[i] == '+' {
        i = i + 1;
    }
    let first: usize = i;
    let ghost digits = chars@.subrange(first as int, to as int);
    assert(digits =~= unsigned_part(s));
    if first == to {
        return None;
    }
    let mut acc: u64 = 0;
    while i < to
        invariant
            from <= first <= i <= to <= chars.len(),
            first < to,
            digits == chars@.subrange(first as int, to as int),
            digits == unsigned_part(chars@.subrange(from as int, to as int)),
            all_digits(digits.subrange(0, i - first)),
            acc == decimal_value(digits.subrange(0, i - first)),
            acc <= u32::MAX,
        decreases to - i,
    {
        let ghost before = digits.subrange(0, i - first);
        let ghost after = digits.subrange(0, i - first + 1);
        assert(after.drop_last() =~= before);
        assert(after.last() == chars@[i as int]);
        match digit_of(chars[i]) {
            None => {
                assert(!is_digit(digits[i - first]));
                return None;
            },
            Some(d) => {
                let next: u64 = acc * 10 + d as u64;
                assert(next == decimal_value(after));
                if next > 0xffff_ffff {
                    proof {
                        lemma_decimal_value_prefix(digits, i - first + 1);
                    }
                    return None;
                }
                assert forall|k: int| 0 <= k < after.len() implies is_digit(#[trigger] after[k]) by {
                    if k < before.len() {
                        assert(after[k] == before[k]);
                    }
                }
                acc = next;
            },
        }
        i = i + 1;
    }
    assert(digits.subrange(0, to - first) =~= digits);
    Some(acc as u32)
}

proof fn lemma_colons_zero(s: Seq<char>)
    requires
        forall|k: int| 0 <= k < s.len() ==> s[k] != ':',
    ensures
        colons(s) == 0,
        first_colon(s) == s.len(),
    decreases s.len(),
{
    if s.len() > 0 {
        lemma_colons_zero(s.drop_last());
        lemma_colons_zero(s.drop_first());
    }
}

proof fn lemma_first_colon(s: Seq<char>, at: int)
    requires
        0 <= at < s.len(),
        s[at] == ':',
        forall|k: int| 0 <= k < at ==> s[k] != ':',
    ensures
        first_colon(s) == at,
    decreases at,
{
    if at > 0 {
        lemma_first_colon(s.drop_first(), at - 1);
    }
}

proof fn lemma_colons_split(s: Seq<char>, k: int)
    requires
        0 <= k <= s.len(),
    ensures
        colons(s) == colons(s.subrange(0, k)) + colons(s.subrange(k, s.len() as int)),
    decreases s.len() - k,
{
    if k == s.len() {
        assert(s.subrange(0, k) =~= s);
        assert(s.subrange(k, s.len() as int) =~= Seq::<char>::empty());
    } else {
        let tail = s.subrange(k, s.len() as int);
        assert(s.drop_last().subrange(0, k) =~= s.subrange(0, k));
        assert(s.drop_last().subrange(k, s.len() - 1) =~= tail.drop_last());
        lemma_colons_split(s.drop_last(), k);
    }
}

fn count_colons(chars: &Vec<char>) -> (r: (usize, usize))
    ensures
        r.0 == colons(chars@),
        r.0 >= 1 ==> r.1 == first_colon(chars@) && r.1 < chars.len(),
{
    let mut count: usize = 0;
    let mut first: usize = 0;
    let mut i: usize = 0;
    while i < chars.len()
        invariant
            i <= chars.len(),
            count <= i,
            count == colons(chars@.subrange(0, i as int)),
            count == 0 ==> forall|k: int| 0 <= k < i ==> chars@[k] != ':',
            count >= 1 ==> first < i && chars@[first as int] == ':' && forall|k: int|
                0 <= k < first ==> chars@[k] != ':',
        decreases chars.len() - i,
    {
        assert(chars@.subrange(0, i + 1).drop_last() =~= chars@.subrange(0, i as int));
        if chars[i] == ':' {
            if count == 0 {
                first = i;
            }
            count = count + 1;
        }
        i = i + 1;
    }
    assert(chars@.subrange(0, chars.len() as int) =~= chars@);
    proof {
        if count >= 1 {
            lemma_first_colon(chars@, first as int);
        }
    }
    (count, first)
}

/// Reads a time of day written as hour, `:`, minute.
pub fn read_time(text: &str) -> (r: Option<(u32, u32)>)
    ensures
        r == parse_time(text@),
{
    let chars = chars_of(text);
    let (count, at) = count_colons(&chars);
    if count != 1 {
        return None;
    }
    let hour = read_number(&chars, 0, at);
    let minute = read_number(&chars, at + 1, chars.len());
    match (hour, minute) {
        (Some(h), Some(m)) => Some((h, m)),
        _ => None,
    }
}

fn holds_day(days: &Vec<u8>, day: u8) -> (r: bool)
    ensures
        r == days@.contains(day),
{
    let mut i: usize = 0;
    while i < days.len()
        invariant
            i <= days.len(),
            forall|k: int| 0 <= k < i ==> days@[k] != day,
        decreases days.len() - i,
    {
        if days[i] == day {
            return true;
        }
        i = i + 1;
    }
    false
}

fn previous_day(day: u8) -> (r: u8)
    ensures
        r == day_before(day),
{
    if day == 0 {
        6
    } else {
        (day - 1) % 7
    }
}

impl Schedule {
    /// Whether notifications are to be silenced at `now`.
    pub fn schedule_mute(&self, now: LocalTime) -> (r: bool)
        ensures
            r == self@.mutes_at(now),
    {
        let start = match read_time(self.start_time.as_str()) {
            Some(t) => t,
            None => { return false; },
        };
        let end = match read_time(self.end_time.as_str()) {
            Some(t) => t,
            None => { return false; },
        };
        let start_mins: u64 = start.0 as u64 * 60 + start.1 as u64;
        let end_mins: u64 = end.0 as u64 * 60 + end.1 as u64;
        let now_mins: u64 = now.hour as u64 * 60 + now.minute as u64;
        if start_mins < end_mins {
            holds_day(&self.days, now.weekday) && now_mins >= start_mins && now_mins < end_mins
        } else if start_mins > end_mins {
            (now_mins >= start_mins && holds_day(&self.days, now.weekday)) || (now_mins < end_mins
                && holds_day(&self.days, previous_day(now.weekday)))
        } else {
            false
        }
    }
}

/// Reads the machine's clock in its local time zone, through
/// `chrono::Local::now` and the accessors `weekday`, `hour` and `minute`.
/// Nothing is claimed of the moment but the ranges that chrono documents
/// for the three numbers.
#[verifier::external_body]
pub(crate) fn local_now() -> (now: LocalTime)
    ensures
        now.in_range(),
{
    let now = chrono::Local::now();
    LocalTime {
        weekday: now.weekday().num_days_from_sunday() as u8,
        hour: now.hour() as u8,
        minute: now.minute() as u8,
    }
}

} // verus!
