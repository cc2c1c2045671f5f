//! Calendar date-times as plain fields, ordered chronologically.

use vstd::prelude::*;

verus! {

/// A calendar date-time, field by field. For values produced by the
/// calendar parser, comparing the fields lexicographically is comparing
/// the instants chronologically.
#[derive(Clone, Copy, Debug, PartialEq, Eq, Structural)]
pub struct Stamp {
    pub year: i32,
    pub month: u32,
    pub day: u32,
    pub hour: u32,
    pub minute: u32,
    pub second: u32,
    pub nano: u32,
}

/// `a` comes strictly before `b`.
pub open spec fn stamp_lt(a: Stamp, b: Stamp) -> bool {
    ||| a.year < b.year
    ||| a.year == b.year && a.month < b.month
    ||| a.year == b.year && a.month == b.month && a.day < b.day
    ||| a.year == b.year && a.month == b.month && a.day == b.day && a.hour < b.hour
    ||| a.year == b.year && a.month == b.month && a.day == b.day && a.hour == b.hour
        && a.minute < b.minute
    ||| a.year == b.year && a.month == b.month && a.day == b.day && a.hour == b.hour
        && a.minute == b.minute && a.second < b.second
    ||| a.year == b.year && a.month == b.month && a.day == b.day && a.hour == b.hour
        && a.minute == b.minute && a.second == b.second && a.nano < b.nano
}

/// `a` comes no later than `b`.
pub open spec fn stamp_le(a: Stamp, b: Stamp) -> bool {
    stamp_lt(a, b) || a == b
}

impl Stamp {
    /// Whether `self` comes strictly before `other`.
    pub fn is_before(&self, other: &Stamp) -> (res: bool)
        ensures
            res == stamp_lt(*self, *other),
    {
        if self.year != other.year {
            return self.year < other.year;
        }
        if self.month != other.month {
            return self.month < other.month;
        }
        if self.day != other.day {
            return self.day < other.day;
        }
        if self.hour != other.hour {
            return self.hour < other.hour;
        }
        if self.minute != other.minute {
            return self.minute < other.minute;
        }
        if self.second != other.second {
            return self.second < other.second;
        }
        self.nano < other.nano
    }
}

/// Law: the order is chronological, field by field from the year down to
/// the nanosecond: an earlier year comes first whatever the rest; within a
/// year an earlier month comes first whatever the day and time; within a
/// month an earlier day; and so on down to the nanosecond. Equal stamps are
/// not before one another.
pub proof fn lemma_stamp_chronological(a: Stamp, b: Stamp)
    ensures
        a.year < b.year ==> stamp_lt(a, b),
        a.year == b.year && a.month < b.month ==> stamp_lt(a, b),
        a.year == b.year && a.month == b.month && a.day < b.day ==> stamp_lt(a, b),
        a.year == b.year && a.month == b.month && a.day == b.day && a.hour < b.hour ==> stamp_lt(
            a,
            b,
        ),
        a.year == b.year && a.month == b.month && a.day == b.day && a.hour == b.hour && a.minute
            < b.minute ==> stamp_lt(a, b),
        a.year == b.year && a.month == b.month && a.day == b.day && a.hour == b.hour && a.minute
            == b.minute && a.second < b.second ==> stamp_lt(a, b),
        a.year == b.year && a.month == b.month && a.day == b.day && a.hour == b.hour && a.minute
            == b.minute && a.second == b.second && a.nano < b.nano ==> stamp_lt(a, b),
        a == b ==> !stamp_lt(a, b),
        stamp_lt(a, b) ==> !stamp_lt(b, a),
{
}

/// The chronological order is a strict total order.
pub proof fn lemma_stamp_order(a: Stamp, b: Stamp, c: Stamp)
    ensures
        !stamp_lt(a, a),
        stamp_lt(a, b) ==> !stamp_lt(b, a),
        stamp_lt(a, b) || a == b || stamp_lt(b, a),
        stamp_lt(a, b) && stamp_lt(b, c) ==> stamp_lt(a, c),
{
}

} // verus!
