//! The integer parts of the run statistics.

use vstd::prelude::*;

use crate::calendar::{datetime_value, elapsed_whole_seconds, parse_datetime_value,
    whole_seconds_between};

verus! {

/// The whole seconds an equity curve spans, from the datetime text of its
/// first point to that of its last; `None` where either is missing or does
/// not read as a date-time, or where the span is not positive.
pub open spec fn curve_span_seconds(first: Option<Seq<char>>, last: Option<Seq<char>>) -> Option<i64> {
    match (first, last) {
        (Some(a), Some(b)) => match (datetime_value(a, false), datetime_value(b, false)) {
            (Some(s), Some(e)) => match elapsed_whole_seconds(s, e) {
                Some(secs) => if secs > 0 {
                    Some(secs)
                } else {
                    None
                },
                None => None,
            },
            _ => None,
        },
        _ => None,
    }
}

/// Law: a span is given only for two present texts that both read as
/// date-times and lie a positive number of whole seconds apart, and it is
/// that number; otherwise there is none.
pub proof fn lemma_curve_span(first: Option<Seq<char>>, last: Option<Seq<char>>)
    ensures
        first is None || last is None ==> curve_span_seconds(first, last) is None,
        curve_span_seconds(first, last) is Some ==> {
            &&& first is Some && last is Some
            &&& datetime_value(first->0, false) is Some
            &&& datetime_value(last->0, false) is Some
            &&& elapsed_whole_seconds(
                datetime_value(first->0, false)->0,
                datetime_value(last->0, false)->0,
            ) == curve_span_seconds(first, last)
            &&& curve_span_seconds(first, last)->0 > 0
        },
        first is Some && last is Some && datetime_value(first->0, false) is Some && datetime_value(
            last->0,
            false,
        ) is Some && elapsed_whole_seconds(
            datetime_value(first->0, false)->0,
            datetime_value(last->0, false)->0,
        ) is Some && elapsed_whole_seconds(
            datetime_value(first->0, false)->0,
            datetime_value(last->0, false)->0,
        )->0 > 0 ==> curve_span_seconds(first, last) == elapsed_whole_seconds(
            datetime_value(first->0, false)->0,
            datetime_value(last->0, false)->0,
        ),
{
}

/// An optional text as characters.
pub open spec fn opt_view(t: Option<&str>) -> Option<Seq<char>> {
    match t {
        Some(s) => Some(s@),
        None => None,
    }
}

/// The whole seconds an equity curve spans (see `curve_span_seconds`);
/// `first` and `last` are the datetime texts of its first and last points.
pub fn equity_curve_elapsed_seconds(first: Option<&str>, last: Option<&str>) -> (res: Option<i64>)
    ensures
        res == curve_span_seconds(opt_view(first), opt_view(last)),
{
    let a = match first {
        Some(a) => a,
        None => {
            return None;
        },
    };
    let b = match last {
        Some(b) => b,
        None => {
            return None;
        },
    };
    let start = match parse_datetime_value(a, false) {
        Some(s) => s,
        None => {
            return None;
        },
    };
    let end = match parse_datetime_value(b, false) {
        Some(e) => e,
        None => {
            return None;
        },
    };
    match whole_seconds_between(&start, &end) {
        Some(secs) => if secs > 0 {
            Some(secs)
        } else {
            None
        },
        None => None,
    }
}

} // verus!
