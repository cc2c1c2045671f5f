//! The configured date range of a backtest, and which bars fall in it.

use vstd::prelude::*;

use crate::bars::BarData;
use crate::calendar::{datetime_value, parse_datetime_value};
use crate::stamp::{lemma_stamp_order, stamp_le, stamp_lt, Stamp};
use crate::text::{lemma_trimmed_idempotent, trim, trimmed};

verus! {

/// A configured bound that does not read as a date-time: which bound, and
/// its trimmed text.
#[derive(Debug)]
pub enum ConfigError {
    InvalidDatetime { field: String, value: String },
}

/// The instants a backtest covers; a missing bound leaves that side open.
#[derive(Clone, Copy, Debug)]
pub struct DateRange {
    pub start: Option<Stamp>,
    pub end: Option<Stamp>,
}

impl DateRange {
    /// At least one bound is set.
    pub open spec fn active(&self) -> bool {
        self.start is Some || self.end is Some
    }

    /// `dt` lies within the range, bounds included.
    pub open spec fn holds(&self, dt: Stamp) -> bool {
        &&& (self.start matches Some(s) ==> !stamp_lt(dt, s))
        &&& (self.end matches Some(e) ==> !stamp_lt(e, dt))
    }

    /// The range configured by the `start` and `end` texts: an empty (or
    /// all white space) text leaves its side open, a date alone opens the
    /// range at midnight and closes it at the last nanosecond of the day.
    /// The start is read first, so its error comes first.
    pub fn from_config(start: &str, end: &str) -> (res: Result<DateRange, ConfigError>)
        ensures
            match config_bound(start@, false) {
                Err(()) => res matches Err(ConfigError::InvalidDatetime { field, value }) && field@
                    == "start"@ && value@ == trimmed(start@),
                Ok(s) => match config_bound(end@, true) {
                    Err(()) => res matches Err(ConfigError::InvalidDatetime { field, value })
                        && field@ == "end"@ && value@ == trimmed(end@),
                    Ok(e) => res matches Ok(r) && r.start == s && r.end == e,
                },
            },
    {
        let s = parse_config_datetime(start, false, "start")?;
        let e = parse_config_datetime(end, true, "end")?;
        Ok(DateRange { start: s, end: e })
    }

    /// Whether a bound is set.
    pub fn is_active(&self) -> (res: bool)
        ensures
            res == self.active(),
    {
        self.start.is_some() || self.end.is_some()
    }

    /// Whether the bar's instant lies in the range; every bar does when no
    /// bound is set.
    pub fn contains_bar<P, O>(&self, bar: &BarData<P, O>) -> (res: bool)
        ensures
            res == self.holds(bar.parsed_dt),
    {
        if !self.is_active() {
            return true;
        }
        let dt = bar.parsed_dt;
        if let Some(start) = self.start {
            if dt.is_before(&start) {
                return false;
            }
        }
        if let Some(end) = self.end {
            if end.is_before(&dt) {
                return false;
            }
        }
        true
    }
}

/// Law: a range holds an instant exactly when the instant is no earlier than
/// a set start and no later than a set end, to the nanosecond. An instant
/// strictly before the start, or strictly after the end (even on the end's
/// own day), is out of the range.
pub proof fn lemma_range_bounds(r: DateRange, dt: Stamp)
    ensures
        r.start matches Some(s) && stamp_lt(dt, s) ==> !r.holds(dt),
        r.end matches Some(e) && stamp_lt(e, dt) ==> !r.holds(dt),
        (r.start matches Some(s) ==> stamp_le(s, dt)) && (r.end matches Some(e) ==> stamp_le(
            dt,
            e,
        )) ==> r.holds(dt),
        r.start is None && r.end is None ==> r.holds(dt),
{
    if let Some(s) = r.start {
        lemma_stamp_order(s, dt, s);
    }
    if let Some(e) = r.end {
        lemma_stamp_order(e, dt, e);
    }
}

/// What a configured bound denotes: open (`None`) for blank text, else the
/// date-time the text reads as; `Err` where it reads as none.
pub open spec fn config_bound(value: Seq<char>, date_only_is_end: bool) -> Result<
    Option<Stamp>,
    (),
> {
    if trimmed(value).len() == 0 {
        Ok(None)
    } else {
        match datetime_value(value, date_only_is_end) {
            Some(dt) => Ok(Some(dt)),
            None => Err(()),
        }
    }
}

/// Law: a blank bound, and only a blank one, is open; a bound that reads as
/// a date-time is that date-time; any other bound is refused.
pub proof fn lemma_config_bound(value: Seq<char>, date_only_is_end: bool)
    ensures
        trimmed(value).len() == 0 <==> config_bound(value, date_only_is_end) == Ok::<
            Option<Stamp>,
            (),
        >(None),
        trimmed(value).len() > 0 && datetime_value(value, date_only_is_end) is Some
            ==> config_bound(value, date_only_is_end) == Ok::<Option<Stamp>, ()>(
            datetime_value(value, date_only_is_end),
        ),
        trimmed(value).len() > 0 && datetime_value(value, date_only_is_end) is None
            ==> config_bound(value, date_only_is_end) is Err,
{
}

/// Reads one configured bound; the error names `field_name` and the trimmed
/// text.
pub fn parse_config_datetime(value: &str, date_only_is_end: bool, field_name: &str) -> (res:
    Result<Option<Stamp>, ConfigError>)
    ensures
        match config_bound(value@, date_only_is_end) {
            Ok(b) => res == Ok::<Option<Stamp>, ConfigError>(b),
            Err(()) => res matches Err(ConfigError::InvalidDatetime { field, value: v }) && field@
                == field_name@ && v@ == trimmed(value@),
        },
{
    let t = trim(value);
    if t.unicode_len() == 0 {
        return Ok(None);
    }
    proof {
        lemma_trimmed_idempotent(value@);
    }
    match parse_datetime_value(t, date_only_is_end) {
        Some(dt) => Ok(Some(dt)),
        None => Err(
            ConfigError::InvalidDatetime {
                field: String::from_str(field_name),
                value: String::from_str(t),
            },
        ),
    }
}

/// Law: with no bound set, filtering keeps every bar, in order.
pub proof fn lemma_open_range_keeps_all<P, O>(bars: Seq<BarData<P, O>>, date_range: DateRange)
    requires
        !date_range.active(),
    ensures
        bars.filter(|b: BarData<P, O>| date_range.holds(b.parsed_dt)) == bars,
    decreases bars.len(),
{
    reveal_with_fuel(Seq::<_>::filter, 1);
    if bars.len() > 0 {
        lemma_open_range_keeps_all(bars.drop_last(), date_range);
        assert(bars.drop_last().push(bars.last()) =~= bars);
    }
}

/// The bars whose instants lie in the range, in their order. With no bound
/// set every bar is kept.
pub fn filter_bars_by_date_range<P, O>(bars: Vec<BarData<P, O>>, date_range: &DateRange) -> (res:
    Vec<BarData<P, O>>)
    ensures
        res@ == bars@.filter(|b: BarData<P, O>| date_range.holds(b.parsed_dt)),
{
    let ghost pred = |b: BarData<P, O>| date_range.holds(b.parsed_dt);
    let ghost all = bars@;
    let mut filtered: Vec<BarData<P, O>> = Vec::new();
    for bar in it: bars
        invariant
            it.seq() == all,
            pred == (|b: BarData<P, O>| date_range.holds(b.parsed_dt)),
            filtered@ == all.take(it.index() as int).filter(pred),
    {
        let ghost i = it.index();
        let ghost prev = filtered@;
        let keep = date_range.contains_bar(&bar);
        proof {
            reveal_with_fuel(Seq::<_>::filter, 1);
            assert(all.take(i + 1).drop_last() =~= all.take(i as int));
            assert(all.take(i + 1).last() == bar);
            assert(pred(bar) == keep);
            if keep {
                assert(all.take(i + 1).filter(pred) == prev.push(bar));
            } else {
                assert(all.take(i + 1).filter(pred) == prev);
            }
        }
        if keep {
            filtered.push(bar);
        }
    }
    assert(all.take(all.len() as int) =~= all);
    filtered
}

} // verus!
