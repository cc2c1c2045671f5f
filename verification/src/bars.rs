//! Bars as the engine holds them, and the checks each raw bar goes through.

use vstd::prelude::*;

use crate::calendar::{datetime_value, parse_datetime_value};
use crate::stamp::Stamp;

verus! {

/// A bar: its datetime text, the instant read from it, its close price, its
/// symbol, and the bar object as the caller handed it in.
pub struct BarData<P, O> {
    pub datetime: Option<String>,
    pub parsed_dt: Stamp,
    pub close: P,
    pub symbol: Option<String>,
    pub source: O,
}

/// A field of a record handed in by the caller: missing, present but of the
/// wrong kind, or present with a value.
pub enum Field<V> {
    Missing,
    WrongKind,
    Value(V),
}

/// Why a raw bar was refused; `bar_idx` is its place in the list.
#[derive(Debug)]
pub enum BarError {
    DatetimeNotText { bar_idx: usize },
    MissingDatetime { bar_idx: usize },
    UnparseableDatetime { bar_idx: usize, text: String },
    MissingClose { bar_idx: usize },
}

/// Checks one raw bar: its `datetime` must be present as text and read as a
/// date-time (a date alone is its midnight), and its `close` must be present
/// as a number. These are checked in that order.
pub fn extract_bar<P, O>(
    bar_idx: usize,
    datetime: Field<String>,
    close: Option<P>,
    symbol: Option<String>,
    source: O,
) -> (res: Result<BarData<P, O>, BarError>)
    ensures
        match datetime {
            Field::WrongKind => res matches Err(BarError::DatetimeNotText { bar_idx: i }) && i
                == bar_idx,
            Field::Missing => res matches Err(BarError::MissingDatetime { bar_idx: i }) && i
                == bar_idx,
            Field::Value(t) => match datetime_value(t@, false) {
                None => res matches Err(BarError::UnparseableDatetime { bar_idx: i, text: u })
                    && i == bar_idx && u@ == t@,
                Some(dt) => match close {
                    None => res matches Err(BarError::MissingClose { bar_idx: i }) && i
                        == bar_idx,
                    Some(c) => res matches Ok(b) && b.parsed_dt == dt && b.close == c
                        && b.symbol == symbol && b.source == source && (b.datetime matches Some(
                        d) && d@ == t@),
                },
            },
        },
{
    let text = match datetime {
        Field::Value(t) => t,
        Field::WrongKind => {
            return Err(BarError::DatetimeNotText { bar_idx });
        },
        Field::Missing => {
            return Err(BarError::MissingDatetime { bar_idx });
        },
    };
    let parsed_dt = match parse_datetime_value(text.as_str(), false) {
        Some(dt) => dt,
        None => {
            return Err(BarError::UnparseableDatetime { bar_idx, text });
        },
    };
    match close {
        Some(c) => Ok(BarData { datetime: Some(text), parsed_dt, close: c, symbol, source }),
        None => Err(BarError::MissingClose { bar_idx }),
    }
}

} // verus!
