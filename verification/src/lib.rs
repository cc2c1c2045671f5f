//! Decision logic of a bar-by-bar backtesting engine: calendar stamps and
//! date ranges, bar validation, the multi-feed timeline, order parsing and
//! matching, order records and the integer parts of the statistics.

pub mod bars;
pub mod calendar;
pub mod config;
pub mod context;
pub mod factor;
pub mod orders;
pub mod records;
pub mod stamp;
pub mod stats;
pub mod text;
pub mod timeline;
