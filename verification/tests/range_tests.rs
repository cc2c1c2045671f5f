use engine_rust::bars::{extract_bar, BarData, BarError, Field};
use engine_rust::calendar::parse_datetime_value;
use engine_rust::config::{filter_bars_by_date_range, parse_config_datetime, ConfigError, DateRange};
use engine_rust::stamp::Stamp;

fn bar(text: &str, close: f64) -> BarData<f64, u32> {
    match extract_bar(0, Field::Value(text.to_string()), Some(close), None, 7u32) {
        Ok(b) => b,
        Err(e) => panic!("unexpected {:?}", e),
    }
}

fn closes(bars: &[BarData<f64, u32>]) -> Vec<f64> {
    bars.iter().map(|b| b.close).collect()
}

#[test]
fn blank_bounds_leave_the_range_open() {
    let r = DateRange::from_config("", "  ").unwrap();
    assert!(!r.is_active());
    assert!(r.contains_bar(&bar("1900-01-01", 1.0)));
}

#[test]
fn date_bounds_cover_whole_days() {
    let r = DateRange::from_config("2024-01-02", "2024-01-02").unwrap();
    assert!(r.is_active());
    assert!(r.contains_bar(&bar("2024-01-02 00:00:00", 1.0)));
    assert!(r.contains_bar(&bar("2024-01-02 23:59:59.999999999", 1.0)));
    assert!(!r.contains_bar(&bar("2024-01-01 23:59:59.999", 1.0)));
    assert!(!r.contains_bar(&bar("2024-01-03 00:00:00", 1.0)));
}

#[test]
fn one_sided_ranges() {
    let r = DateRange::from_config("2024-01-02 10:00", "").unwrap();
    assert_eq!(r.end, None);
    assert!(r.contains_bar(&bar("2024-01-02 10:00", 1.0)));
    assert!(!r.contains_bar(&bar("2024-01-02 09:59:59", 1.0)));
    let r = DateRange::from_config("", "2024-01-02").unwrap();
    assert_eq!(r.start, None);
    assert!(r.contains_bar(&bar("2024-01-02 18:00", 1.0)));
    assert!(!r.contains_bar(&bar("2024-01-03", 1.0)));
}

#[test]
fn invalid_start_is_reported_before_end() {
    match DateRange::from_config(" bad ", "worse") {
        Err(ConfigError::InvalidDatetime { field, value }) => {
            assert_eq!(field, "start");
            assert_eq!(value, "bad");
        }
        other => panic!("unexpected {:?}", other),
    }
    match DateRange::from_config("2024-01-01", " nope ") {
        Err(ConfigError::InvalidDatetime { field, value }) => {
            assert_eq!(field, "end");
            assert_eq!(value, "nope");
        }
        other => panic!("unexpected {:?}", other),
    }
}

#[test]
fn config_datetime_reads_bounds() {
    assert_eq!(parse_config_datetime("", false, "start").unwrap(), None);
    assert_eq!(
        parse_config_datetime(" 2024-05-06 ", true, "end").unwrap(),
        parse_datetime_value("2024-05-06", true)
    );
}

#[test]
fn filter_keeps_bars_in_range_in_order() {
    let bars = vec![
        bar("2024-01-01", 1.0),
        bar("2024-01-02 09:00", 2.0),
        bar("2024-01-05", 3.0),
        bar("2024-01-02 15:00", 4.0),
        bar("2024-01-03", 5.0),
    ];
    let r = DateRange::from_config("2024-01-02", "2024-01-03").unwrap();
    let kept = filter_bars_by_date_range(bars, &r);
    assert_eq!(closes(&kept), vec![2.0, 4.0, 5.0]);
}

#[test]
fn open_range_keeps_every_bar() {
    let bars = vec![bar("2024-01-03", 1.0), bar("2024-01-01", 2.0)];
    let r = DateRange { start: None, end: None };
    let kept = filter_bars_by_date_range(bars, &r);
    assert_eq!(closes(&kept), vec![1.0, 2.0]);
}

#[test]
fn extract_bar_accepts_a_good_bar() {
    let b = extract_bar(3, Field::Value("2024-01-02 09:30:00".to_string()), Some(10.5), Some("AAA".to_string()), "raw")
        .unwrap();
    assert_eq!(b.datetime.as_deref(), Some("2024-01-02 09:30:00"));
    assert_eq!(b.parsed_dt, Stamp { year: 2024, month: 1, day: 2, hour: 9, minute: 30, second: 0, nano: 0 });
    assert_eq!(b.close, 10.5);
    assert_eq!(b.symbol.as_deref(), Some("AAA"));
    assert_eq!(b.source, "raw");
}

#[test]
fn extract_bar_errors_in_order() {
    assert!(matches!(
        extract_bar::<f64, ()>(4, Field::WrongKind, None, None, ()),
        Err(BarError::DatetimeNotText { bar_idx: 4 })
    ));
    assert!(matches!(
        extract_bar::<f64, ()>(5, Field::Missing, Some(1.0), None, ()),
        Err(BarError::MissingDatetime { bar_idx: 5 })
    ));
    match extract_bar::<f64, ()>(6, Field::Value("soon".to_string()), None, None, ()) {
        Err(BarError::UnparseableDatetime { bar_idx, text }) => {
            assert_eq!(bar_idx, 6);
            assert_eq!(text, "soon");
        }
        _ => panic!("expected an unparseable datetime"),
    }
    assert!(matches!(
        extract_bar::<f64, ()>(7, Field::Value("2024-01-01".to_string()), None, None, ()),
        Err(BarError::MissingClose { bar_idx: 7 })
    ));
}
