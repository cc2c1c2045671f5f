use engine_rust::context::{accepts_context, context_field, context_key, symbol_or_default, ContextField};
use engine_rust::factor::{factor_sample_count, quantile_bound_indices};
use engine_rust::orders::{Order, OrderSide, OrderType};
use engine_rust::records::{order_record, order_status_counts, StatusCounts};

fn order() -> Order<f64> {
    Order { id: 7, side: OrderSide::Sell, otype: OrderType::Limit, size: 2.0, limit_price: Some(9.5), symbol: "AAA".to_string() }
}

#[test]
fn order_record_copies_the_order() {
    let r = order_record(&order(), Some("2024-01-01".to_string()), "filled", Some(9.4), 2.0, 0.1, 1.5, None);
    assert_eq!(r.order_id, 7);
    assert_eq!(r.symbol, "AAA");
    assert_eq!(r.side, "SELL");
    assert_eq!(r.otype, "limit");
    assert_eq!(r.size, 2.0);
    assert_eq!(r.limit_price, Some(9.5));
    assert_eq!(r.status, "filled");
    assert_eq!(r.datetime.as_deref(), Some("2024-01-01"));
    assert_eq!(r.filled_price, Some(9.4));
    assert_eq!(r.filled_size, 2.0);
    assert_eq!(r.commission, 0.1);
    assert_eq!(r.realized_pnl, 1.5);
    assert_eq!(r.reject_reason, None);
}

#[test]
fn status_counts() {
    let o = order();
    let records = vec![
        order_record(&o, None, "filled", Some(1.0), 1.0, 0.0, 0.0, None),
        order_record(&o, None, "rejected", None, 0.0, 0.0, 0.0, Some("no".to_string())),
        order_record(&o, None, "filled", Some(1.0), 1.0, 0.0, 0.0, None),
        order_record(&o, None, "unfilled", None, 0.0, 0.0, 0.0, None),
        order_record(&o, None, "Filled", None, 0.0, 0.0, 0.0, None),
    ];
    let c = order_status_counts(&records);
    assert_eq!(c, StatusCounts { filled: 2, rejected: 1, unfilled: 1 });
    assert!(c.filled + c.rejected + c.unfilled <= records.len());
    let empty: Vec<engine_rust::records::OrderRecord<f64>> = vec![];
    assert_eq!(order_status_counts(&empty), StatusCounts { filled: 0, rejected: 0, unfilled: 0 });
}

#[test]
fn context_keys_round_trip() {
    let all = [
        ContextField::Position,
        ContextField::AvgCost,
        ContextField::Cash,
        ContextField::Equity,
        ContextField::BarIndex,
        ContextField::Positions,
        ContextField::LastPrices,
    ];
    for f in all {
        assert_eq!(context_field(context_key(f)), Some(f));
    }
    assert_eq!(context_key(ContextField::AvgCost), "avg_cost");
    assert_eq!(context_field("Cash"), None);
    assert_eq!(context_field("volume"), None);
}

#[test]
fn default_symbol() {
    assert_eq!(symbol_or_default(&None), "DEFAULT");
    assert_eq!(symbol_or_default(&Some("SPY".to_string())), "SPY");
    assert!(accepts_context(2));
    assert!(!accepts_context(1));
}

#[test]
fn factor_sample_counts() {
    assert_eq!(factor_sample_count(10, 12, 5, 3), Some(7));
    assert_eq!(factor_sample_count(10, 4, 5, 3), Some(1));
    assert_eq!(factor_sample_count(10, 3, 5, 3), None);
    assert_eq!(factor_sample_count(10, 10, 1, 3), None);
    assert_eq!(factor_sample_count(10, 10, 5, 0), None);
}

#[test]
fn quantile_bounds() {
    assert_eq!(quantile_bound_indices(10, 5), vec![2, 4, 6, 8]);
    assert_eq!(quantile_bound_indices(3, 5), vec![0, 1, 1, 2]);
    assert_eq!(quantile_bound_indices(1, 3), vec![0, 0]);
    assert_eq!(quantile_bound_indices(7, 1), Vec::<usize>::new());
    let b = quantile_bound_indices(13, 7);
    assert!(b.windows(2).all(|w| w[0] <= w[1]));
    assert!(b.iter().all(|&i| i < 13));
}
