use engine_rust::bars::Field;
use engine_rust::orders::{
    order_type_str, parse_action_fast, parse_actions_any, side_str, try_match, validate_action_side,
    validate_order_type, ActionError, ActionInput, ActionRecord, ActionsInput, Checked, ListedAction,
    Order, OrderSide, OrderType, PriceOrder,
};

fn record(action: &str) -> ActionRecord<f64> {
    ActionRecord {
        action: Field::Value(action.to_string()),
        order_type: Field::Missing,
        size: Field::Missing,
        price: Field::Missing,
        symbol: Field::Missing,
    }
}

fn parse(input: ActionInput<f64>, seq: &mut u64) -> Result<Option<Order<f64>>, ActionError<f64>> {
    parse_action_fast(&input, 1.0, seq, "DEFAULT")
}

#[test]
fn side_and_type_names() {
    assert_eq!(side_str(OrderSide::Buy), "BUY");
    assert_eq!(side_str(OrderSide::Sell), "SELL");
    assert_eq!(order_type_str(OrderType::Market), "market");
    assert_eq!(order_type_str(OrderType::Limit), "limit");
}

#[test]
fn names_read_back() {
    for side in [OrderSide::Buy, OrderSide::Sell] {
        assert_eq!(validate_action_side::<f64>(side_str(side)).unwrap(), side);
    }
    for t in [OrderType::Market, OrderType::Limit] {
        assert_eq!(validate_order_type::<f64>(order_type_str(t)).unwrap(), t);
    }
}

#[test]
fn sides_ignore_case_and_white_space() {
    assert_eq!(validate_action_side::<f64>(" buy ").unwrap(), OrderSide::Buy);
    assert_eq!(validate_action_side::<f64>("SeLl").unwrap(), OrderSide::Sell);
    match validate_action_side::<f64>(" hold\t") {
        Err(ActionError::InvalidAction(t)) => assert_eq!(t, "HOLD"),
        other => panic!("unexpected {:?}", other),
    }
    assert_eq!(validate_order_type::<f64>(" LIMIT ").unwrap(), OrderType::Limit);
    match validate_order_type::<f64>("Stop") {
        Err(ActionError::InvalidOrderType(t)) => assert_eq!(t, "stop"),
        other => panic!("unexpected {:?}", other),
    }
}

#[test]
fn text_action_is_a_unit_market_order() {
    let mut seq = 1u64;
    let o = parse(ActionInput::Text("buy".to_string()), &mut seq).unwrap().unwrap();
    assert_eq!(o.id, 1);
    assert_eq!(o.side, OrderSide::Buy);
    assert_eq!(o.otype, OrderType::Market);
    assert_eq!(o.size, 1.0);
    assert_eq!(o.limit_price, None);
    assert_eq!(o.symbol, "DEFAULT");
    assert_eq!(seq, 2);
}

#[test]
fn nothing_and_blank_actions_make_no_order() {
    let mut seq = 4u64;
    assert!(parse(ActionInput::Nothing, &mut seq).unwrap().is_none());
    assert!(parse(ActionInput::Text("  ".to_string()), &mut seq).unwrap().is_none());
    assert!(parse(ActionInput::Record(record(" ")), &mut seq).unwrap().is_none());
    let mut r = record("BUY");
    r.action = Field::Missing;
    assert!(parse(ActionInput::Record(r), &mut seq).unwrap().is_none());
    assert_eq!(seq, 4);
}

#[test]
fn invalid_text_side_still_takes_a_number() {
    let mut seq = 9u64;
    match parse(ActionInput::Text("hold".to_string()), &mut seq) {
        Err(ActionError::InvalidAction(t)) => assert_eq!(t, "HOLD"),
        other => panic!("unexpected {:?}", other),
    }
    assert_eq!(seq, 10);
}

#[test]
fn record_with_all_fields() {
    let mut seq = 3u64;
    let r = ActionRecord {
        action: Field::Value("sell".to_string()),
        order_type: Field::Value("Limit".to_string()),
        size: Field::Value(Checked::Valid(2.5)),
        price: Field::Value(Checked::Valid(105.0)),
        symbol: Field::Value(" QQQ".to_string()),
    };
    let o = parse(ActionInput::Record(r), &mut seq).unwrap().unwrap();
    assert_eq!(o.id, 3);
    assert_eq!(o.side, OrderSide::Sell);
    assert_eq!(o.otype, OrderType::Limit);
    assert_eq!(o.size, 2.5);
    assert_eq!(o.limit_price, Some(105.0));
    assert_eq!(o.symbol, " QQQ");
    assert_eq!(seq, 4);
}

#[test]
fn market_record_drops_its_price() {
    let mut seq = 1u64;
    let mut r = record("BUY");
    r.price = Field::Value(Checked::Valid(7.0));
    let o = parse(ActionInput::Record(r), &mut seq).unwrap().unwrap();
    assert_eq!(o.otype, OrderType::Market);
    assert_eq!(o.limit_price, None);
}

#[test]
fn record_errors() {
    let mut seq = 1u64;
    let mut r = record("BUY");
    r.action = Field::WrongKind;
    assert!(matches!(parse(ActionInput::Record(r), &mut seq), Err(ActionError::ActionNotText)));
    let mut r = record("BUY");
    r.order_type = Field::WrongKind;
    assert!(matches!(parse(ActionInput::Record(r), &mut seq), Err(ActionError::OrderTypeNotText)));
    let mut r = record("BUY");
    r.order_type = Field::Value("stop".to_string());
    assert!(matches!(parse(ActionInput::Record(r), &mut seq), Err(ActionError::InvalidOrderType(_))));
    let mut r = record("BUY");
    r.size = Field::WrongKind;
    assert!(matches!(parse(ActionInput::Record(r), &mut seq), Err(ActionError::SizeNotNumeric)));
    let mut r = record("BUY");
    r.size = Field::Value(Checked::Invalid(-1.0));
    assert!(matches!(parse(ActionInput::Record(r), &mut seq), Err(ActionError::InvalidSize(v)) if v == -1.0));
    let mut r = record("BUY");
    r.price = Field::WrongKind;
    assert!(matches!(parse(ActionInput::Record(r), &mut seq), Err(ActionError::PriceNotNumeric)));
    let mut r = record("BUY");
    r.price = Field::Value(Checked::Invalid(0.0));
    assert!(matches!(parse(ActionInput::Record(r), &mut seq), Err(ActionError::InvalidPrice(v)) if v == 0.0));
    let mut r = record("BUY");
    r.symbol = Field::WrongKind;
    assert!(matches!(parse(ActionInput::Record(r), &mut seq), Err(ActionError::InvalidSymbol)));
    let mut r = record("BUY");
    r.symbol = Field::Value(" ".to_string());
    assert!(matches!(parse(ActionInput::Record(r), &mut seq), Err(ActionError::InvalidSymbol)));
    let mut r = record("hold");
    r.size = Field::WrongKind;
    assert!(matches!(parse(ActionInput::Record(r), &mut seq), Err(ActionError::InvalidAction(_))));
    assert_eq!(seq, 1);
    let mut r = record("BUY");
    r.order_type = Field::Value("limit".to_string());
    assert!(matches!(parse(ActionInput::Record(r), &mut seq), Err(ActionError::LimitWithoutPrice)));
    assert_eq!(seq, 2);
    assert!(matches!(parse(ActionInput::Unsupported, &mut seq), Err(ActionError::UnsupportedAction)));
    assert_eq!(seq, 2);
}

#[test]
fn list_orders_are_numbered_consecutively() {
    let mut seq = 10u64;
    let mut with_symbol = record("SELL");
    with_symbol.symbol = Field::Value("BBB".to_string());
    let items = vec![
        ListedAction { symbol: None, action: ActionInput::Record(record("BUY")) },
        ListedAction { symbol: None, action: ActionInput::Nothing },
        ListedAction { symbol: Some("BBB".to_string()), action: ActionInput::Record(with_symbol) },
        ListedAction { symbol: Some("CCC".to_string()), action: ActionInput::Text("buy".to_string()) },
    ];
    let orders = parse_actions_any(&ActionsInput::Many(items), 1.0, &mut seq, "AAA").unwrap();
    assert_eq!(orders.len(), 3);
    assert_eq!(orders.iter().map(|o| o.id).collect::<Vec<_>>(), vec![10, 11, 12]);
    assert_eq!(orders.iter().map(|o| o.symbol.clone()).collect::<Vec<_>>(), vec!["AAA", "BBB", "CCC"]);
    assert_eq!(seq, 13);
}

#[test]
fn list_stops_at_first_refusal() {
    let mut seq = 1u64;
    let items = vec![
        ListedAction { symbol: None, action: ActionInput::Text("BUY".to_string()) },
        ListedAction { symbol: None, action: ActionInput::Unsupported },
        ListedAction { symbol: None, action: ActionInput::Text("SELL".to_string()) },
    ];
    assert!(matches!(
        parse_actions_any(&ActionsInput::Many(items), 1.0, &mut seq, "X"),
        Err(ActionError::UnsupportedAction)
    ));
    assert_eq!(seq, 2);
}

#[test]
fn single_action_gives_at_most_one_order() {
    let mut seq = 1u64;
    let one = parse_actions_any(&ActionsInput::Single(ActionInput::Text("SELL".to_string())), 2.0, &mut seq, "X")
        .unwrap();
    assert_eq!(one.len(), 1);
    assert_eq!(one[0].size, 2.0);
    let none = parse_actions_any(&ActionsInput::Single(ActionInput::Nothing), 2.0, &mut seq, "X").unwrap();
    assert!(none.is_empty());
    assert_eq!(seq, 2);
}

fn order(side: OrderSide, otype: OrderType, limit: Option<f64>) -> Order<f64> {
    Order { id: 1, side, otype, size: 3.0, limit_price: limit, symbol: "X".to_string() }
}

#[test]
fn market_orders_fill_at_last_price() {
    let o = order(OrderSide::Sell, OrderType::Market, None);
    assert_eq!(try_match(&o, 12.5, PriceOrder::Unordered), Some((12.5, 3.0)));
}

#[test]
fn limit_buy_fills_at_or_below_limit() {
    let o = order(OrderSide::Buy, OrderType::Limit, Some(100.0));
    assert_eq!(try_match(&o, 99.0, PriceOrder::Below), Some((100.0, 3.0)));
    assert_eq!(try_match(&o, 100.0, PriceOrder::Equal), Some((100.0, 3.0)));
    assert_eq!(try_match(&o, 101.0, PriceOrder::Above), None);
    assert_eq!(try_match(&o, f64::NAN, PriceOrder::Unordered), None);
}

#[test]
fn limit_sell_fills_at_or_above_limit() {
    let o = order(OrderSide::Sell, OrderType::Limit, Some(100.0));
    assert_eq!(try_match(&o, 101.0, PriceOrder::Above), Some((100.0, 3.0)));
    assert_eq!(try_match(&o, 100.0, PriceOrder::Equal), Some((100.0, 3.0)));
    assert_eq!(try_match(&o, 99.0, PriceOrder::Below), None);
}
