//! Orders: reading what a strategy asks for, matching it against the last
//! price, and the record kept of each order.

use vstd::prelude::*;

use crate::bars::Field;
use crate::text::{is_white_space, lower_text, text_eq, trim_end, trim_start, to_ascii_lowercase, to_ascii_uppercase, trim, trimmed,
    upper_text};

verus! {

#[derive(Clone, Copy, Debug, PartialEq, Eq, Structural)]
pub enum OrderSide {
    Buy,
    Sell,
}

#[derive(Clone, Copy, Debug, PartialEq, Eq, Structural)]
pub enum OrderType {
    Market,
    Limit,
}

/// An order; `P` is the type of sizes and prices.
#[derive(Debug)]
pub struct Order<P> {
    pub id: u64,
    pub side: OrderSide,
    pub otype: OrderType,
    pub size: P,
    pub limit_price: Option<P>,
    pub symbol: String,
}

/// An order with its symbol as text.
pub struct OrderView<P> {
    pub id: u64,
    pub side: OrderSide,
    pub otype: OrderType,
    pub size: P,
    pub limit_price: Option<P>,
    pub symbol: Seq<char>,
}

impl<P> View for Order<P> {
    type V = OrderView<P>;

    open spec fn view(&self) -> OrderView<P> {
        OrderView {
            id: self.id,
            side: self.side,
            otype: self.otype,
            size: self.size,
            limit_price: self.limit_price,
            symbol: self.symbol@,
        }
    }
}

/// Why a strategy's action was refused.
#[derive(Debug)]
pub enum ActionError<P> {
    /// The side, trimmed and upper-cased, is neither BUY nor SELL.
    InvalidAction(String),
    ActionNotText,
    /// The order type, trimmed and lower-cased, is neither market nor limit.
    InvalidOrderType(String),
    OrderTypeNotText,
    SizeNotNumeric,
    /// The size is not a positive finite number.
    InvalidSize(P),
    PriceNotNumeric,
    /// The price is not a positive finite number.
    InvalidPrice(P),
    /// The symbol is not text, or is blank.
    InvalidSymbol,
    LimitWithoutPrice,
    /// The action is neither nothing, text, a record, nor (where several are
    /// accepted) a list.
    UnsupportedAction,
}

/// An `ActionError` with its texts as character sequences.
pub enum ActionFault<P> {
    InvalidAction(Seq<char>),
    ActionNotText,
    InvalidOrderType(Seq<char>),
    OrderTypeNotText,
    SizeNotNumeric,
    InvalidSize(P),
    PriceNotNumeric,
    InvalidPrice(P),
    InvalidSymbol,
    LimitWithoutPrice,
    UnsupportedAction,
}

impl<P> View for ActionError<P> {
    type V = ActionFault<P>;

    open spec fn view(&self) -> ActionFault<P> {
        match self {
            ActionError::InvalidAction(t) => ActionFault::InvalidAction(t@),
            ActionError::ActionNotText => ActionFault::ActionNotText,
            ActionError::InvalidOrderType(t) => ActionFault::InvalidOrderType(t@),
            ActionError::OrderTypeNotText => ActionFault::OrderTypeNotText,
            ActionError::SizeNotNumeric => ActionFault::SizeNotNumeric,
            ActionError::InvalidSize(v) => ActionFault::InvalidSize(*v),
            ActionError::PriceNotNumeric => ActionFault::PriceNotNumeric,
            ActionError::InvalidPrice(v) => ActionFault::InvalidPrice(*v),
            ActionError::InvalidSymbol => ActionFault::InvalidSymbol,
            ActionError::LimitWithoutPrice => ActionFault::LimitWithoutPrice,
            ActionError::UnsupportedAction => ActionFault::UnsupportedAction,
        }
    }
}

/// A number handed in by the caller, with the caller's verdict on whether
/// it is a positive finite number.
pub enum Checked<P> {
    Valid(P),
    Invalid(P),
}

/// The fields of an action record; a missing size stands for the default
/// size.
pub struct ActionRecord<P> {
    pub action: Field<String>,
    pub order_type: Field<String>,
    pub size: Field<Checked<P>>,
    pub price: Field<Checked<P>>,
    pub symbol: Field<String>,
}

/// What a strategy returned for one bar.
pub enum ActionInput<P> {
    /// No action.
    Nothing,
    /// A side alone, as text: a market order of the default size.
    Text(String),
    /// An action record.
    Record(ActionRecord<P>),
    /// Anything else.
    Unsupported,
}

/// One element of a list of actions, with the symbol it carries where that
/// is text.
pub struct ListedAction<P> {
    pub symbol: Option<String>,
    pub action: ActionInput<P>,
}

/// What a strategy returned for one step of a multi-feed run.
pub enum ActionsInput<P> {
    Many(Vec<ListedAction<P>>),
    Single(ActionInput<P>),
}

/// The name of a side.
pub open spec fn side_text(side: OrderSide) -> Seq<char> {
    match side {
        OrderSide::Buy => "BUY"@,
        OrderSide::Sell => "SELL"@,
    }
}

/// The name of an order type.
pub open spec fn order_type_text(otype: OrderType) -> Seq<char> {
    match otype {
        OrderType::Market => "market"@,
        OrderType::Limit => "limit"@,
    }
}

/// The side's name: `BUY` or `SELL`.
pub fn side_str(side: OrderSide) -> (res: &'static str)
    ensures
        res@ == side_text(side),
{
    match side {
        OrderSide::Buy => "BUY",
        OrderSide::Sell => "SELL",
    }
}

/// The order type's name: `market` or `limit`.
pub fn order_type_str(otype: OrderType) -> (res: &'static str)
    ensures
        res@ == order_type_text(otype),
{
    match otype {
        OrderType::Market => "market",
        OrderType::Limit => "limit",
    }
}

/// The side a text names: trimmed and upper-cased, it must read BUY or SELL.
pub open spec fn action_side(action: Seq<char>) -> Option<OrderSide> {
    let u = upper_text(trimmed(action));
    if u == "BUY"@ {
        Some(OrderSide::Buy)
    } else if u == "SELL"@ {
        Some(OrderSide::Sell)
    } else {
        None
    }
}

/// The order type a text names: trimmed and lower-cased, it must read
/// market or limit.
pub open spec fn action_order_type(otype: Seq<char>) -> Option<OrderType> {
    let l = lower_text(trimmed(otype));
    if l == "market"@ {
        Some(OrderType::Market)
    } else if l == "limit"@ {
        Some(OrderType::Limit)
    } else {
        None
    }
}

/// Reads a side, ignoring surrounding white space and ASCII case.
pub fn validate_action_side<P>(action: &str) -> (res: Result<OrderSide, ActionError<P>>)
    ensures
        match action_side(action@) {
            Some(side) => res == Ok::<OrderSide, ActionError<P>>(side),
            None => res matches Err(e) && e@ == ActionFault::<P>::InvalidAction(
                upper_text(trimmed(action@)),
            ),
        },
{
    let u = to_ascii_uppercase(trim(action));
    if text_eq(u.as_str(), "BUY") {
        Ok(OrderSide::Buy)
    } else if text_eq(u.as_str(), "SELL") {
        Ok(OrderSide::Sell)
    } else {
        Err(ActionError::InvalidAction(u))
    }
}

/// Reads an order type, ignoring surrounding white space and ASCII case.
pub fn validate_order_type<P>(otype: &str) -> (res: Result<OrderType, ActionError<P>>)
    ensures
        match action_order_type(otype@) {
            Some(t) => res == Ok::<OrderType, ActionError<P>>(t),
            None => res matches Err(e) && e@ == ActionFault::<P>::InvalidOrderType(
                lower_text(trimmed(otype@)),
            ),
        },
{
    let l = to_ascii_lowercase(trim(otype));
    if text_eq(l.as_str(), "market") {
        Ok(OrderType::Market)
    } else if text_eq(l.as_str(), "limit") {
        Ok(OrderType::Limit)
    } else {
        Err(ActionError::InvalidOrderType(l))
    }
}

/// Law: the name of a side reads back as that side, and the name of an
/// order type as that type.
pub proof fn lemma_names_round_trip(side: OrderSide, otype: OrderType)
    ensures
        action_side(side_text(side)) == Some(side),
        action_order_type(order_type_text(otype)) == Some(otype),
{
    reveal_strlit("BUY");
    reveal_strlit("SELL");
    reveal_strlit("market");
    reveal_strlit("limit");
    let t = side_text(side);
    lemma_plain_name_trimmed(t);
    assert(upper_text(t) =~= t);
    let o = order_type_text(otype);
    lemma_plain_name_trimmed(o);
    assert(lower_text(o) =~= o);
    assert("BUY"@ != "SELL"@) by {
        assert("BUY"@.len() != "SELL"@.len());
    }
    assert("market"@ != "limit"@) by {
        assert("market"@.len() != "limit"@.len());
    }
}

/// A name that starts and ends with a letter is its own trimmed form.
proof fn lemma_plain_name_trimmed(t: Seq<char>)
    requires
        t.len() > 0,
        !is_white_space(t[0]),
        !is_white_space(t.last()),
    ensures
        trimmed(t) == t,
{
    assert(trim_start(t) == t);
    assert(trim_end(t) == t);
}

/// The order type of a record: market where none is given.
pub open spec fn record_order_type<P>(f: Field<String>) -> Result<OrderType, ActionFault<P>> {
    match f {
        Field::Missing => Ok(OrderType::Market),
        Field::WrongKind => Err(ActionFault::OrderTypeNotText),
        Field::Value(t) => match action_order_type(t@) {
            Some(o) => Ok(o),
            None => Err(ActionFault::InvalidOrderType(lower_text(trimmed(t@)))),
        },
    }
}

/// The size of a record: the default size where none is given.
pub open spec fn record_size<P>(f: Field<Checked<P>>, default_size: P) -> Result<P, ActionFault<P>> {
    match f {
        Field::Missing => Ok(default_size),
        Field::WrongKind => Err(ActionFault::SizeNotNumeric),
        Field::Value(Checked::Valid(v)) => Ok(v),
        Field::Value(Checked::Invalid(v)) => Err(ActionFault::InvalidSize(v)),
    }
}

/// The price of a record, if any.
pub open spec fn record_price<P>(f: Field<Checked<P>>) -> Result<Option<P>, ActionFault<P>> {
    match f {
        Field::Missing => Ok(None),
        Field::WrongKind => Err(ActionFault::PriceNotNumeric),
        Field::Value(Checked::Valid(v)) => Ok(Some(v)),
        Field::Value(Checked::Invalid(v)) => Err(ActionFault::InvalidPrice(v)),
    }
}

/// The symbol of a record: the default symbol where none is given; a given
/// one must be non-blank text, and is kept as given.
pub open spec fn record_symbol<P>(f: Field<String>, default_symbol: Seq<char>) -> Result<
    Seq<char>,
    ActionFault<P>,
> {
    match f {
        Field::Missing => Ok(default_symbol),
        Field::WrongKind => Err(ActionFault::InvalidSymbol),
        Field::Value(s) => if trimmed(s@).len() == 0 {
            Err(ActionFault::InvalidSymbol)
        } else {
            Ok(s@)
        },
    }
}

/// What an action record asks for, given the sequence number `seq` of the
/// next order: the outcome and the next sequence number. The fields are
/// checked in the order side, type, size, price, symbol; a number is taken
/// before the final check that a limit order has a price.
pub open spec fn record_outcome<P>(
    r: ActionRecord<P>,
    default_size: P,
    seq: u64,
    default_symbol: Seq<char>,
) -> (Result<Option<OrderView<P>>, ActionFault<P>>, u64) {
    match r.action {
        Field::Missing => (Ok(None), seq),
        Field::WrongKind => (Err(ActionFault::ActionNotText), seq),
        Field::Value(a) => if trimmed(a@).len() == 0 {
            (Ok(None), seq)
        } else {
            match action_side(a@) {
                None => (Err(ActionFault::InvalidAction(upper_text(trimmed(a@)))), seq),
                Some(side) => match record_order_type::<P>(r.order_type) {
                    Err(e) => (Err(e), seq),
                    Ok(otype) => match record_size(r.size, default_size) {
                        Err(e) => (Err(e), seq),
                        Ok(size) => match record_price(r.price) {
                            Err(e) => (Err(e), seq),
                            Ok(price) => match record_symbol::<P>(r.symbol, default_symbol) {
                                Err(e) => (Err(e), seq),
                                Ok(symbol) => if otype == OrderType::Limit && price is None {
                                    (Err(ActionFault::LimitWithoutPrice), (seq + 1) as u64)
                                } else {
                                    (
                                        Ok(
                                            Some(
                                                OrderView {
                                                    id: seq,
                                                    side,
                                                    otype,
                                                    size,
                                                    limit_price: if otype == OrderType::Limit {
                                                        price
                                                    } else {
                                                        None
                                                    },
                                                    symbol,
                                                },
                                            ),
                                        ),
                                        (seq + 1) as u64,
                                    )
                                },
                            },
                        },
                    },
                },
            }
        },
    }
}

/// Law: an order read from an action record is what the record says. It
/// has the side its action text names (BUY or SELL, trimmed, any ASCII
/// case), the number it was given, the type the record names (market where
/// none), the size the record gives (the default where none), the symbol
/// the record gives as is (the default where none), and a limit price
/// exactly when it is a limit order, namely the record's price.
pub proof fn lemma_record_order_follows_fields<P>(
    r: ActionRecord<P>,
    default_size: P,
    seq: u64,
    default_symbol: Seq<char>,
)
    ensures
        record_outcome(r, default_size, seq, default_symbol).0 matches Ok(Some(o)) ==> {
            &&& (r.action matches Field::Value(a) && action_side(a@) == Some(o.side))
            &&& o.id == seq
            &&& (r.order_type is Missing ==> o.otype == OrderType::Market)
            &&& (r.order_type matches Field::Value(t) ==> action_order_type(t@) == Some(o.otype))
            &&& (r.size is Missing ==> o.size == default_size)
            &&& (r.size matches Field::Value(Checked::Valid(v)) ==> o.size == v)
            &&& !(r.size is WrongKind)
            &&& !(r.size matches Field::Value(Checked::Invalid(_)))
            &&& (r.symbol is Missing ==> o.symbol == default_symbol)
            &&& (r.symbol matches Field::Value(sym) ==> o.symbol == sym@)
            &&& (o.otype == OrderType::Limit ==> (r.price matches Field::Value(Checked::Valid(p))
                && o.limit_price == Some(p)))
            &&& (o.otype == OrderType::Market ==> o.limit_price is None)
        },
        record_outcome(r, default_size, seq, default_symbol).1 == seq || record_outcome(
            r,
            default_size,
            seq,
            default_symbol,
        ).1 == (seq + 1) as u64,
{
}

/// Law: the checks of an action record come in a fixed order, the first
/// failing one decides the refusal whatever the later fields hold: the
/// action text, then the type, the size, the price, the symbol, and last the
/// price a limit order needs.
pub proof fn lemma_record_check_order<P>(
    r: ActionRecord<P>,
    default_size: P,
    seq: u64,
    default_symbol: Seq<char>,
)
    ensures
        r.action is WrongKind ==> record_outcome(r, default_size, seq, default_symbol).0
            == Err::<Option<OrderView<P>>, ActionFault<P>>(ActionFault::ActionNotText),
        (r.action matches Field::Value(a) && trimmed(a@).len() > 0 && action_side(a@) is None)
            ==> record_outcome(r, default_size, seq, default_symbol).0 is Err && record_outcome(
            r,
            default_size,
            seq,
            default_symbol,
        ).0->Err_0 is InvalidAction,
        (r.action matches Field::Value(a) && action_side(a@) is Some) && r.order_type is WrongKind
            ==> record_outcome(r, default_size, seq, default_symbol).0 == Err::<
            Option<OrderView<P>>,
            ActionFault<P>,
        >(ActionFault::OrderTypeNotText),
        (r.action matches Field::Value(a) && action_side(a@) is Some) && !(
        r.order_type is WrongKind) && record_order_type::<P>(r.order_type) is Ok && r.size is WrongKind
            ==> record_outcome(r, default_size, seq, default_symbol).0 == Err::<
            Option<OrderView<P>>,
            ActionFault<P>,
        >(ActionFault::SizeNotNumeric),
        (r.action matches Field::Value(a) && action_side(a@) is Some) && record_order_type::<P>(
            r.order_type,
        ) is Ok && record_size(r.size, default_size) is Ok && r.price is WrongKind
            ==> record_outcome(r, default_size, seq, default_symbol).0 == Err::<
            Option<OrderView<P>>,
            ActionFault<P>,
        >(ActionFault::PriceNotNumeric),
        (r.action matches Field::Value(a) && action_side(a@) is Some) && record_order_type::<P>(
            r.order_type,
        ) is Ok && record_size(r.size, default_size) is Ok && record_price(r.price) is Ok
            && r.symbol is WrongKind ==> record_outcome(r, default_size, seq, default_symbol).0
            == Err::<Option<OrderView<P>>, ActionFault<P>>(ActionFault::InvalidSymbol),
        (r.action matches Field::Value(a) && action_side(a@) is Some) && record_order_type::<P>(
            r.order_type,
        ) == Ok::<OrderType, ActionFault<P>>(OrderType::Limit) && record_size(r.size, default_size)
            is Ok && r.price is Missing && record_symbol::<P>(r.symbol, default_symbol) is Ok
            ==> record_outcome(r, default_size, seq, default_symbol).0 == Err::<
            Option<OrderView<P>>,
            ActionFault<P>,
        >(ActionFault::LimitWithoutPrice),
{
    if let Field::Value(a) = r.action {
        if action_side(a@) is Some {
            lemma_side_names(a@);
            reveal_strlit("BUY");
            reveal_strlit("SELL");
            assert(trimmed(a@).len() > 0) by {
                if trimmed(a@).len() == 0 {
                    assert(upper_text(trimmed(a@)).len() == 0);
                }
            }
        }
    }
}

/// Law: a side given as text yields a market order of the default size for
/// the default symbol, with the side the text names and the number it was
/// given; blank text yields nothing.
pub proof fn lemma_text_order_follows_text<P>(
    t: String,
    default_size: P,
    seq: u64,
    default_symbol: Seq<char>,
)
    ensures
        action_outcome(ActionInput::Text(t), default_size, seq, default_symbol).0 matches Ok(
            Some(o),
        ) ==> {
            &&& action_side(t@) == Some(o.side)
            &&& o.id == seq
            &&& o.otype == OrderType::Market
            &&& o.size == default_size
            &&& o.limit_price is None
            &&& o.symbol == default_symbol
        },
        trimmed(t@).len() == 0 ==> action_outcome(
            ActionInput::Text(t),
            default_size,
            seq,
            default_symbol,
        ).0 == Ok::<Option<OrderView<P>>, ActionFault<P>>(None),
        trimmed(t@).len() > 0 && action_side(t@) is Some ==> action_outcome(
            ActionInput::Text(t),
            default_size,
            seq,
            default_symbol,
        ).0 is Ok,
{
}

/// Law: BUY and SELL, in any ASCII case and with surrounding white space,
/// name the buy and sell sides.
pub proof fn lemma_side_names(action: Seq<char>)
    ensures
        upper_text(trimmed(action)) == "BUY"@ ==> action_side(action) == Some(OrderSide::Buy),
        upper_text(trimmed(action)) == "SELL"@ ==> action_side(action) == Some(OrderSide::Sell),
        action_side(action) == Some(OrderSide::Buy) ==> upper_text(trimmed(action)) == "BUY"@,
        action_side(action) == Some(OrderSide::Sell) ==> upper_text(trimmed(action)) == "SELL"@,
{
    reveal_strlit("BUY");
    reveal_strlit("SELL");
    assert("BUY"@ != "SELL"@) by {
        assert("BUY"@.len() != "SELL"@.len());
    }
}

/// Law: market and limit, in any ASCII case and with surrounding white
/// space, name the market and limit order types.
pub proof fn lemma_order_type_names(otype: Seq<char>)
    ensures
        lower_text(trimmed(otype)) == "market"@ ==> action_order_type(otype) == Some(
            OrderType::Market,
        ),
        lower_text(trimmed(otype)) == "limit"@ ==> action_order_type(otype) == Some(
            OrderType::Limit,
        ),
        action_order_type(otype) == Some(OrderType::Market) ==> lower_text(trimmed(otype))
            == "market"@,
        action_order_type(otype) == Some(OrderType::Limit) ==> lower_text(trimmed(otype))
            == "limit"@,
{
    reveal_strlit("market");
    reveal_strlit("limit");
    assert("market"@ != "limit"@) by {
        assert("market"@.len() != "limit"@.len());
    }
}

/// What a strategy's action asks for, given the sequence number `seq` of the
/// next order: the outcome and the next sequence number. A side given as
/// text takes its number before the side is checked.
pub open spec fn action_outcome<P>(
    input: ActionInput<P>,
    default_size: P,
    seq: u64,
    default_symbol: Seq<char>,
) -> (Result<Option<OrderView<P>>, ActionFault<P>>, u64) {
    match input {
        ActionInput::Nothing => (Ok(None), seq),
        ActionInput::Text(t) => if trimmed(t@).len() == 0 {
            (Ok(None), seq)
        } else {
            match action_side(t@) {
                Some(side) => (
                    Ok(
                        Some(
                            OrderView {
                                id: seq,
                                side,
                                otype: OrderType::Market,
                                size: default_size,
                                limit_price: None,
                                symbol: default_symbol,
                            },
                        ),
                    ),
                    (seq + 1) as u64,
                ),
                None => (
                    Err(ActionFault::InvalidAction(upper_text(trimmed(t@)))),
                    (seq + 1) as u64,
                ),
            }
        },
        ActionInput::Record(r) => record_outcome(r, default_size, seq, default_symbol),
        ActionInput::Unsupported => (Err(ActionFault::UnsupportedAction), seq),
    }
}

/// The outcome of an exec result against its spec outcome.
pub open spec fn outcome_matches<P>(
    res: Result<Option<Order<P>>, ActionError<P>>,
    spec: Result<Option<OrderView<P>>, ActionFault<P>>,
) -> bool {
    match res {
        Ok(None) => spec == Ok::<Option<OrderView<P>>, ActionFault<P>>(None),
        Ok(Some(o)) => spec == Ok::<Option<OrderView<P>>, ActionFault<P>>(Some(o@)),
        Err(e) => spec == Err::<Option<OrderView<P>>, ActionFault<P>>(e@),
    }
}

/// Whether a text is empty once trimmed.
fn record_text_is_blank(s: &String) -> (res: bool)
    ensures
        res == (trimmed(s@).len() == 0),
{
    trim(s.as_str()).unicode_len() == 0
}

/// Reads the order a strategy's action asks for, if any, numbering it with
/// `order_seq` and moving `order_seq` on (see `action_outcome`).
pub fn parse_action_fast<P: Copy>(
    input: &ActionInput<P>,
    default_size: P,
    order_seq: &mut u64,
    default_symbol: &str,
) -> (res: Result<Option<Order<P>>, ActionError<P>>)
    requires
        *old(order_seq) < u64::MAX,
    ensures
        outcome_matches(
            res,
            action_outcome(*input, default_size, *old(order_seq), default_symbol@).0,
        ),
        *final(order_seq) == action_outcome(
            *input,
            default_size,
            *old(order_seq),
            default_symbol@,
        ).1,
{
    match input {
        ActionInput::Nothing => Ok(None),
        ActionInput::Text(t) => {
            if record_text_is_blank(t) {
                return Ok(None);
            }
            let id = *order_seq;
            *order_seq = *order_seq + 1;
            let side = validate_action_side(t.as_str())?;
            Ok(
                Some(
                    Order {
                        id,
                        side,
                        otype: OrderType::Market,
                        size: default_size,
                        limit_price: None,
                        symbol: String::from_str(default_symbol),
                    },
                ),
            )
        },
        ActionInput::Record(r) => parse_action_record(r, default_size, order_seq, default_symbol),
        ActionInput::Unsupported => Err(ActionError::UnsupportedAction),
    }
}

fn parse_action_record<P: Copy>(
    r: &ActionRecord<P>,
    default_size: P,
    order_seq: &mut u64,
    default_symbol: &str,
) -> (res: Result<Option<Order<P>>, ActionError<P>>)
    requires
        *old(order_seq) < u64::MAX,
    ensures
        outcome_matches(res, record_outcome(*r, default_size, *old(order_seq), default_symbol@).0),
        *final(order_seq) == record_outcome(*r, default_size, *old(order_seq), default_symbol@).1,
{
    let act = match &r.action {
        Field::Missing => {
            return Ok(None);
        },
        Field::WrongKind => {
            return Err(ActionError::ActionNotText);
        },
        Field::Value(a) => a,
    };
    if record_text_is_blank(act) {
        return Ok(None);
    }
    let side = validate_action_side(act.as_str())?;
    let otype = match &r.order_type {
        Field::Missing => OrderType::Market,
        Field::WrongKind => {
            return Err(ActionError::OrderTypeNotText);
        },
        Field::Value(t) => validate_order_type(t.as_str())?,
    };
    let size = match &r.size {
        Field::Missing => default_size,
        Field::WrongKind => {
            return Err(ActionError::SizeNotNumeric);
        },
        Field::Value(Checked::Valid(v)) => *v,
        Field::Value(Checked::Invalid(v)) => {
            return Err(ActionError::InvalidSize(*v));
        },
    };
    let price = match &r.price {
        Field::Missing => None,
        Field::WrongKind => {
            return Err(ActionError::PriceNotNumeric);
        },
        Field::Value(Checked::Valid(v)) => Some(*v),
        Field::Value(Checked::Invalid(v)) => {
            return Err(ActionError::InvalidPrice(*v));
        },
    };
    let symbol = match &r.symbol {
        Field::Missing => String::from_str(default_symbol),
        Field::WrongKind => {
            return Err(ActionError::InvalidSymbol);
        },
        Field::Value(s) => {
            if record_text_is_blank(s) {
                return Err(ActionError::InvalidSymbol);
            }
            s.clone()
        },
    };
    let id = *order_seq;
    *order_seq = *order_seq + 1;
    let limit_price = if otype == OrderType::Limit {
        match price {
            Some(p) => Some(p),
            None => {
                return Err(ActionError::LimitWithoutPrice);
            },
        }
    } else {
        None
    };
    Ok(Some(Order { id, side, otype, size, limit_price, symbol }))
}

/// The default symbol for one element of a list: its own, where it has one.
pub open spec fn listed_symbol<P>(item: ListedAction<P>, default_symbol: Seq<char>) -> Seq<char> {
    match item.symbol {
        Some(s) => s@,
        None => default_symbol,
    }
}

/// An optional order by its view.
pub open spec fn option_view<P>(o: Option<Order<P>>) -> Option<OrderView<P>> {
    match o {
        Some(x) => Some(x@),
        None => None,
    }
}

/// What a list of actions asks for, from the `seq`-th order on: each element
/// is read with its own symbol (where it carries one as text) as the default
/// symbol; the first refusal ends the list.
pub open spec fn list_outcome<P>(
    items: Seq<ListedAction<P>>,
    default_size: P,
    seq: u64,
    default_symbol: Seq<char>,
) -> (Result<Seq<OrderView<P>>, ActionFault<P>>, u64)
    decreases items.len(),
{
    if items.len() == 0 {
        (Ok(Seq::empty()), seq)
    } else {
        let first = items[0];
        let sym = listed_symbol(first, default_symbol);
        let (r, s1) = action_outcome(first.action, default_size, seq, sym);
        match r {
            Err(e) => (Err(e), s1),
            Ok(o) => {
                let (rest, s2) = list_outcome(items.drop_first(), default_size, s1, default_symbol);
                match rest {
                    Err(e) => (Err(e), s2),
                    Ok(v) => (
                        Ok(
                            match o {
                                Some(x) => seq![x] + v,
                                None => v,
                            },
                        ),
                        s2,
                    ),
                }
            },
        }
    }
}

/// What the actions of one step ask for, from the `seq`-th order on.
pub open spec fn actions_outcome<P>(
    input: ActionsInput<P>,
    default_size: P,
    seq: u64,
    default_symbol: Seq<char>,
) -> (Result<Seq<OrderView<P>>, ActionFault<P>>, u64) {
    match input {
        ActionsInput::Many(items) => list_outcome(items@, default_size, seq, default_symbol),
        ActionsInput::Single(a) => {
            let (r, s1) = action_outcome(a, default_size, seq, default_symbol);
            (
                match r {
                    Err(e) => Err(e),
                    Ok(Some(x)) => Ok(seq![x]),
                    Ok(None) => Ok(Seq::empty()),
                },
                s1,
            )
        },
    }
}

/// The most orders the actions of one step can number.
pub open spec fn actions_len<P>(input: ActionsInput<P>) -> nat {
    match input {
        ActionsInput::Many(items) => items@.len(),
        ActionsInput::Single(_) => 1,
    }
}

/// An action numbers at most one order, and an order it yields carries the
/// number it was given.
pub proof fn lemma_action_outcome_numbering<P>(
    input: ActionInput<P>,
    default_size: P,
    seq: u64,
    default_symbol: Seq<char>,
)
    requires
        seq < u64::MAX,
    ensures
        ({
            let (r, s1) = action_outcome(input, default_size, seq, default_symbol);
            &&& s1 == seq || s1 == seq + 1
            &&& r matches Ok(Some(o)) ==> o.id == seq && s1 == seq + 1
            &&& r matches Ok(None) ==> s1 == seq
        }),
{
}

/// Law: the orders read from a list are numbered consecutively from `seq`,
/// in list order, and the next number is the one after the last of them.
pub proof fn lemma_list_outcome_numbering<P>(
    items: Seq<ListedAction<P>>,
    default_size: P,
    seq: u64,
    default_symbol: Seq<char>,
)
    requires
        seq + items.len() < u64::MAX,
    ensures
        ({
            let (r, s1) = list_outcome(items, default_size, seq, default_symbol);
            &&& seq <= s1 <= seq + items.len()
            &&& r matches Ok(v) ==> s1 == seq + v.len() && forall|k: int|
                0 <= k < v.len() ==> #[trigger] v[k].id == seq + k
        }),
    decreases items.len(),
{
    if items.len() > 0 {
        let first = items[0];
        let sym = listed_symbol(first, default_symbol);
        lemma_action_outcome_numbering(first.action, default_size, seq, sym);
        let (r, s1) = action_outcome(first.action, default_size, seq, sym);
        if r is Ok {
            lemma_list_outcome_numbering(items.drop_first(), default_size, s1, default_symbol);
            let (rest, s2) = list_outcome(items.drop_first(), default_size, s1, default_symbol);
            if let Ok(v) = rest {
                match r {
                    Ok(Some(x)) => {
                        let w = seq![x] + v;
                        assert forall|k: int| 0 <= k < w.len() implies #[trigger] w[k].id == seq
                            + k by {
                            if k > 0 {
                                assert(w[k] == v[k - 1]);
                            }
                        }
                    },
                    _ => {},
                }
            }
        }
    }
}

/// Law: where every element of a list yields an order, the `k`-th order is
/// what the `k`-th element alone yields when numbered `seq + k` and read
/// with the symbol it carries (where it carries one) as the default symbol.
pub proof fn lemma_list_orders_elementwise<P>(
    items: Seq<ListedAction<P>>,
    default_size: P,
    seq: u64,
    default_symbol: Seq<char>,
)
    requires
        seq + items.len() < u64::MAX,
    ensures
        ({
            let r = list_outcome(items, default_size, seq, default_symbol).0;
            r is Ok && r->Ok_0.len() == items.len() ==> forall|k: int|
                0 <= k < items.len() ==> action_outcome(
                    (#[trigger] items[k]).action,
                    default_size,
                    (seq + k) as u64,
                    listed_symbol(items[k], default_symbol),
                ).0 == Ok::<Option<OrderView<P>>, ActionFault<P>>(Some(r->Ok_0[k]))
        }),
    decreases items.len(),
{
    if items.len() > 0 {
        let first = items[0];
        let sym = listed_symbol(first, default_symbol);
        lemma_action_outcome_numbering(first.action, default_size, seq, sym);
        let (r, s1) = action_outcome(first.action, default_size, seq, sym);
        let rest = items.drop_first();
        lemma_list_outcome_numbering(rest, default_size, s1, default_symbol);
        if let Ok(o) = r {
            lemma_list_orders_elementwise(rest, default_size, s1, default_symbol);
            let (rr, s2) = list_outcome(rest, default_size, s1, default_symbol);
            if let Ok(w) = rr {
                if let Ok(v) = list_outcome(items, default_size, seq, default_symbol).0 {
                    if v.len() == items.len() {
                        if o is None {
                            assert(w.len() <= rest.len());
                        } else {
                            let x = o->0;
                            assert(v == seq![x] + w);
                            assert(s1 == seq + 1);
                            assert forall|k: int| 0 <= k < items.len() implies action_outcome(
                                (#[trigger] items[k]).action,
                                default_size,
                                (seq + k) as u64,
                                listed_symbol(items[k], default_symbol),
                            ).0 == Ok::<Option<OrderView<P>>, ActionFault<P>>(Some(v[k])) by {
                                if k > 0 {
                                    assert(items[k] == rest[k - 1]);
                                    assert(v[k] == w[k - 1]);
                                }
                            }
                        }
                    }
                }
            }
        }
    }
}

/// Reads the orders the actions of one step ask for, numbering them with
/// `order_seq` and moving `order_seq` on (see `actions_outcome`). The orders
/// come numbered consecutively from the old `order_seq`.
pub fn parse_actions_any<P: Copy>(
    input: &ActionsInput<P>,
    default_size: P,
    order_seq: &mut u64,
    default_symbol: &str,
) -> (res: Result<Vec<Order<P>>, ActionError<P>>)
    requires
        *old(order_seq) + actions_len(*input) < u64::MAX,
    ensures
        ({
            let (r, s1) = actions_outcome(*input, default_size, *old(order_seq), default_symbol@);
            &&& *final(order_seq) == s1
            &&& match res {
                Ok(v) => r == Ok::<Seq<OrderView<P>>, ActionFault<P>>(
                    v@.map_values(|o: Order<P>| o@),
                ),
                Err(e) => r == Err::<Seq<OrderView<P>>, ActionFault<P>>(e@),
            }
        }),
        res matches Ok(v) ==> *final(order_seq) == *old(order_seq) + v.len() && forall|k: int|
            0 <= k < v.len() ==> #[trigger] v[k].id == *old(order_seq) + k,
{
    match input {
        ActionsInput::Single(a) => {
            proof {
                lemma_action_outcome_numbering(*a, default_size, *order_seq, default_symbol@);
            }
            let r = parse_action_fast(a, default_size, order_seq, default_symbol)?;
            let mut out: Vec<Order<P>> = Vec::new();
            if let Some(o) = r {
                out.push(o);
            }
            proof {
                assert(out@.len() == 1 ==> out@[0].id == *old(order_seq));
                assert(*order_seq == *old(order_seq) + out@.len());
                assert(out@.map_values(|o: Order<P>| o@) =~= match r {
                    Some(x) => seq![x@],
                    None => Seq::<OrderView<P>>::empty(),
                });
            }
            Ok(out)
        },
        ActionsInput::Many(items) => {
            let ghost all = items@;
            let ghost seq0 = *order_seq;
            assert(actions_outcome(*input, default_size, seq0, default_symbol@) == list_outcome(
                all,
                default_size,
                seq0,
                default_symbol@,
            ));
            proof {
                lemma_list_outcome_numbering(all, default_size, seq0, default_symbol@);
            }
            let mut out: Vec<Order<P>> = Vec::new();
            let n = items.len();
            let mut i: usize = 0;
            assert(all.subrange(0, n as int) =~= all);
            assert(out@.map_values(|o: Order<P>| o@) =~= Seq::<OrderView<P>>::empty());
            proof {
                let (rest, s2) = list_outcome(all, default_size, seq0, default_symbol@);
                if let Ok(v) = rest {
                    assert(Seq::<OrderView<P>>::empty() + v =~= v);
                }
            }
            while i < n
                invariant
                    n == all.len(),
                    all == items@,
                    seq0 == *old(order_seq),
                    actions_outcome(*input, default_size, seq0, default_symbol@) == list_outcome(
                        all,
                        default_size,
                        seq0,
                        default_symbol@,
                    ),
                    i <= n,
                    seq0 + all.len() < u64::MAX,
                    *order_seq <= seq0 + i,
                    list_outcome(all, default_size, seq0, default_symbol@) == ({
                        let (rest, s2) = list_outcome(
                            all.subrange(i as int, n as int),
                            default_size,
                            *order_seq,
                            default_symbol@,
                        );
                        (
                            match rest {
                                Ok(v) => Ok(out@.map_values(|o: Order<P>| o@) + v),
                                Err(e) => Err(e),
                            },
                            s2,
                        )
                    }),
                decreases n - i,
            {
                let item = &items[i];
                let ghost tail = all.subrange(i as int, n as int);
                let ghost before = *order_seq;
                let ghost spec_step = action_outcome(
                    item.action,
                    default_size,
                    before,
                    listed_symbol(*item, default_symbol@),
                );
                assert(tail[0] == all[i as int]);
                assert(tail.drop_first() =~= all.subrange(i + 1, n as int));
                proof {
                    lemma_action_outcome_numbering(
                        item.action,
                        default_size,
                        before,
                        listed_symbol(*item, default_symbol@),
                    );
                }
                let r = match &item.symbol {
                    Some(sym) => parse_action_fast(
                        &item.action,
                        default_size,
                        order_seq,
                        sym.as_str(),
                    ),
                    None => parse_action_fast(&item.action, default_size, order_seq, default_symbol),
                };
                match r {
                    Err(e) => {
                        assert(spec_step.0 == Err::<Option<OrderView<P>>, ActionFault<P>>(e@));
                        assert(list_outcome(tail, default_size, before, default_symbol@) == (
                        Err::<Seq<OrderView<P>>, ActionFault<P>>(e@), *order_seq));
                        assert(list_outcome(all, default_size, seq0, default_symbol@) == (
                        Err::<Seq<OrderView<P>>, ActionFault<P>>(e@), *order_seq));
                        return Err(e);
                    },
                    Ok(o) => {
                        let ghost prev = out@;
                        let ghost ov = option_view(o);
                        if let Some(x) = o {
                            out.push(x);
                            assert(out@.map_values(|o: Order<P>| o@) =~= prev.map_values(
                                |o: Order<P>| o@,
                            ) + seq![x@]);
                        }
                        proof {
                            let (rest, s2) = list_outcome(
                                all.subrange(i + 1, n as int),
                                default_size,
                                *order_seq,
                                default_symbol@,
                            );
                            if let Ok(v) = rest {
                                if let Some(xv) = ov {
                                    assert(prev.map_values(|o: Order<P>| o@) + (seq![xv] + v)
                                        =~= prev.map_values(|o: Order<P>| o@) + seq![xv] + v);
                                }
                            }
                        }
                    },
                }
                i = i + 1;
            }
            assert(all.subrange(n as int, n as int) =~= Seq::<ListedAction<P>>::empty());
            assert(out@.map_values(|o: Order<P>| o@) + Seq::<OrderView<P>>::empty() =~= out@.map_values(
                |o: Order<P>| o@,
            ));
            proof {
                let views = out@.map_values(|o: Order<P>| o@);
                assert(views.len() == out@.len());
                assert(forall|k: int| 0 <= k < out@.len() ==> #[trigger] views[k].id == out@[k].id);
                assert(list_outcome(all, default_size, seq0, default_symbol@) == (
                Ok::<Seq<OrderView<P>>, ActionFault<P>>(views), *order_seq));
                assert(*order_seq == seq0 + views.len());
                assert(forall|k: int| 0 <= k < out@.len() ==> views[k].id == seq0 + k);
                assert forall|k: int| 0 <= k < out@.len() implies #[trigger] out@[k].id == seq0 + k by {
                    assert(views[k].id == out@[k].id);
                }
            }
            Ok(out)
        },
    }
}

/// How the last price compares with an order's limit price (with itself
/// where the order has none); `Unordered` where the two do not compare.
#[derive(Clone, Copy, Debug, PartialEq, Eq, Structural)]
pub enum PriceOrder {
    Below,
    Equal,
    Above,
    Unordered,
}

/// A limit order can be filled: a buy when the last price is at or below the
/// limit, a sell when it is at or above it.
pub open spec fn limit_reached(side: OrderSide, last_vs_limit: PriceOrder) -> bool {
    match side {
        OrderSide::Buy => last_vs_limit == PriceOrder::Below || last_vs_limit == PriceOrder::Equal,
        OrderSide::Sell => last_vs_limit == PriceOrder::Above || last_vs_limit
            == PriceOrder::Equal,
    }
}

/// Law: a limit buy is reached exactly when the last price is below or at
/// the limit, a limit sell exactly when it is above or at it; prices that do
/// not compare reach neither.
pub proof fn lemma_limit_reached_table()
    ensures
        limit_reached(OrderSide::Buy, PriceOrder::Below),
        limit_reached(OrderSide::Buy, PriceOrder::Equal),
        !limit_reached(OrderSide::Buy, PriceOrder::Above),
        !limit_reached(OrderSide::Buy, PriceOrder::Unordered),
        limit_reached(OrderSide::Sell, PriceOrder::Above),
        limit_reached(OrderSide::Sell, PriceOrder::Equal),
        !limit_reached(OrderSide::Sell, PriceOrder::Below),
        !limit_reached(OrderSide::Sell, PriceOrder::Unordered),
{
}

/// Matches an order against the last price, giving the fill price and size:
/// a market order fills at the last price; a limit order fills at its limit
/// where the limit is reached, else not at all. A fill is always of the
/// whole size.
pub fn try_match<P: Copy>(order: &Order<P>, last_price: P, last_vs_limit: PriceOrder) -> (res:
    Option<(P, P)>)
    ensures
        order.otype == OrderType::Market ==> res == Some((last_price, order.size)),
        order.otype == OrderType::Limit ==> res == if limit_reached(order.side, last_vs_limit) {
            Some(
                (
                    match order.limit_price {
                        Some(lp) => lp,
                        None => last_price,
                    },
                    order.size,
                ),
            )
        } else {
            None
        },
{
    match order.otype {
        OrderType::Market => Some((last_price, order.size)),
        OrderType::Limit => {
            let lp = match order.limit_price {
                Some(lp) => lp,
                None => last_price,
            };
            match order.side {
                OrderSide::Buy => {
                    if last_vs_limit == PriceOrder::Below || last_vs_limit == PriceOrder::Equal {
                        Some((lp, order.size))
                    } else {
                        None
                    }
                },
                OrderSide::Sell => {
                    if last_vs_limit == PriceOrder::Above || last_vs_limit == PriceOrder::Equal {
                        Some((lp, order.size))
                    } else {
                        None
                    }
                },
            }
        },
    }
}

} // verus!
