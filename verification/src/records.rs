//! The record kept of each order, and counts over those records.

use vstd::prelude::*;

use crate::orders::{order_type_str, order_type_text, side_str, side_text, Order};
use crate::text::text_eq;

verus! {

/// What became of an order; `P` is the type of sizes, prices and money.
#[derive(Debug)]
pub struct OrderRecord<P> {
    pub order_id: u64,
    pub symbol: String,
    pub side: String,
    pub otype: String,
    pub size: P,
    pub limit_price: Option<P>,
    pub status: String,
    pub datetime: Option<String>,
    pub filled_price: Option<P>,
    pub filled_size: P,
    pub commission: P,
    pub realized_pnl: P,
    pub reject_reason: Option<String>,
}

/// The record of `order` with the given outcome: the order's number,
/// symbol, side and type names, size and limit price, then the outcome as
/// given.
pub fn order_record<P: Copy>(
    order: &Order<P>,
    datetime: Option<String>,
    status: &str,
    filled_price: Option<P>,
    filled_size: P,
    commission: P,
    realized_pnl: P,
    reject_reason: Option<String>,
) -> (res: OrderRecord<P>)
    ensures
        res.order_id == order.id,
        res.symbol@ == order.symbol@,
        res.side@ == side_text(order.side),
        res.otype@ == order_type_text(order.otype),
        res.size == order.size,
        res.limit_price == order.limit_price,
        res.status@ == status@,
        res.datetime == datetime,
        res.filled_price == filled_price,
        res.filled_size == filled_size,
        res.commission == commission,
        res.realized_pnl == realized_pnl,
        res.reject_reason == reject_reason,
{
    OrderRecord {
        order_id: order.id,
        symbol: order.symbol.clone(),
        side: String::from_str(side_str(order.side)),
        otype: String::from_str(order_type_str(order.otype)),
        size: order.size,
        limit_price: order.limit_price,
        status: String::from_str(status),
        datetime,
        filled_price,
        filled_size,
        commission,
        realized_pnl,
        reject_reason,
    }
}

/// How many of the records have the given status.
pub open spec fn count_status<P>(records: Seq<OrderRecord<P>>, status: Seq<char>) -> nat
    decreases records.len(),
{
    if records.len() == 0 {
        0
    } else {
        count_status(records.drop_last(), status) + if records.last().status@ == status {
            1nat
        } else {
            0nat
        }
    }
}

/// Law: the count of a status is the number of records that have exactly
/// that status text.
pub proof fn lemma_count_status_is_filter_len<P>(records: Seq<OrderRecord<P>>, status: Seq<char>)
    ensures
        count_status(records, status) == records.filter(|r: OrderRecord<P>| r.status@ == status).len(),
    decreases records.len(),
{
    reveal_with_fuel(Seq::<_>::filter, 1);
    if records.len() > 0 {
        lemma_count_status_is_filter_len(records.drop_last(), status);
    }
}

/// The number of filled, rejected and unfilled orders.
#[derive(Clone, Copy, Debug, PartialEq, Eq)]
pub struct StatusCounts {
    pub filled: usize,
    pub rejected: usize,
    pub unfilled: usize,
}

/// Counts the records whose status is `filled`, `rejected` and `unfilled`.
pub fn order_status_counts<P>(orders: &Vec<OrderRecord<P>>) -> (res: StatusCounts)
    ensures
        res.filled == count_status(orders@, "filled"@),
        res.rejected == count_status(orders@, "rejected"@),
        res.unfilled == count_status(orders@, "unfilled"@),
{
    let mut filled: usize = 0;
    let mut rejected: usize = 0;
    let mut unfilled: usize = 0;
    let n = orders.len();
    let mut i: usize = 0;
    while i < n
        invariant
            n == orders@.len(),
            i <= n,
            filled == count_status(orders@.take(i as int), "filled"@),
            rejected == count_status(orders@.take(i as int), "rejected"@),
            unfilled == count_status(orders@.take(i as int), "unfilled"@),
            filled <= i,
            rejected <= i,
            unfilled <= i,
        decreases n - i,
    {
        assert(orders@.take(i + 1).drop_last() =~= orders@.take(i as int));
        let st = orders[i].status.as_str();
        if text_eq(st, "filled") {
            filled = filled + 1;
        }
        if text_eq(st, "rejected") {
            rejected = rejected + 1;
        }
        if text_eq(st, "unfilled") {
            unfilled = unfilled + 1;
        }
        i = i + 1;
    }
    assert(orders@.take(n as int) =~= orders@);
    StatusCounts { filled, rejected, unfilled }
}

/// Law: no record is counted under two statuses, so the filled, rejected
/// and unfilled orders together are at most all the orders.
pub proof fn lemma_status_counts_bounded<P>(records: Seq<OrderRecord<P>>)
    ensures
        count_status(records, "filled"@) + count_status(records, "rejected"@) + count_status(
            records,
            "unfilled"@,
        ) <= records.len(),
    decreases records.len(),
{
    reveal_strlit("filled");
    reveal_strlit("rejected");
    reveal_strlit("unfilled");
    if records.len() > 0 {
        lemma_status_counts_bounded(records.drop_last());
        assert("filled"@ != "rejected"@) by {
            assert("filled"@.len() != "rejected"@.len());
        }
        assert("filled"@ != "unfilled"@) by {
            assert("filled"@.len() != "unfilled"@.len());
        }
        assert("rejected"@ != "unfilled"@) by {
            assert("rejected"@[0] != "unfilled"@[0]);
        }
    }
}

} // verus!
