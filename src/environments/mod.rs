pub mod discovery;
pub mod simulated;

pub use discovery::{select_markets, MarketData};
pub use simulated::{OrderRequest, Simulated, Step, Tick, TrackedOrder};

use crate::money::Monetary;
use crate::traders::Action;
use vstd::prelude::*;

verus! {

/// Where an order stands at the exchange.
#[derive(Debug, Clone, Copy, PartialEq, Eq, Structural)]
pub enum OrderStatus {
    New,
    PartiallyFilled,
    Filled,
    Canceled,
    PendingCancel,
    Rejected,
    Expired,
}

impl OrderStatus {
    /// The order will not change any more.
    pub open spec fn is_terminal_spec(&self) -> bool {
        match self {
            OrderStatus::Filled | OrderStatus::Canceled | OrderStatus::Rejected | OrderStatus::Expired => true,
            _ => false,
        }
    }

    pub fn is_terminal(&self) -> (r: bool)
        ensures
            r == self.is_terminal_spec(),
    {
        match self {
            OrderStatus::Filled | OrderStatus::Canceled | OrderStatus::Rejected | OrderStatus::Expired => true,
            _ => false,
        }
    }
}

/// An order as the exchange reports it.
#[derive(Debug)]
pub struct OrderRecord {
    pub symbol: String,
    pub order_id: u64,
    pub side: Action,
    pub price: Monetary,
    pub orig_qty: Monetary,
    pub executed_qty: Monetary,
    pub status: OrderStatus,
}

impl OrderRecord {
    pub fn copy(&self) -> (r: OrderRecord)
        ensures
            r == *self,
    {
        OrderRecord {
            symbol: self.symbol.clone(),
            order_id: self.order_id,
            side: self.side,
            price: self.price,
            orig_qty: self.orig_qty,
            executed_qty: self.executed_qty,
            status: self.status,
        }
    }
}

/// What the environment reports to the economy, one at a time.
#[derive(Debug)]
pub enum Event {
    SetMarketValue(String, Monetary),
    SetAssetBalance(String, Monetary),
    ExecutedOrder(OrderRecord, Monetary),
    Evaluate(i64),
}

} // verus!
