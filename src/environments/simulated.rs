use super::{Event, OrderRecord, OrderStatus};
use crate::money::Monetary;
use crate::traders::{Action, Order};
use vstd::prelude::*;

verus! {

/// How close to the wall clock the replay must come before going live.
pub const SWITCHOVER_WINDOW: i64 = 10;

/// The longest stretch of history read from storage at once: a day.
pub const HISTORY_WINDOW: i64 = 86400;

/// How long an order may stay open before it is to be cancelled.
pub const ORDER_TIMEOUT: i64 = 10;

/// A stored price observation.
#[derive(Debug)]
pub struct Tick {
    pub symbol: String,
    pub value: Monetary,
    pub timestamp: i64,
}

/// Where ticks come from: storage, or the live feed after the switchover.
#[derive(Debug, Clone, Copy, PartialEq, Eq, Structural)]
pub enum Source {
    Replaying,
    Live,
}

/// An order placed through the environment, followed until it is closed.
#[derive(Debug)]
pub struct TrackedOrder {
    pub order: Order,
    pub record: OrderRecord,
    pub submitted_at: i64,
    pub open: bool,
    pub cancel_requested: bool,
}

#[derive(Debug, Clone, Copy, PartialEq, Eq, Structural)]
pub enum OrderType {
    Limit,
    Market,
}

#[derive(Debug, Clone, Copy, PartialEq, Eq, Structural)]
pub enum TimeInForce {
    GoodTillCanceled,
}

/// An order in the exchange's terms.
#[derive(Debug)]
pub struct OrderRequest {
    pub symbol: String,
    pub quantity: Monetary,
    pub price: Monetary,
    pub side: Action,
    pub order_type: OrderType,
    pub time_in_force: TimeInForce,
}

/// What one poll comes to: an event for the economy, or the outside work the
/// caller is to do before polling again.
#[derive(Debug)]
pub enum Step {
    Emit(Event),
    /// Read the ticks of `[from, from + len)` from storage, newest first, and `load` them.
    Fetch { from: i64, len: i64 },
    /// Subscribe to the live feed, then poll again.
    Subscribe,
    /// Wait for the next batch of the live feed and `load` it.
    Listen,
    /// Ask the exchange to cancel this order.
    Cancel { symbol: String, order_id: u64 },
}

/// The event source: replays stored ticks second by second and, where `live` is
/// set, switches once and for all to the live feed when the replay has caught up
/// with the wall clock, and follows the orders placed.
pub struct Simulated {
    pub timestamp: i64,
    pub source: Source,
    pub live: bool,
    pub buffer: Vec<Tick>,
    pub fetched_until: i64,
    pub events: Vec<Event>,
    pub orders: Vec<TrackedOrder>,
}

/// The ticks are ordered newest first, so that popping yields the oldest.
pub open spec fn newest_first(ticks: Seq<Tick>) -> bool {
    forall|i: int, j: int| 0 <= i < j < ticks.len() ==> ticks[i].timestamp >= ticks[j].timestamp
}

/// The first index below `n` where `f` holds.
pub open spec fn first_where(n: int, f: spec_fn(int) -> bool) -> Option<int>
    decreases n,
{
    if n <= 0 {
        None
    } else {
        match first_where(n - 1, f) {
            Some(i) => Some(i),
            None => if f(n - 1) {
                Some(n - 1)
            } else {
                None
            },
        }
    }
}

pub proof fn lemma_first_where_stays(f: spec_fn(int) -> bool, i: int, k: int)
    requires
        first_where(i, f) is Some,
        i <= k,
    ensures
        first_where(k, f) == first_where(i, f),
    decreases k - i,
{
    if i < k {
        lemma_first_where_stays(f, i, k - 1);
    }
}

pub proof fn lemma_first_where_some(f: spec_fn(int) -> bool, n: int)
    requires
        first_where(n, f) is Some,
    ensures
        0 <= first_where(n, f)->0 < n,
        f(first_where(n, f)->0),
    decreases n,
{
    if n > 0 && first_where(n - 1, f) is Some {
        lemma_first_where_some(f, n - 1);
    }
}

/// The first open order the exchange has closed.
pub open spec fn closed_order(orders: Seq<TrackedOrder>) -> Option<int> {
    first_where(orders.len() as int, |i: int| orders[i].open && orders[i].record.status.is_terminal_spec())
}

/// The first open order past its time, not yet asked to be cancelled.
pub open spec fn overdue_order(orders: Seq<TrackedOrder>, now: i64) -> Option<int> {
    first_where(
        orders.len() as int,
        |i: int| orders[i].open && !orders[i].cancel_requested && now - orders[i].submitted_at > ORDER_TIMEOUT,
    )
}

/// The part of a poll that reads ticks: emit the oldest buffered tick once the
/// clock has reached it; evaluate the current second once no buffered tick
/// belongs to it (or the window read holds no more); else ask for more ticks.
pub open spec fn tick_step(o: Simulated, now: i64, f: Simulated, r: Step) -> bool {
    &&& f.live == o.live
    &&& f.events == o.events
    &&& f.orders == o.orders
    &&& if o.buffer@.len() > 0 {
        let t = o.buffer@.last();
        &&& f.source == o.source
        &&& f.fetched_until == o.fetched_until
        &&& if t.timestamp <= o.timestamp {
            &&& r == Step::Emit(Event::SetMarketValue(t.symbol, t.value))
            &&& f.buffer@ == o.buffer@.drop_last()
            &&& f.timestamp == o.timestamp
        } else {
            &&& r == Step::Emit(Event::Evaluate(o.timestamp))
            &&& f.buffer == o.buffer
            &&& f.timestamp == o.timestamp + 1
        }
    } else if o.timestamp < o.fetched_until {
        &&& r == Step::Emit(Event::Evaluate(o.timestamp))
        &&& f.timestamp == o.timestamp + 1
        &&& f.buffer == o.buffer
        &&& f.source == o.source
        &&& f.fetched_until == o.fetched_until
    } else {
        &&& f.timestamp == o.timestamp
        &&& f.buffer == o.buffer
        &&& f.fetched_until == o.fetched_until
        &&& if o.source == Source::Live {
            r == Step::Listen && f.source == o.source
        } else if o.live && o.timestamp + SWITCHOVER_WINDOW >= now {
            r == Step::Subscribe && f.source == Source::Live
        } else {
            &&& f.source == o.source
            &&& r == Step::Fetch {
                from: o.timestamp,
                len: if o.live && now - o.timestamp < HISTORY_WINDOW {
                    (now - o.timestamp) as i64
                } else {
                    HISTORY_WINDOW
                },
            }
        }
    }
}

/// One poll at wall-clock time `now`: queued events first, then the first order
/// the exchange has closed, then the first overdue order, then the ticks.
pub open spec fn polled(o: Simulated, now: i64, f: Simulated, r: Step) -> bool {
    if o.events@.len() > 0 {
        &&& r == Step::Emit(o.events@.last())
        &&& f == Simulated { events: f.events, ..o }
        &&& f.events@ == o.events@.drop_last()
    } else if closed_order(o.orders@) is Some {
        let i = closed_order(o.orders@)->0;
        let record = o.orders@[i].record;
        &&& r == Step::Emit(Event::ExecutedOrder(record, record.executed_qty))
        &&& f == Simulated { orders: f.orders, ..o }
        &&& f.orders@ == o.orders@.update(i, TrackedOrder { open: false, ..o.orders@[i] })
    } else if overdue_order(o.orders@, now) is Some {
        let i = overdue_order(o.orders@, now)->0;
        &&& r == Step::Cancel { symbol: o.orders@[i].record.symbol, order_id: o.orders@[i].record.order_id }
        &&& f == Simulated { orders: f.orders, ..o }
        &&& f.orders@ == o.orders@.update(i, TrackedOrder { cancel_requested: true, ..o.orders@[i] })
    } else {
        tick_step(o, now, f, r)
    }
}

impl Simulated {
    pub open spec fn wf(&self) -> bool {
        newest_first(self.buffer@)
    }

    /// A replay from `start` with `events` queued (the last one comes out first);
    /// `live` selects the variant that switches to the live feed and follows orders.
    pub fn new(start: i64, live: bool, events: Vec<Event>) -> (r: Simulated)
        ensures
            r.wf(),
            r.timestamp == start,
            r.source == Source::Replaying,
            r.live == live,
            r.buffer@.len() == 0,
            r.fetched_until == start,
            r.events == events,
            r.orders@.len() == 0,
    {
        Simulated {
            timestamp: start,
            source: Source::Replaying,
            live,
            buffer: Vec::new(),
            fetched_until: start,
            events,
            orders: Vec::new(),
        }
    }

    /// Takes the ticks read (newest first) up to `until`, the end of what was read.
    /// Ticks out of order are refused and change nothing.
    pub fn load(&mut self, ticks: Vec<Tick>, until: i64) -> (r: bool)
        requires
            old(self).wf(),
        ensures
            final(self).wf(),
            r == newest_first(ticks@),
            r ==> *final(self) == (Simulated { buffer: ticks, fetched_until: until, ..*old(self) }),
            !r ==> *final(self) == *old(self),
    {
        let mut i: usize = 1;
        while i < ticks.len()
            invariant
                1 <= i,
                self.wf(),
                forall|a: int, b: int| 0 <= a < b < i && b < ticks@.len() ==> ticks@[a].timestamp >= ticks@[b].timestamp,
            decreases ticks@.len() - i,
        {
            if ticks[i - 1].timestamp < ticks[i].timestamp {
                return false;
            }
            i = i + 1;
        }
        self.buffer = ticks;
        self.fetched_until = until;
        true
    }

    fn closed_index(&self) -> (r: Option<usize>)
        ensures
            r matches Some(i) ==> closed_order(self.orders@) == Some(i as int),
            r is None ==> closed_order(self.orders@) is None,
    {
        let ghost f = |i: int| self.orders@[i].open && self.orders@[i].record.status.is_terminal_spec();
        let mut i: usize = 0;
        while i < self.orders.len()
            invariant
                i <= self.orders@.len(),
                f == (|i: int| self.orders@[i].open && self.orders@[i].record.status.is_terminal_spec()),
                first_where(i as int, f) is None,
            decreases self.orders@.len() - i,
        {
            if self.orders[i].open && self.orders[i].record.status.is_terminal() {
                proof {
                    lemma_first_where_stays(f, i + 1, self.orders@.len() as int);
                }
                return Some(i);
            }
            i = i + 1;
        }
        None
    }

    fn overdue_index(&self, now: i64) -> (r: Option<usize>)
        ensures
            r matches Some(i) ==> overdue_order(self.orders@, now) == Some(i as int),
            r is None ==> overdue_order(self.orders@, now) is None,
    {
        let ghost f = |i: int|
            self.orders@[i].open && !self.orders@[i].cancel_requested && now - self.orders@[i].submitted_at > ORDER_TIMEOUT;
        let mut i: usize = 0;
        while i < self.orders.len()
            invariant
                i <= self.orders@.len(),
                f == (|i: int|
                    self.orders@[i].open && !self.orders@[i].cancel_requested && now - self.orders@[i].submitted_at
                        > ORDER_TIMEOUT),
                first_where(i as int, f) is None,
            decreases self.orders@.len() - i,
        {
            let order = &self.orders[i];
            if order.open && !order.cancel_requested && (now as i128 - order.submitted_at as i128) > ORDER_TIMEOUT as i128 {
                proof {
                    lemma_first_where_stays(f, i + 1, self.orders@.len() as int);
                }
                return Some(i);
            }
            i = i + 1;
        }
        None
    }

    /// The next step of the event source at wall-clock time `now`.
    pub fn poll(&mut self, now: i64) -> (r: Step)
        requires
            old(self).wf(),
            old(self).timestamp < i64::MAX,
        ensures
            final(self).wf(),
            polled(*old(self), now, *final(self), r),
    {
        if self.events.len() > 0 {
            let event = self.events.pop().unwrap();
            return Step::Emit(event);
        }
        if let Some(i) = self.closed_index() {
            proof {
                lemma_first_where_some(
                    |i: int| self.orders@[i].open && self.orders@[i].record.status.is_terminal_spec(),
                    self.orders@.len() as int,
                );
            }
            let ghost before = self.orders@;
            let mut tracked_order = self.orders.remove(i);
            let record = tracked_order.record.copy();
            let quantity = record.executed_qty;
            tracked_order.open = false;
            self.orders.insert(i, tracked_order);
            proof {
                assert(self.orders@ =~= before.update(i as int, TrackedOrder { open: false, ..before[i as int] }));
            }
            return Step::Emit(Event::ExecutedOrder(record, quantity));
        }
        if let Some(i) = self.overdue_index(now) {
            proof {
                lemma_first_where_some(
                    |i: int|
                        self.orders@[i].open && !self.orders@[i].cancel_requested && now - self.orders@[i].submitted_at
                            > ORDER_TIMEOUT,
                    self.orders@.len() as int,
                );
            }
            let ghost before = self.orders@;
            let mut tracked_order = self.orders.remove(i);
            let symbol = tracked_order.record.symbol.clone();
            let order_id = tracked_order.record.order_id;
            tracked_order.cancel_requested = true;
            self.orders.insert(i, tracked_order);
            proof {
                assert(self.orders@ =~= before.update(
                    i as int,
                    TrackedOrder { cancel_requested: true, ..before[i as int] },
                ));
            }
            return Step::Cancel { symbol, order_id };
        }
        let n = self.buffer.len();
        if n > 0 {
            if self.buffer[n - 1].timestamp <= self.timestamp {
                let ghost before = self.buffer@;
                let tick = self.buffer.pop().unwrap();
                proof {
                    assert forall|a: int, b: int| 0 <= a < b < self.buffer@.len() implies self.buffer@[a].timestamp
                        >= self.buffer@[b].timestamp by {
                        assert(before[a] == self.buffer@[a] && before[b] == self.buffer@[b]);
                    }
                }
                return Step::Emit(Event::SetMarketValue(tick.symbol, tick.value));
            }
            let t = self.timestamp;
            self.timestamp = t + 1;
            return Step::Emit(Event::Evaluate(t));
        }
        if self.timestamp < self.fetched_until {
            let t = self.timestamp;
            self.timestamp = t + 1;
            return Step::Emit(Event::Evaluate(t));
        }
        match self.source {
            Source::Live => Step::Listen,
            Source::Replaying => {
                if self.live && self.timestamp as i128 + SWITCHOVER_WINDOW as i128 >= now as i128 {
                    self.source = Source::Live;
                    Step::Subscribe
                } else {
                    let len = if self.live && (now as i128 - self.timestamp as i128) < HISTORY_WINDOW as i128 {
                        now - self.timestamp
                    } else {
                        HISTORY_WINDOW
                    };
                    Step::Fetch { from: self.timestamp, len }
                }
            },
        }
    }

    /// The exchange request for `order` on the market `symbol`: a limit order,
    /// good till cancelled; market orders are not placed. The live variant
    /// follows each placed order, recorded as filled in full at its price.
    pub fn submit(&mut self, symbol: String, order: Order, now: i64) -> (r: Option<OrderRequest>)
        requires
            old(self).wf(),
        ensures
            final(self).wf(),
            match order {
                Order::Limit(side, quantity, price) => {
                    &&& r matches Some(request) && request == (OrderRequest {
                        symbol,
                        quantity,
                        price,
                        side,
                        order_type: OrderType::Limit,
                        time_in_force: TimeInForce::GoodTillCanceled,
                    })
                    &&& if old(self).live {
                        *final(self) == (Simulated { orders: final(self).orders, ..*old(self) }) && final(self).orders@
                            == old(self).orders@.push(
                            TrackedOrder {
                                order,
                                record: OrderRecord {
                                    symbol,
                                    order_id: 0,
                                    side,
                                    price,
                                    orig_qty: quantity,
                                    executed_qty: quantity,
                                    status: OrderStatus::Filled,
                                },
                                submitted_at: now,
                                open: true,
                                cancel_requested: false,
                            },
                        )
                    } else {
                        *final(self) == *old(self)
                    }
                },
                Order::Market(_, _) => r is None && *final(self) == *old(self),
            },
    {
        match order {
            Order::Limit(side, quantity, price) => {
                if self.live {
                    let record = OrderRecord {
                        symbol: symbol.clone(),
                        order_id: 0,
                        side,
                        price,
                        orig_qty: quantity,
                        executed_qty: quantity,
                        status: OrderStatus::Filled,
                    };
                    self.orders.push(
                        TrackedOrder { order, record, submitted_at: now, open: true, cancel_requested: false },
                    );
                }
                Some(
                    OrderRequest {
                        symbol,
                        quantity,
                        price,
                        side,
                        order_type: OrderType::Limit,
                        time_in_force: TimeInForce::GoodTillCanceled,
                    },
                )
            },
            Order::Market(_, _) => None,
        }
    }
}

/// The switchover to the live feed is one-way: once live, a poll never goes back
/// to storage.
pub proof fn lemma_live_is_final(o: Simulated, now: i64, f: Simulated, r: Step)
    requires
        polled(o, now, f, r),
        o.source == Source::Live,
    ensures
        f.source == Source::Live,
{
}

/// An evaluation of second `t` comes only once every buffered tick of that second
/// or before has been emitted; a tick is emitted only once the clock has reached
/// it; and the clock never goes back.
pub proof fn lemma_ticks_before_evaluation(o: Simulated, now: i64, f: Simulated, r: Step)
    requires
        o.wf(),
        polled(o, now, f, r),
    ensures
        f.timestamp >= o.timestamp,
        o.events@.len() == 0 ==> match r {
            Step::Emit(Event::Evaluate(t)) => forall|k: int| 0 <= k < f.buffer@.len() ==> #[trigger] f.buffer@[k].timestamp > t,
            _ => true,
        },
        o.events@.len() == 0 && closed_order(o.orders@) is None && overdue_order(o.orders@, now) is None
            && r is Emit && !(r matches Step::Emit(Event::Evaluate(_))) ==> o.buffer@.last().timestamp <= o.timestamp,
{
    if o.events@.len() == 0 && closed_order(o.orders@) is None && overdue_order(o.orders@, now) is None {
        if o.buffer@.len() > 0 {
            assert forall|k: int| 0 <= k < o.buffer@.len() implies o.buffer@[k].timestamp >= o.buffer@.last().timestamp by {
                if k < o.buffer@.len() - 1 {
                    assert(o.buffer@[k].timestamp >= o.buffer@[o.buffer@.len() - 1].timestamp);
                }
            }
        }
    }
}

} // verus!
