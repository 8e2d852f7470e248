//! The deterministic core of the lag replay engine: the virtual clock, the
//! outbound-latency order queue, the per-order latency sampler, the resting
//! maker orders and the queue-position fill model, plus the run counters.
//!
//! The execution book and the account live with the caller: it prices taker
//! and marketable orders against its book, and books the fills this core
//! reports. Prices and quantities are raw fixed-point integers.

use vstd::prelude::*;
use crate::side::Side;
use crate::text::{signed_decimal, with_int, with_str};

verus! {

/// How an order executes.
#[derive(Clone, Copy, PartialEq, Eq, Debug, Structural)]
pub enum LagOrderKind {
    /// Cross the spread now (taker).
    Market,
    /// A maker quote with client id `id`: rest at `price` (or execute at once
    /// if marketable); fill only when the execution venue's tape trades
    /// through it.
    Place,
    /// Pull every resting order with client id `id` once the cancel lands.
    Cancel,
}

/// An order action on the execution venue. `side` is OUR side (`Bid` =
/// buy); `id` is the client id a quote is placed and cancelled by.
#[derive(Clone, Copy, PartialEq, Eq, Debug, Structural)]
pub struct LagOrder {
    /// Buy (bid) or sell (ask).
    pub side: Side,
    /// Execution style.
    pub kind: LagOrderKind,
    /// Raw limit price (unused for `Market` and `Cancel`).
    pub price: i64,
    /// Raw quantity (unused for `Cancel`).
    pub qty: i64,
    /// Client id (0 for market orders and unaddressed limits).
    pub id: u64,
}

impl LagOrder {
    /// The market (taker) order of `qty` on `side`.
    pub open spec fn market_spec(side: Side, qty: i64) -> LagOrder {
        LagOrder { side, kind: LagOrderKind::Market, price: 0, qty, id: 0 }
    }

    /// A market (taker) order.
    pub fn market(side: Side, qty: i64) -> (r: Self)
        ensures
            r == LagOrder::market_spec(side, qty),
    {
        Self { side, kind: LagOrderKind::Market, price: 0, qty, id: 0 }
    }

    /// The cancel of client id `id`.
    pub open spec fn cancel_spec(id: u64) -> LagOrder {
        LagOrder { side: Side::Bid, kind: LagOrderKind::Cancel, price: 0, qty: 0, id }
    }

    /// A maker quote with client id `id` resting at `price`.
    pub fn place(id: u64, side: Side, price: i64, qty: i64) -> (r: Self)
        ensures
            r == (LagOrder { side, kind: LagOrderKind::Place, price, qty, id }),
    {
        Self { side, kind: LagOrderKind::Place, price, qty, id }
    }

    /// An unaddressed maker order resting at `price` (client id 0).
    pub fn limit(side: Side, price: i64, qty: i64) -> (r: Self)
        ensures
            r == (LagOrder { side, kind: LagOrderKind::Place, price, qty, id: 0 }),
    {
        Self { side, kind: LagOrderKind::Place, price, qty, id: 0 }
    }

    /// Cancel the resting orders with client id `id`.
    pub fn cancel(id: u64) -> (r: Self)
        ensures
            r == LagOrder::cancel_spec(id),
    {
        Self { side: Side::Bid, kind: LagOrderKind::Cancel, price: 0, qty: 0, id }
    }
}

/// An order in flight: it reaches the matcher at `arrival`; `seq` orders
/// submissions that arrive at the same instant.
#[derive(Clone, Copy, PartialEq, Eq, Debug, Structural)]
pub struct Pending {
    /// Virtual-clock time (ns) at which the order reaches the matcher.
    pub arrival: u64,
    /// Submission sequence number (unique, increasing).
    pub seq: u64,
    /// The order itself.
    pub order: LagOrder,
}

/// A passive maker order resting in the execution book.
#[derive(Clone, Copy, PartialEq, Eq, Debug, Structural)]
pub struct RestingOrder {
    /// Client id it was placed with.
    pub id: u64,
    /// Our side.
    pub side: Side,
    /// Raw resting limit price.
    pub price: i64,
    /// Raw quantity still unfilled.
    pub qty_remaining: i64,
    /// Raw displayed quantity queued ahead of us at our price.
    pub queue_ahead: i64,
}

/// One maker fill: `qty` at our resting limit `price` on our `side`.
#[derive(Clone, Copy, PartialEq, Eq, Debug, Structural)]
pub struct MakerFill {
    /// Client id of the filled order.
    pub id: u64,
    /// Our side.
    pub side: Side,
    /// Raw fill price (always our resting limit).
    pub price: i64,
    /// Raw filled quantity (positive).
    pub qty: i64,
}

/// `a` reaches the matcher strictly before `b`: earlier arrival, or the same
/// arrival and an earlier submission.
pub open spec fn arrives_before(a: Pending, b: Pending) -> bool {
    a.arrival < b.arrival || (a.arrival == b.arrival && a.seq < b.seq)
}

/// In-flight orders in matcher order, each strictly before the next.
pub open spec fn queue_ordered(q: Seq<Pending>) -> bool {
    forall|i: int, j: int| 0 <= i < j < q.len() ==> arrives_before(#[trigger] q[i], #[trigger] q[j])
}

/// A trade by an aggressor on `aggr` at `tprice` trades through the resting
/// order `r`: a sell at or below our bid, or a buy at or above our ask.
pub open spec fn crosses(r: RestingOrder, aggr: Side, tprice: i64) -> bool {
    ||| r.side == Side::Bid && aggr == Side::Ask && tprice <= r.price
    ||| r.side == Side::Ask && aggr == Side::Bid && tprice >= r.price
}

/// Quantity of `r` a trade of `tqty` fills: nothing unless it crosses `r` and
/// exceeds the queue ahead of it; then the part past the queue, capped at what
/// remains of `r`.
pub open spec fn trade_fill_qty(r: RestingOrder, aggr: Side, tprice: i64, tqty: i64) -> int {
    if !crosses(r, aggr, tprice) || r.queue_ahead >= tqty {
        0
    } else {
        let avail = tqty - r.queue_ahead;
        let f = if avail < r.qty_remaining { avail } else { r.qty_remaining as int };
        if f > 0 { f } else { 0 }
    }
}

/// What is left of `r` after the trade: unchanged if the trade does not
/// cross it; the queue ahead shrinks by the trade if the queue absorbs it;
/// otherwise the queue is cleared, the fill comes off the remainder, and an
/// order with nothing left leaves the book (`None`).
pub open spec fn order_after_trade(r: RestingOrder, aggr: Side, tprice: i64, tqty: i64) -> Option<
    RestingOrder,
> {
    if !crosses(r, aggr, tprice) {
        Some(r)
    } else if r.queue_ahead >= tqty {
        Some(RestingOrder { queue_ahead: (r.queue_ahead - tqty) as i64, ..r })
    } else {
        let rem = r.qty_remaining - trade_fill_qty(r, aggr, tprice, tqty);
        if rem == 0 {
            None
        } else {
            Some(RestingOrder { qty_remaining: rem as i64, queue_ahead: 0, ..r })
        }
    }
}

/// The resting book after a trade: each order is updated on its own, in
/// book order, and filled-out orders drop out. A trade of no size is ignored.
pub open spec fn book_after_trade(rs: Seq<RestingOrder>, aggr: Side, tprice: i64, tqty: i64) -> Seq<
    RestingOrder,
>
    decreases rs.len(),
{
    if tqty <= 0 || rs.len() == 0 {
        rs
    } else {
        let prev = book_after_trade(rs.drop_last(), aggr, tprice, tqty);
        match order_after_trade(rs.last(), aggr, tprice, tqty) {
            Some(o) => prev.push(o),
            None => prev,
        }
    }
}

/// The maker fills a trade produces, in book order.
pub open spec fn fills_from_trade(rs: Seq<RestingOrder>, aggr: Side, tprice: i64, tqty: i64) -> Seq<
    MakerFill,
>
    decreases rs.len(),
{
    if tqty <= 0 || rs.len() == 0 {
        Seq::empty()
    } else {
        let prev = fills_from_trade(rs.drop_last(), aggr, tprice, tqty);
        let r = rs.last();
        let f = trade_fill_qty(r, aggr, tprice, tqty);
        if f > 0 {
            prev.push(MakerFill { id: r.id, side: r.side, price: r.price, qty: f as i64 })
        } else {
            prev
        }
    }
}

/// The resting book after a cancel for `id` lands: every order with that
/// client id leaves, the others stay in book order.
pub open spec fn book_without(rs: Seq<RestingOrder>, id: u64) -> Seq<RestingOrder>
    decreases rs.len(),
{
    if rs.len() == 0 {
        rs
    } else {
        let prev = book_without(rs.drop_last(), id);
        if rs.last().id == id {
            prev
        } else {
            prev.push(rs.last())
        }
    }
}

/// The distinct client ids that have taken a maker fill: `seen`, then the
/// ids of `fills` in order, each added the first time it appears.
pub open spec fn note_fill_ids(seen: Seq<u64>, fills: Seq<MakerFill>) -> Seq<u64>
    decreases fills.len(),
{
    if fills.len() == 0 {
        seen
    } else {
        let prev = note_fill_ids(seen, fills.drop_last());
        if prev.contains(fills.last().id) {
            prev
        } else {
            prev.push(fills.last().id)
        }
    }
}

/// `|pos|` as an unsigned quantity.
pub open spec fn unsigned_abs(pos: i64) -> u64 {
    if pos < 0 {
        (-(pos as int)) as u64
    } else {
        pos as u64
    }
}

/// The xorshift64 step used by the latency sampler.
pub open spec fn xorshift64(x: u64) -> u64 {
    let a = x ^ (x << 13u64);
    let b = a ^ (a >> 7u64);
    b ^ (b << 17u64)
}

/// Whether a limit order is marketable against the book's best prices: a bid
/// at or above the best ask, an ask at or below the best bid.
pub open spec fn marketable(side: Side, limit: i64, best_bid: Option<i64>, best_ask: Option<i64>) -> bool {
    match side {
        Side::Bid => best_ask is Some && limit >= best_ask->0,
        Side::Ask => best_bid is Some && limit <= best_bid->0,
    }
}

/// Decides whether a limit order crosses the spread (and so executes as a
/// taker against the book) or rests passively.
pub fn is_marketable(side: Side, limit: i64, best_bid: Option<i64>, best_ask: Option<i64>) -> (r: bool)
    ensures
        r == marketable(side, limit, best_bid, best_ask),
{
    match side {
        Side::Bid => match best_ask {
            Some(a) => limit >= a,
            None => false,
        },
        Side::Ask => match best_bid {
            Some(b) => limit <= b,
            None => false,
        },
    }
}

/// The message of a non-monotonic clock error.
pub open spec fn non_monotonic_msg(prev: u64, got: u64) -> Seq<char> {
    "non-monotonic local_ts: prev "@ + signed_decimal(prev as int) + " got "@ + signed_decimal(
        got as int,
    )
}

/// The message of an order-arrival overflow.
pub open spec fn arrival_overflow_msg() -> Seq<char> {
    "order arrival overflow"@
}

/// Deterministic replay core. One core = one single-threaded simulation.
pub struct LagCore {
    order_latency_ns: u64,
    cancel_latency_ns: u64,
    lat_samples: Vec<u64>,
    lat_rng: u64,
    now: u64,
    started: bool,
    pending: Vec<Pending>,
    resting: Vec<RestingOrder>,
    seq: u64,
    orders_submitted: u64,
    orders_filled: u64,
    maker_fills: u64,
    orders_rested: u64,
    orders_rejected: u64,
    events: u64,
    quotes_submitted: u64,
    filled_ids: Vec<u64>,
    max_abs_inventory: u64,
}

impl LagCore {
    /// Fixed outbound latency (ns) used when no samples are supplied.
    pub closed spec fn fixed_latency(&self) -> u64 {
        self.order_latency_ns
    }

    /// Fixed latency (ns) of a cancel from submission to landing.
    pub closed spec fn cancel_latency(&self) -> u64 {
        self.cancel_latency_ns
    }

    /// Maker quotes (`Place` orders) submitted so far.
    pub closed spec fn quotes_sent(&self) -> u64 {
        self.quotes_submitted
    }

    /// Distinct client ids that have taken at least one maker fill, in the
    /// order of their first fill.
    pub closed spec fn filled_quote_ids(&self) -> Seq<u64> {
        self.filled_ids@
    }

    /// Largest absolute position noted so far.
    pub closed spec fn max_inventory(&self) -> u64 {
        self.max_abs_inventory
    }

    /// Empirical latency samples (ns).
    pub closed spec fn latency_samples(&self) -> Seq<u64> {
        self.lat_samples@
    }

    /// Sampler state.
    pub closed spec fn sampler_state(&self) -> u64 {
        self.lat_rng
    }

    /// Virtual clock (ns).
    pub closed spec fn clock(&self) -> u64 {
        self.now
    }

    /// Whether an event has been seen.
    pub closed spec fn has_started(&self) -> bool {
        self.started
    }

    /// In-flight orders, in matcher order.
    pub closed spec fn in_flight(&self) -> Seq<Pending> {
        self.pending@
    }

    /// Resting maker orders, in book (placement) order.
    pub closed spec fn book(&self) -> Seq<RestingOrder> {
        self.resting@
    }

    /// Next submission sequence number.
    pub closed spec fn next_seq(&self) -> u64 {
        self.seq
    }

    /// Orders submitted so far.
    pub closed spec fn submitted(&self) -> u64 {
        self.orders_submitted
    }

    /// Fills so far (taker and maker).
    pub closed spec fn filled(&self) -> u64 {
        self.orders_filled
    }

    /// Maker fills so far.
    pub closed spec fn maker_filled(&self) -> u64 {
        self.maker_fills
    }

    /// Limit orders that rested so far.
    pub closed spec fn rested(&self) -> u64 {
        self.orders_rested
    }

    /// Orders that found no liquidity so far.
    pub closed spec fn rejected(&self) -> u64 {
        self.orders_rejected
    }

    /// Events processed so far.
    pub closed spec fn processed(&self) -> u64 {
        self.events
    }

    /// The latency the next submitted order will get: the fixed latency
    /// without samples, else the sample one xorshift64 step selects.
    pub open spec fn sampled_latency(&self) -> u64 {
        if self.latency_samples().len() == 0 {
            self.fixed_latency()
        } else {
            self.latency_samples()[(xorshift64(self.sampler_state()) % (self.latency_samples().len() as u64)) as int]
        }
    }

    /// The latency an order submitted now gets: a cancel travels on the
    /// fixed cancel latency, every other order on the sampled latency.
    pub open spec fn latency_for(&self, order: LagOrder) -> u64 {
        if order.kind == LagOrderKind::Cancel {
            self.cancel_latency()
        } else {
            self.sampled_latency()
        }
    }

    /// Well-formedness: the in-flight queue is in matcher order and carries
    /// only already-issued sequence numbers; no resting order has a negative
    /// queue ahead of it; maker fills are a part of all fills.
    pub closed spec fn wf(&self) -> bool {
        &&& queue_ordered(self.pending@)
        &&& forall|i: int| 0 <= i < self.pending@.len() ==> (#[trigger] self.pending@[i]).seq < self.seq
        &&& forall|i: int| 0 <= i < self.resting@.len() ==> (#[trigger] self.resting@[i]).queue_ahead >= 0
        &&& self.maker_fills <= self.orders_filled
        &&& self.lat_samples@.len() <= u64::MAX
        &&& self.filled_ids@.no_duplicates()
    }

    /// A fresh core with a fixed outbound order latency and a cancel
    /// latency (ns).
    pub fn new(order_latency_ns: u64, cancel_latency_ns: u64) -> (r: Self)
        ensures
            r.wf(),
            r.fixed_latency() == order_latency_ns,
            r.cancel_latency() == cancel_latency_ns,
            r.quotes_sent() == 0,
            r.filled_quote_ids() == Seq::<u64>::empty(),
            r.max_inventory() == 0,
            r.latency_samples() == Seq::<u64>::empty(),
            r.sampler_state() == 0x9E37_79B9_7F4A_7C15u64,
            r.clock() == 0,
            !r.has_started(),
            r.in_flight() == Seq::<Pending>::empty(),
            r.book() == Seq::<RestingOrder>::empty(),
            r.next_seq() == 0,
            r.submitted() == 0,
            r.filled() == 0,
            r.maker_filled() == 0,
            r.rested() == 0,
            r.rejected() == 0,
            r.processed() == 0,
    {
        Self {
            order_latency_ns,
            cancel_latency_ns,
            lat_samples: Vec::new(),
            lat_rng: 0x9E37_79B9_7F4A_7C15,
            now: 0,
            started: false,
            pending: Vec::new(),
            resting: Vec::new(),
            seq: 0,
            orders_submitted: 0,
            orders_filled: 0,
            maker_fills: 0,
            orders_rested: 0,
            orders_rejected: 0,
            events: 0,
            quotes_submitted: 0,
            filled_ids: Vec::new(),
            max_abs_inventory: 0,
        }
    }

    /// Supply an empirical per-order latency distribution (ns). When
    /// non-empty, each order samples its submit-to-execute delay from these
    /// instead of the fixed latency.
    pub fn set_latency_samples(&mut self, s: Vec<u64>)
        requires
            old(self).wf(),
        ensures
            final(self).wf(),
            final(self).latency_samples() == s@,
            final(self).fixed_latency() == old(self).fixed_latency(),
            final(self).cancel_latency() == old(self).cancel_latency(),
            final(self).sampler_state() == old(self).sampler_state(),
            final(self).clock() == old(self).clock(),
            final(self).has_started() == old(self).has_started(),
            final(self).in_flight() == old(self).in_flight(),
            final(self).book() == old(self).book(),
            final(self).next_seq() == old(self).next_seq(),
            final(self).submitted() == old(self).submitted(),
            final(self).filled() == old(self).filled(),
            final(self).maker_filled() == old(self).maker_filled(),
            final(self).rested() == old(self).rested(),
            final(self).rejected() == old(self).rejected(),
            final(self).processed() == old(self).processed(),
            final(self).quotes_sent() == old(self).quotes_sent(),
            final(self).filled_quote_ids() == old(self).filled_quote_ids(),
            final(self).max_inventory() == old(self).max_inventory(),
    {
        proof {
            let n: usize = s.len();
            assert(s@.len() == n);
            assert(n <= u64::MAX) by (bit_vector);
        }
        self.lat_samples = s;
    }

    /// The latency (ns) of the next submitted order: the fixed latency when
    /// there are no samples; otherwise the sample picked by one xorshift64
    /// step of the sampler state, modulo the number of samples.
    pub fn next_latency(&mut self) -> (lat: u64)
        requires
            old(self).wf(),
        ensures
            final(self).wf(),
            old(self).latency_samples().len() == 0 ==> lat == old(self).fixed_latency()
                && final(self).sampler_state() == old(self).sampler_state(),
            lat == old(self).sampled_latency(),
            old(self).latency_samples().len() > 0 ==> final(self).sampler_state() == xorshift64(
                old(self).sampler_state(),
            ),
            old(self).latency_samples().len() > 0 ==> lat == old(self).latency_samples()[(final(self).sampler_state() as int) % (old(self).latency_samples().len() as int)],
            final(self).latency_samples() == old(self).latency_samples(),
            final(self).fixed_latency() == old(self).fixed_latency(),
            final(self).cancel_latency() == old(self).cancel_latency(),
            final(self).clock() == old(self).clock(),
            final(self).has_started() == old(self).has_started(),
            final(self).in_flight() == old(self).in_flight(),
            final(self).book() == old(self).book(),
            final(self).next_seq() == old(self).next_seq(),
            final(self).submitted() == old(self).submitted(),
            final(self).filled() == old(self).filled(),
            final(self).maker_filled() == old(self).maker_filled(),
            final(self).rested() == old(self).rested(),
            final(self).rejected() == old(self).rejected(),
            final(self).processed() == old(self).processed(),
            final(self).quotes_sent() == old(self).quotes_sent(),
            final(self).filled_quote_ids() == old(self).filled_quote_ids(),
            final(self).max_inventory() == old(self).max_inventory(),
    {
        if self.lat_samples.len() == 0 {
            return self.order_latency_ns;
        }
        let mut x = self.lat_rng;
        x = x ^ (x << 13u64);
        x = x ^ (x >> 7u64);
        x = x ^ (x << 17u64);
        self.lat_rng = x;
        let idx = (x % (self.lat_samples.len() as u64)) as usize;
        self.lat_samples[idx]
    }

    /// Advance the virtual clock to an event's `local_ts`. A timestamp earlier
    /// than the clock (after the first event) is a non-monotonic stream: it is
    /// refused with an error naming both timestamps and nothing changes.
    pub fn begin_event(&mut self, t: u64) -> (r: Result<(), String>)
        requires
            old(self).wf(),
        ensures
            final(self).wf(),
            old(self).has_started() && t < old(self).clock() ==> r is Err && r->Err_0@ == non_monotonic_msg(
                old(self).clock(),
                t,
            ) && final(self).clock() == old(self).clock() && final(self).has_started() == old(
                self,
            ).has_started(),
            !(old(self).has_started() && t < old(self).clock()) ==> r is Ok && final(self).clock() == t
                && final(self).has_started(),
            final(self).latency_samples() == old(self).latency_samples(),
            final(self).fixed_latency() == old(self).fixed_latency(),
            final(self).cancel_latency() == old(self).cancel_latency(),
            final(self).sampler_state() == old(self).sampler_state(),
            final(self).in_flight() == old(self).in_flight(),
            final(self).book() == old(self).book(),
            final(self).next_seq() == old(self).next_seq(),
            final(self).submitted() == old(self).submitted(),
            final(self).filled() == old(self).filled(),
            final(self).maker_filled() == old(self).maker_filled(),
            final(self).rested() == old(self).rested(),
            final(self).rejected() == old(self).rejected(),
            final(self).processed() == old(self).processed(),
            final(self).quotes_sent() == old(self).quotes_sent(),
            final(self).filled_quote_ids() == old(self).filled_quote_ids(),
            final(self).max_inventory() == old(self).max_inventory(),
    {
        if self.started && t < self.now {
            let m = with_int("non-monotonic local_ts: prev ".to_string(), self.now as i128);
            let m = with_str(m, " got ");
            let m = with_int(m, t as i128);
            return Err(m);
        }
        self.now = t;
        self.started = true;
        Ok(())
    }

    /// Submit an order action at time `t`: a cancel travels on the cancel
    /// latency, any other order samples a latency; it joins the in-flight
    /// queue to reach the matcher at `t + latency`, behind every order
    /// arriving no later. A maker quote (`Place`) also counts as a submitted
    /// quote. An arrival past the end of the clock is an error and leaves the
    /// queue and counters as they were.
    pub fn submit(&mut self, t: u64, order: LagOrder) -> (r: Result<(), String>)
        requires
            old(self).wf(),
            old(self).next_seq() < u64::MAX,
            old(self).submitted() < u64::MAX,
            order.kind == LagOrderKind::Place ==> old(self).quotes_sent() < u64::MAX,
        ensures
            final(self).wf(),
            ({
                let lat = old(self).latency_for(order);
                &&& t + lat > u64::MAX ==> r is Err && r->Err_0@ == arrival_overflow_msg()
                    && final(self).in_flight() == old(self).in_flight()
                    && final(self).next_seq() == old(self).next_seq()
                    && final(self).submitted() == old(self).submitted()
                    && final(self).quotes_sent() == old(self).quotes_sent()
                &&& t + lat <= u64::MAX ==> r is Ok
                    && final(self).next_seq() == old(self).next_seq() + 1
                    && final(self).submitted() == old(self).submitted() + 1
                    && final(self).quotes_sent() == old(self).quotes_sent() + (if order.kind
                        == LagOrderKind::Place { 1int } else { 0int })
                    && exists|idx: int|
                    0 <= idx <= old(self).in_flight().len() && final(self).in_flight() == #[trigger] old(
                        self,
                    ).in_flight().insert(
                        idx,
                        Pending { arrival: (t + lat) as u64, seq: old(self).next_seq(), order },
                    )
            }),
            order.kind == LagOrderKind::Cancel || old(self).latency_samples().len() == 0
                ==> final(self).sampler_state() == old(self).sampler_state(),
            order.kind != LagOrderKind::Cancel && old(self).latency_samples().len() > 0
                ==> final(self).sampler_state() == xorshift64(old(self).sampler_state()),
            final(self).latency_samples() == old(self).latency_samples(),
            final(self).fixed_latency() == old(self).fixed_latency(),
            final(self).cancel_latency() == old(self).cancel_latency(),
            final(self).clock() == old(self).clock(),
            final(self).has_started() == old(self).has_started(),
            final(self).book() == old(self).book(),
            final(self).filled() == old(self).filled(),
            final(self).maker_filled() == old(self).maker_filled(),
            final(self).rested() == old(self).rested(),
            final(self).rejected() == old(self).rejected(),
            final(self).processed() == old(self).processed(),
            final(self).filled_quote_ids() == old(self).filled_quote_ids(),
            final(self).max_inventory() == old(self).max_inventory(),
    {
        let lat = if order.kind == LagOrderKind::Cancel {
            self.cancel_latency_ns
        } else {
            self.next_latency()
        };
        let arrival = match t.checked_add(lat) {
            Some(a) => a,
            None => {
                return Err("order arrival overflow".to_string());
            },
        };
        let p = Pending { arrival, seq: self.seq, order };
        let mut idx: usize = self.pending.len();
        while idx > 0 && self.pending[idx - 1].arrival > arrival
            invariant
                idx <= self.pending@.len(),
                forall|k: int| idx <= k < self.pending@.len() ==> (#[trigger] self.pending@[k]).arrival > arrival,
            decreases idx,
        {
            idx = idx - 1;
        }
        proof {
            let q = self.pending@;
            assert(idx == 0 || q[idx - 1].arrival <= arrival);
            assert forall|k: int| 0 <= k < idx implies #[trigger] q[k].arrival <= arrival by {
                if k < idx - 1 {
                    assert(arrives_before(q[k], q[idx - 1]));
                }
            }
        }
        let ghost old_q = self.pending@;
        self.pending.insert(idx, p);
        proof {
            let nq = self.pending@;
            assert(nq == old_q.insert(idx as int, p));
            assert forall|i: int, j: int| 0 <= i < j < nq.len() implies arrives_before(
                #[trigger] nq[i],
                #[trigger] nq[j],
            ) by {
                if j < idx {
                    assert(arrives_before(old_q[i], old_q[j]));
                } else if j == idx {
                    assert(old_q[i].seq < self.seq);
                } else if i < idx {
                    assert(arrives_before(old_q[i], old_q[j - 1]));
                } else if i == idx {
                    assert(old_q[j - 1].seq < self.seq);
                } else {
                    assert(arrives_before(old_q[i - 1], old_q[j - 1]));
                }
            }
        }
        self.seq = self.seq + 1;
        self.orders_submitted = self.orders_submitted + 1;
        if order.kind == LagOrderKind::Place {
            self.quotes_submitted = self.quotes_submitted + 1;
        }
        assert(self.pending@ == old(self).in_flight().insert(idx as int, p));
        Ok(())
    }

    /// Submit a cancel of client id `id` at time `t`: it lands at
    /// `t + cancel latency`; until then the order stays resting and fillable.
    pub fn submit_cancel(&mut self, t: u64, id: u64) -> (r: Result<(), String>)
        requires
            old(self).wf(),
            old(self).next_seq() < u64::MAX,
            old(self).submitted() < u64::MAX,
        ensures
            final(self).wf(),
            t + old(self).cancel_latency() > u64::MAX ==> r is Err && r->Err_0@ == arrival_overflow_msg()
                && final(self).in_flight() == old(self).in_flight()
                && final(self).next_seq() == old(self).next_seq()
                && final(self).submitted() == old(self).submitted(),
            t + old(self).cancel_latency() <= u64::MAX ==> r is Ok
                && final(self).next_seq() == old(self).next_seq() + 1
                && final(self).submitted() == old(self).submitted() + 1
                && exists|idx: int|
                0 <= idx <= old(self).in_flight().len() && final(self).in_flight() == #[trigger] old(
                    self,
                ).in_flight().insert(
                    idx,
                    Pending {
                        arrival: (t + old(self).cancel_latency()) as u64,
                        seq: old(self).next_seq(),
                        order: LagOrder::cancel_spec(id),
                    },
                ),
            final(self).sampler_state() == old(self).sampler_state(),
            final(self).latency_samples() == old(self).latency_samples(),
            final(self).fixed_latency() == old(self).fixed_latency(),
            final(self).cancel_latency() == old(self).cancel_latency(),
            final(self).clock() == old(self).clock(),
            final(self).has_started() == old(self).has_started(),
            final(self).book() == old(self).book(),
            final(self).filled() == old(self).filled(),
            final(self).maker_filled() == old(self).maker_filled(),
            final(self).rested() == old(self).rested(),
            final(self).rejected() == old(self).rejected(),
            final(self).processed() == old(self).processed(),
            final(self).quotes_sent() == old(self).quotes_sent(),
            final(self).filled_quote_ids() == old(self).filled_quote_ids(),
            final(self).max_inventory() == old(self).max_inventory(),
    {
        self.submit(t, LagOrder::cancel(id))
    }

    /// Deliver the next due order: the in-flight order first in matcher order
    /// (earliest arrival, then earliest submission), if it has arrived by
    /// `now`. A delivered cancel takes every resting order with its client id
    /// out of the book; any other delivered order is left for the caller to
    /// execute. Returns `None` and changes nothing when nothing has arrived.
    pub fn pop_due(&mut self, now: u64) -> (r: Option<LagOrder>)
        requires
            old(self).wf(),
        ensures
            final(self).wf(),
            old(self).in_flight().len() > 0 && old(self).in_flight()[0].arrival <= now ==> r == Some(
                old(self).in_flight()[0].order,
            ) && final(self).in_flight() == old(self).in_flight().drop_first(),
            !(old(self).in_flight().len() > 0 && old(self).in_flight()[0].arrival <= now) ==> r is None
                && final(self).in_flight() == old(self).in_flight(),
            r is Some && r->0.kind == LagOrderKind::Cancel ==> final(self).book() == book_without(
                old(self).book(),
                r->0.id,
            ),
            !(r is Some && r->0.kind == LagOrderKind::Cancel) ==> final(self).book() == old(self).book(),
            final(self).latency_samples() == old(self).latency_samples(),
            final(self).fixed_latency() == old(self).fixed_latency(),
            final(self).cancel_latency() == old(self).cancel_latency(),
            final(self).sampler_state() == old(self).sampler_state(),
            final(self).clock() == old(self).clock(),
            final(self).has_started() == old(self).has_started(),
            final(self).next_seq() == old(self).next_seq(),
            final(self).submitted() == old(self).submitted(),
            final(self).filled() == old(self).filled(),
            final(self).maker_filled() == old(self).maker_filled(),
            final(self).rested() == old(self).rested(),
            final(self).rejected() == old(self).rejected(),
            final(self).processed() == old(self).processed(),
            final(self).quotes_sent() == old(self).quotes_sent(),
            final(self).filled_quote_ids() == old(self).filled_quote_ids(),
            final(self).max_inventory() == old(self).max_inventory(),
    {
        if self.pending.len() > 0 && self.pending[0].arrival <= now {
            let p = self.pending.remove(0);
            proof {
                let q = self.pending@;
                assert forall|i: int, j: int| 0 <= i < j < q.len() implies arrives_before(
                    #[trigger] q[i],
                    #[trigger] q[j],
                ) by {
                    assert(q[i] == old(self).pending@[i + 1]);
                    assert(q[j] == old(self).pending@[j + 1]);
                }
                assert forall|i: int| 0 <= i < q.len() implies (#[trigger] q[i]).seq < self.seq by {
                    assert(q[i] == old(self).pending@[i + 1]);
                }
            }
            if p.order.kind == LagOrderKind::Cancel {
                self.remove_id(p.order.id);
            }
            Some(p.order)
        } else {
            None
        }
    }

    /// Take every resting order with client id `id` out of the book.
    fn remove_id(&mut self, id: u64)
        requires
            old(self).wf(),
        ensures
            final(self).wf(),
            final(self).book() == book_without(old(self).book(), id),
            final(self).pending == old(self).pending,
            final(self).lat_samples == old(self).lat_samples,
            final(self).order_latency_ns == old(self).order_latency_ns,
            final(self).cancel_latency_ns == old(self).cancel_latency_ns,
            final(self).lat_rng == old(self).lat_rng,
            final(self).now == old(self).now,
            final(self).started == old(self).started,
            final(self).seq == old(self).seq,
            final(self).orders_submitted == old(self).orders_submitted,
            final(self).orders_filled == old(self).orders_filled,
            final(self).maker_fills == old(self).maker_fills,
            final(self).orders_rested == old(self).orders_rested,
            final(self).orders_rejected == old(self).orders_rejected,
            final(self).events == old(self).events,
            final(self).quotes_submitted == old(self).quotes_submitted,
            final(self).filled_ids == old(self).filled_ids,
            final(self).max_abs_inventory == old(self).max_abs_inventory,
    {
        let ghost orig = self.resting@;
        let mut kept: Vec<RestingOrder> = Vec::new();
        let n = self.resting.len();
        let mut i: usize = 0;
        while i < n
            invariant
                n == self.resting@.len(),
                orig == self.resting@,
                i <= n,
                kept@ == book_without(orig.take(i as int), id),
                forall|k: int| 0 <= k < orig.len() ==> (#[trigger] orig[k]).queue_ahead >= 0,
                forall|k: int| 0 <= k < kept@.len() ==> (#[trigger] kept@[k]).queue_ahead >= 0,
            decreases n - i,
        {
            let o = self.resting[i];
            proof {
                assert(orig.take(i + 1).drop_last() == orig.take(i as int));
                assert(orig.take(i + 1).last() == o);
            }
            if o.id != id {
                kept.push(o);
            }
            i = i + 1;
        }
        proof {
            assert(orig.take(n as int) == orig);
        }
        self.resting = kept;
    }

    /// Rest a non-marketable limit order in the book behind `queue_ahead` of
    /// displayed quantity at its price.
    pub fn rest(&mut self, order: LagOrder, queue_ahead: i64)
        requires
            old(self).wf(),
            queue_ahead >= 0,
            old(self).rested() < u64::MAX,
        ensures
            final(self).wf(),
            final(self).book() == old(self).book().push(
                RestingOrder {
                    id: order.id,
                    side: order.side,
                    price: order.price,
                    qty_remaining: order.qty,
                    queue_ahead,
                },
            ),
            final(self).rested() == old(self).rested() + 1,
            final(self).latency_samples() == old(self).latency_samples(),
            final(self).fixed_latency() == old(self).fixed_latency(),
            final(self).cancel_latency() == old(self).cancel_latency(),
            final(self).sampler_state() == old(self).sampler_state(),
            final(self).clock() == old(self).clock(),
            final(self).has_started() == old(self).has_started(),
            final(self).in_flight() == old(self).in_flight(),
            final(self).next_seq() == old(self).next_seq(),
            final(self).submitted() == old(self).submitted(),
            final(self).filled() == old(self).filled(),
            final(self).maker_filled() == old(self).maker_filled(),
            final(self).rejected() == old(self).rejected(),
            final(self).processed() == old(self).processed(),
            final(self).quotes_sent() == old(self).quotes_sent(),
            final(self).filled_quote_ids() == old(self).filled_quote_ids(),
            final(self).max_inventory() == old(self).max_inventory(),
    {
        self.resting.push(
            RestingOrder {
                id: order.id,
                side: order.side,
                price: order.price,
                qty_remaining: order.qty,
                queue_ahead,
            },
        );
        self.orders_rested = self.orders_rested + 1;
    }

    /// Count one taker fill (booked by the caller against its book).
    pub fn record_taker_fill(&mut self)
        requires
            old(self).wf(),
            old(self).filled() < u64::MAX,
        ensures
            final(self).wf(),
            final(self).filled() == old(self).filled() + 1,
            final(self).latency_samples() == old(self).latency_samples(),
            final(self).fixed_latency() == old(self).fixed_latency(),
            final(self).cancel_latency() == old(self).cancel_latency(),
            final(self).sampler_state() == old(self).sampler_state(),
            final(self).clock() == old(self).clock(),
            final(self).has_started() == old(self).has_started(),
            final(self).in_flight() == old(self).in_flight(),
            final(self).book() == old(self).book(),
            final(self).next_seq() == old(self).next_seq(),
            final(self).submitted() == old(self).submitted(),
            final(self).maker_filled() == old(self).maker_filled(),
            final(self).rested() == old(self).rested(),
            final(self).rejected() == old(self).rejected(),
            final(self).processed() == old(self).processed(),
            final(self).quotes_sent() == old(self).quotes_sent(),
            final(self).filled_quote_ids() == old(self).filled_quote_ids(),
            final(self).max_inventory() == old(self).max_inventory(),
    {
        self.orders_filled = self.orders_filled + 1;
    }

    /// Count one order that found no liquidity.
    pub fn record_rejection(&mut self)
        requires
            old(self).wf(),
            old(self).rejected() < u64::MAX,
        ensures
            final(self).wf(),
            final(self).rejected() == old(self).rejected() + 1,
            final(self).latency_samples() == old(self).latency_samples(),
            final(self).fixed_latency() == old(self).fixed_latency(),
            final(self).cancel_latency() == old(self).cancel_latency(),
            final(self).sampler_state() == old(self).sampler_state(),
            final(self).clock() == old(self).clock(),
            final(self).has_started() == old(self).has_started(),
            final(self).in_flight() == old(self).in_flight(),
            final(self).book() == old(self).book(),
            final(self).next_seq() == old(self).next_seq(),
            final(self).submitted() == old(self).submitted(),
            final(self).filled() == old(self).filled(),
            final(self).maker_filled() == old(self).maker_filled(),
            final(self).rested() == old(self).rested(),
            final(self).processed() == old(self).processed(),
            final(self).quotes_sent() == old(self).quotes_sent(),
            final(self).filled_quote_ids() == old(self).filled_quote_ids(),
            final(self).max_inventory() == old(self).max_inventory(),
    {
        self.orders_rejected = self.orders_rejected + 1;
    }

    /// Count one processed event.
    pub fn end_event(&mut self)
        requires
            old(self).wf(),
            old(self).processed() < u64::MAX,
        ensures
            final(self).wf(),
            final(self).processed() == old(self).processed() + 1,
            final(self).latency_samples() == old(self).latency_samples(),
            final(self).fixed_latency() == old(self).fixed_latency(),
            final(self).cancel_latency() == old(self).cancel_latency(),
            final(self).sampler_state() == old(self).sampler_state(),
            final(self).clock() == old(self).clock(),
            final(self).has_started() == old(self).has_started(),
            final(self).in_flight() == old(self).in_flight(),
            final(self).book() == old(self).book(),
            final(self).next_seq() == old(self).next_seq(),
            final(self).submitted() == old(self).submitted(),
            final(self).filled() == old(self).filled(),
            final(self).maker_filled() == old(self).maker_filled(),
            final(self).rested() == old(self).rested(),
            final(self).rejected() == old(self).rejected(),
            final(self).quotes_sent() == old(self).quotes_sent(),
            final(self).filled_quote_ids() == old(self).filled_quote_ids(),
            final(self).max_inventory() == old(self).max_inventory(),
    {
        self.events = self.events + 1;
    }

    /// An execution-venue trade prints (aggressor `aggr`, raw `tprice`,
    /// `tqty`): every resting maker order the tape trades through first
    /// burns down the queue ahead of it, and whatever of the trade is left
    /// fills it at its own limit price. Each order sees the whole trade.
    /// Returns the maker fills in book order; a trade of no size does nothing.
    pub fn on_trade(&mut self, aggr: Side, tprice: i64, tqty: i64) -> (fills: Vec<MakerFill>)
        requires
            old(self).wf(),
            old(self).filled() + old(self).book().len() <= u64::MAX,
        ensures
            final(self).wf(),
            fills@ == fills_from_trade(old(self).book(), aggr, tprice, tqty),
            final(self).book() == book_after_trade(old(self).book(), aggr, tprice, tqty),
            final(self).filled() == old(self).filled() + fills@.len(),
            final(self).maker_filled() == old(self).maker_filled() + fills@.len(),
            final(self).latency_samples() == old(self).latency_samples(),
            final(self).fixed_latency() == old(self).fixed_latency(),
            final(self).cancel_latency() == old(self).cancel_latency(),
            final(self).sampler_state() == old(self).sampler_state(),
            final(self).clock() == old(self).clock(),
            final(self).has_started() == old(self).has_started(),
            final(self).in_flight() == old(self).in_flight(),
            final(self).next_seq() == old(self).next_seq(),
            final(self).submitted() == old(self).submitted(),
            final(self).rested() == old(self).rested(),
            final(self).rejected() == old(self).rejected(),
            final(self).processed() == old(self).processed(),
            final(self).quotes_sent() == old(self).quotes_sent(),
            final(self).filled_quote_ids() == note_fill_ids(old(self).filled_quote_ids(), fills@),
            final(self).max_inventory() == old(self).max_inventory(),
    {
        let mut fills: Vec<MakerFill> = Vec::new();
        if tqty <= 0 {
            return fills;
        }
        let ghost orig = self.resting@;
        let mut ids: Vec<u64> = Vec::new();
        std::mem::swap(&mut ids, &mut self.filled_ids);
        let ghost ids0 = ids@;
        let mut kept: Vec<RestingOrder> = Vec::new();
        let n = self.resting.len();
        let mut i: usize = 0;
        while i < n
            invariant
                tqty > 0,
                n == self.resting@.len(),
                orig == self.resting@,
                i <= n,
                kept@ == book_after_trade(orig.take(i as int), aggr, tprice, tqty),
                fills@ == fills_from_trade(orig.take(i as int), aggr, tprice, tqty),
                fills@.len() <= i,
                ids@ == note_fill_ids(ids0, fills@),
                ids@.no_duplicates(),
                forall|k: int| 0 <= k < orig.len() ==> (#[trigger] orig[k]).queue_ahead >= 0,
                forall|k: int| 0 <= k < kept@.len() ==> (#[trigger] kept@[k]).queue_ahead >= 0,
            decreases n - i,
        {
            let mut o = self.resting[i];
            proof {
                assert(orig.take(i + 1).drop_last() == orig.take(i as int));
                assert(orig.take(i + 1).last() == o);
            }
            let crossing = match (o.side, aggr) {
                (Side::Bid, Side::Ask) => tprice <= o.price,
                (Side::Ask, Side::Bid) => tprice >= o.price,
                _ => false,
            };
            if !crossing {
                kept.push(o);
            } else if o.queue_ahead >= tqty {
                o.queue_ahead = o.queue_ahead - tqty;
                kept.push(o);
            } else {
                let avail = tqty - o.queue_ahead;
                o.queue_ahead = 0;
                let fill = if avail < o.qty_remaining { avail } else { o.qty_remaining };
                if fill > 0 {
                    let ghost before = fills@;
                    let mf = MakerFill { id: o.id, side: o.side, price: o.price, qty: fill };
                    fills.push(mf);
                    proof {
                        assert(fills@.drop_last() == before);
                        assert(fills@.last() == mf);
                    }
                    note_id(&mut ids, o.id);
                    o.qty_remaining = o.qty_remaining - fill;
                }
                if o.qty_remaining != 0 {
                    kept.push(o);
                }
            }
            i = i + 1;
        }
        proof {
            assert(orig.take(n as int) == orig);
        }
        self.resting = kept;
        self.filled_ids = ids;
        self.orders_filled = self.orders_filled + fills.len() as u64;
        self.maker_fills = self.maker_fills + fills.len() as u64;
        fills
    }

    /// Note the position after a fill: the largest absolute position seen
    /// so far is kept.
    pub fn note_position(&mut self, pos: i64)
        requires
            old(self).wf(),
        ensures
            final(self).wf(),
            final(self).max_inventory() == (if unsigned_abs(pos) > old(self).max_inventory() {
                unsigned_abs(pos)
            } else {
                old(self).max_inventory()
            }),
            final(self).latency_samples() == old(self).latency_samples(),
            final(self).fixed_latency() == old(self).fixed_latency(),
            final(self).cancel_latency() == old(self).cancel_latency(),
            final(self).sampler_state() == old(self).sampler_state(),
            final(self).clock() == old(self).clock(),
            final(self).has_started() == old(self).has_started(),
            final(self).in_flight() == old(self).in_flight(),
            final(self).book() == old(self).book(),
            final(self).next_seq() == old(self).next_seq(),
            final(self).submitted() == old(self).submitted(),
            final(self).filled() == old(self).filled(),
            final(self).maker_filled() == old(self).maker_filled(),
            final(self).rested() == old(self).rested(),
            final(self).rejected() == old(self).rejected(),
            final(self).processed() == old(self).processed(),
            final(self).quotes_sent() == old(self).quotes_sent(),
            final(self).filled_quote_ids() == old(self).filled_quote_ids(),
    {
        let a: u64 = if pos < 0 {
            if pos == i64::MIN {
                0x8000_0000_0000_0000u64
            } else {
                (-pos) as u64
            }
        } else {
            pos as u64
        };
        if a > self.max_abs_inventory {
            self.max_abs_inventory = a;
        }
    }

    /// Maker quotes submitted.
    pub fn quotes_submitted(&self) -> (r: u64)
        ensures
            r == self.quotes_sent(),
    {
        self.quotes_submitted
    }

    /// Distinct maker quotes (by client id) that took at least one fill.
    pub fn quotes_filled(&self) -> (r: u64)
        ensures
            r == self.filled_quote_ids().len(),
    {
        self.filled_ids.len() as u64
    }

    /// Largest absolute position noted.
    pub fn max_abs_inventory(&self) -> (r: u64)
        ensures
            r == self.max_inventory(),
    {
        self.max_abs_inventory
    }

    /// Virtual clock (ns).
    pub fn now(&self) -> (r: u64)
        ensures
            r == self.clock(),
    {
        self.now
    }

    /// Next submission sequence number.
    pub fn seq(&self) -> (r: u64)
        ensures
            r == self.next_seq(),
    {
        self.seq
    }

    /// Number of resting maker orders.
    pub fn resting_len(&self) -> (r: usize)
        ensures
            r == self.book().len(),
    {
        self.resting.len()
    }

    /// Number of in-flight orders.
    pub fn pending_len(&self) -> (r: usize)
        ensures
            r == self.in_flight().len(),
    {
        self.pending.len()
    }

    /// Events processed.
    pub fn events(&self) -> (r: u64)
        ensures
            r == self.processed(),
    {
        self.events
    }

    /// Orders the strategy submitted.
    pub fn orders_submitted(&self) -> (r: u64)
        ensures
            r == self.submitted(),
    {
        self.orders_submitted
    }

    /// Orders filled (taker + maker).
    pub fn orders_filled(&self) -> (r: u64)
        ensures
            r == self.filled(),
    {
        self.orders_filled
    }

    /// Of the fills, how many were maker (queue) fills.
    pub fn maker_fills(&self) -> (r: u64)
        ensures
            r == self.maker_filled(),
    {
        self.maker_fills
    }

    /// Limit orders that rested passively.
    pub fn orders_rested(&self) -> (r: u64)
        ensures
            r == self.rested(),
    {
        self.orders_rested
    }

    /// Orders that found no liquidity.
    pub fn orders_rejected(&self) -> (r: u64)
        ensures
            r == self.rejected(),
    {
        self.orders_rejected
    }
}


/// Add `id` to a list of distinct ids unless it is already there.
fn note_id(ids: &mut Vec<u64>, id: u64)
    requires
        old(ids)@.no_duplicates(),
    ensures
        final(ids)@ == (if old(ids)@.contains(id) { old(ids)@ } else { old(ids)@.push(id) }),
        final(ids)@.no_duplicates(),
{
    let n = ids.len();
    let mut i: usize = 0;
    while i < n
        invariant
            n == ids@.len(),
            ids@ == old(ids)@,
            ids@.no_duplicates(),
            i <= n,
            forall|k: int| 0 <= k < i ==> ids@[k] != id,
        decreases n - i,
    {
        if ids[i] == id {
            assert(ids@.contains(id) && ids@[i as int] == id);
            return;
        }
        i = i + 1;
    }
    assert(!ids@.contains(id));
    let ghost before = ids@;
    ids.push(id);
    assert forall|a: int, b: int| 0 <= a < b < ids@.len() implies ids@[a] != ids@[b] by {
        if b == ids@.len() - 1 {
            assert(ids@[b] == id);
            assert(ids@[a] == before[a]);
        } else {
            assert(ids@[a] == before[a] && ids@[b] == before[b]);
        }
    }
}

/// Total unfilled quantity over resting orders.
pub open spec fn total_remaining(rs: Seq<RestingOrder>) -> int
    decreases rs.len(),
{
    if rs.len() == 0 {
        0
    } else {
        total_remaining(rs.drop_last()) + rs.last().qty_remaining
    }
}

/// Total quantity over maker fills.
pub open spec fn total_filled(fs: Seq<MakerFill>) -> int
    decreases fs.len(),
{
    if fs.len() == 0 {
        0
    } else {
        total_filled(fs.drop_last()) + fs.last().qty
    }
}

/// Quantity is conserved through a trade: what the trade fills plus what
/// stays resting equals what was resting before.
pub proof fn lemma_trade_conserves_quantity(rs: Seq<RestingOrder>, aggr: Side, tprice: i64, tqty: i64)
    ensures
        total_filled(fills_from_trade(rs, aggr, tprice, tqty)) + total_remaining(
            book_after_trade(rs, aggr, tprice, tqty),
        ) == total_remaining(rs),
    decreases rs.len(),
{
    if tqty > 0 && rs.len() > 0 {
        lemma_trade_conserves_quantity(rs.drop_last(), aggr, tprice, tqty);
        let prev_b = book_after_trade(rs.drop_last(), aggr, tprice, tqty);
        let prev_f = fills_from_trade(rs.drop_last(), aggr, tprice, tqty);
        let r = rs.last();
        match order_after_trade(r, aggr, tprice, tqty) {
            Some(o) => {
                assert(prev_b.push(o).drop_last() == prev_b);
            },
            None => {},
        }
        let f = trade_fill_qty(r, aggr, tprice, tqty);
        if f > 0 {
            let mf = MakerFill { id: r.id, side: r.side, price: r.price, qty: f as i64 };
            assert(prev_f.push(mf).drop_last() == prev_f);
        }
    }
}

/// Every maker fill is at the resting limit of an order the trade printed
/// through (never at a better price for us than the trade), carries that
/// order's client id, is positive, and never exceeds the trade's size.
pub proof fn lemma_fills_at_resting_limit(rs: Seq<RestingOrder>, aggr: Side, tprice: i64, tqty: i64)
    requires
        forall|k: int| 0 <= k < rs.len() ==> (#[trigger] rs[k]).queue_ahead >= 0,
    ensures
        forall|k: int|
            0 <= k < fills_from_trade(rs, aggr, tprice, tqty).len() ==> {
                let f = #[trigger] fills_from_trade(rs, aggr, tprice, tqty)[k];
                &&& 0 < f.qty <= tqty
                &&& f.side == Side::Bid ==> aggr == Side::Ask && tprice <= f.price
                &&& f.side == Side::Ask ==> aggr == Side::Bid && tprice >= f.price
                &&& exists|j: int| 0 <= j < rs.len() && (#[trigger] rs[j]).side == f.side && rs[j].price == f.price && rs[j].id == f.id
            },
    decreases rs.len(),
{
    if tqty > 0 && rs.len() > 0 {
        let init = rs.drop_last();
        assert forall|k: int| 0 <= k < init.len() implies (#[trigger] init[k]).queue_ahead >= 0 by {
            assert(init[k] == rs[k]);
        }
        lemma_fills_at_resting_limit(init, aggr, tprice, tqty);
        let fs = fills_from_trade(rs, aggr, tprice, tqty);
        let prev = fills_from_trade(init, aggr, tprice, tqty);
        assert forall|k: int| 0 <= k < fs.len() implies {
            let f = #[trigger] fs[k];
            &&& 0 < f.qty <= tqty
            &&& f.side == Side::Bid ==> aggr == Side::Ask && tprice <= f.price
            &&& f.side == Side::Ask ==> aggr == Side::Bid && tprice >= f.price
            &&& exists|j: int| 0 <= j < rs.len() && (#[trigger] rs[j]).side == f.side && rs[j].price == f.price && rs[j].id == f.id
        } by {
            if k < prev.len() {
                let f = prev[k];
                let j = choose|j: int| 0 <= j < init.len() && (#[trigger] init[j]).side == f.side && init[j].price == f.price && init[j].id == f.id;
                assert(rs[j] == init[j]);
            } else {
                let j = rs.len() - 1;
                assert(rs[j] == rs.last());
                assert(rs[j].side == fs[k].side && rs[j].price == fs[k].price && rs[j].id == fs[k].id);
            }
        }
    }
}

/// A trade that prints through none of the resting orders fills nothing and
/// leaves the book as it was: without a through-trade, an order never fills.
pub proof fn lemma_no_through_trade_no_fill(rs: Seq<RestingOrder>, aggr: Side, tprice: i64, tqty: i64)
    requires
        forall|k: int| 0 <= k < rs.len() ==> !crosses(#[trigger] rs[k], aggr, tprice),
    ensures
        fills_from_trade(rs, aggr, tprice, tqty) == Seq::<MakerFill>::empty(),
        book_after_trade(rs, aggr, tprice, tqty) == rs,
    decreases rs.len(),
{
    if tqty > 0 && rs.len() > 0 {
        let init = rs.drop_last();
        assert forall|k: int| 0 <= k < init.len() implies !crosses(#[trigger] init[k], aggr, tprice) by {
            assert(init[k] == rs[k]);
        }
        lemma_no_through_trade_no_fill(init, aggr, tprice, tqty);
        assert(!crosses(rs[rs.len() - 1], aggr, tprice));
        assert(init.push(rs.last()) == rs);
    }
}

/// The latency an order gets is the fixed latency when no samples were
/// supplied, and otherwise always one of the supplied samples.
pub proof fn lemma_sampled_latency_is_a_sample(core: LagCore)
    requires
        core.wf(),
    ensures
        core.latency_samples().len() == 0 ==> core.sampled_latency() == core.fixed_latency(),
        core.latency_samples().len() > 0 ==> exists|i: int|
            0 <= i < core.latency_samples().len() && #[trigger] core.latency_samples()[i]
                == core.sampled_latency(),
{
    if core.latency_samples().len() > 0 {
        let n = core.latency_samples().len() as u64;
        let i = (xorshift64(core.sampler_state()) % n) as int;
        assert(0 <= i < core.latency_samples().len());
        assert(core.latency_samples()[i] == core.sampled_latency());
    }
}

/// With latency samples, the sampler steps its state once per order and the
/// order's latency is the sample at that new state modulo the number of
/// samples, so successive orders draw from the whole empirical distribution
/// rather than from one fixed sample.
pub proof fn lemma_sampled_latency_follows_the_sampler(core: LagCore)
    requires
        core.wf(),
        core.latency_samples().len() > 0,
    ensures
        ({
            let n = core.latency_samples().len();
            let x = xorshift64(core.sampler_state());
            &&& core.sampled_latency() == core.latency_samples()[(x as int) % (n as int)]
            &&& forall|o: LagOrder| o.kind != LagOrderKind::Cancel ==> #[trigger] core.latency_for(o)
                == core.latency_samples()[(x as int) % (n as int)]
        }),
{
    let n = core.latency_samples().len();
    assert(n <= u64::MAX);
    let x = xorshift64(core.sampler_state());
    assert((x % (n as u64)) as int == (x as int) % (n as int));
}

/// A trade that crosses a resting order and is larger than the queue ahead
/// of it consumes that whole queue: the order fills by the excess (up to what
/// remains of it), and any remainder stays at the front of its price level
/// (no queue ahead), so the next crossing trade fills it from its first
/// unit.
pub proof fn lemma_through_trade_consumes_the_queue(
    r: RestingOrder,
    aggr: Side,
    tprice: i64,
    tqty: i64,
    aggr2: Side,
    tprice2: i64,
    tqty2: i64,
)
    requires
        r.queue_ahead >= 0,
        r.qty_remaining > 0,
        crosses(r, aggr, tprice),
        tqty > r.queue_ahead,
    ensures
        trade_fill_qty(r, aggr, tprice, tqty) == (if tqty - r.queue_ahead < r.qty_remaining {
            tqty - r.queue_ahead
        } else {
            r.qty_remaining as int
        }),
        order_after_trade(r, aggr, tprice, tqty) is None <==> tqty - r.queue_ahead >= r.qty_remaining,
        order_after_trade(r, aggr, tprice, tqty) matches Some(o) ==> {
            &&& o.queue_ahead == 0
            &&& o.qty_remaining == r.qty_remaining - (tqty - r.queue_ahead)
            &&& o.id == r.id && o.side == r.side && o.price == r.price
            &&& crosses(o, aggr2, tprice2) && tqty2 > 0 ==> trade_fill_qty(o, aggr2, tprice2, tqty2) == (
            if tqty2 < o.qty_remaining {
                tqty2 as int
            } else {
                o.qty_remaining as int
            })
        },
{
}

/// Every well-formed core keeps its in-flight orders in matcher order.
pub proof fn lemma_in_flight_is_ordered(core: LagCore)
    requires
        core.wf(),
    ensures
        queue_ordered(core.in_flight()),
{
}

/// Where a submitted order joins the in-flight queue is determined: only
/// one position keeps the queue in matcher order, so replaying the same
/// submissions rebuilds the same queue.
pub proof fn lemma_submit_position_unique(q: Seq<Pending>, p: Pending, i: int, j: int)
    requires
        0 <= i <= q.len(),
        0 <= j <= q.len(),
        queue_ordered(q.insert(i, p)),
        queue_ordered(q.insert(j, p)),
    ensures
        i == j,
{
    if i < j {
        assert(q.insert(j, p)[i] == q[i] && q.insert(j, p)[j] == p);
        assert(q.insert(i, p)[i] == p && q.insert(i, p)[i + 1] == q[i]);
        assert(arrives_before(q[i], p));
        assert(arrives_before(p, q[i]));
    } else if j < i {
        assert(q.insert(i, p)[j] == q[j] && q.insert(i, p)[i] == p);
        assert(q.insert(j, p)[j] == p && q.insert(j, p)[j + 1] == q[j]);
        assert(arrives_before(q[j], p));
        assert(arrives_before(p, q[j]));
    }
}

/// The head of the in-flight queue arrives first: when it is not due at
/// `now`, no in-flight order is, so orders reach the matcher in arrival
/// order and never before their arrival time.
pub proof fn lemma_nothing_due_before_head(q: Seq<Pending>, now: u64)
    requires
        queue_ordered(q),
        q.len() > 0,
        q[0].arrival > now,
    ensures
        forall|k: int| 0 <= k < q.len() ==> #[trigger] q[k].arrival > now,
{
    assert forall|k: int| 0 <= k < q.len() implies #[trigger] q[k].arrival > now by {
        if k > 0 {
            assert(arrives_before(q[0], q[k]));
        }
    }
}

/// The first `m` orders of `q` have arrived by `now` and the rest have not.
pub open spec fn due_split(q: Seq<Pending>, now: u64, m: int) -> bool {
    &&& 0 <= m <= q.len()
    &&& forall|k: int| 0 <= k < q.len() ==> (k < m <==> #[trigger] q[k].arrival <= now)
}

/// The orders due at `now` are exactly a prefix of the in-flight queue: an
/// order has arrived by `now` if and only if it stands before the first one
/// that has not. Draining with repeated [`LagCore::pop_due`] at `now` so
/// delivers every arrived order, in matcher order (earliest arrival, then
/// earliest submission), and keeps exactly the ones still in flight; an
/// order is first delivered by the first drain at or after its arrival.
pub proof fn lemma_due_orders_are_a_prefix(q: Seq<Pending>, now: u64)
    requires
        queue_ordered(q),
    ensures
        exists|m: int| #[trigger] due_split(q, now, m),
    decreases q.len(),
{
    if q.len() == 0 {
        assert(due_split(q, now, 0));
    } else if q[0].arrival > now {
        lemma_nothing_due_before_head(q, now);
        assert(due_split(q, now, 0));
    } else {
        let r = q.drop_first();
        assert(queue_ordered(r)) by {
            assert forall|i: int, j: int| 0 <= i < j < r.len() implies arrives_before(#[trigger] r[i], #[trigger] r[j]) by {
                assert(r[i] == q[i + 1] && r[j] == q[j + 1]);
            }
        }
        lemma_due_orders_are_a_prefix(r, now);
        let m = choose|m: int| #[trigger] due_split(r, now, m);
        assert forall|k: int| 0 <= k < q.len() implies (k < m + 1 <==> #[trigger] q[k].arrival <= now) by {
            if k > 0 {
                assert(q[k] == r[k - 1]);
            }
        }
        assert(due_split(q, now, m + 1));
    }
}

/// A landed cancel takes exactly the orders with its client id out of the
/// book: none of them is left, every order with another id stays, and
/// nothing else enters.
pub proof fn lemma_cancel_removes_id(rs: Seq<RestingOrder>, id: u64)
    ensures
        forall|k: int| 0 <= k < book_without(rs, id).len() ==> (#[trigger] book_without(rs, id)[k]).id != id,
        forall|k: int|
            0 <= k < book_without(rs, id).len() ==> exists|j: int|
                0 <= j < rs.len() && rs[j] == #[trigger] book_without(rs, id)[k],
        forall|j: int|
            0 <= j < rs.len() && (#[trigger] rs[j]).id != id ==> book_without(rs, id).contains(rs[j]),
    decreases rs.len(),
{
    if rs.len() > 0 {
        let init = rs.drop_last();
        lemma_cancel_removes_id(init, id);
        let prev = book_without(init, id);
        let b = book_without(rs, id);
        assert forall|k: int| 0 <= k < b.len() implies exists|j: int| 0 <= j < rs.len() && rs[j] == #[trigger] b[k] by {
            if k < prev.len() {
                assert(b[k] == prev[k]);
                let j = choose|j: int| 0 <= j < init.len() && init[j] == #[trigger] prev[k];
                assert(rs[j] == init[j]);
            } else {
                assert(b[k] == rs[rs.len() - 1]);
            }
        }
        assert forall|j: int| 0 <= j < rs.len() && (#[trigger] rs[j]).id != id implies b.contains(rs[j]) by {
            if j < rs.len() - 1 {
                assert(rs[j] == init[j]);
                assert(prev.contains(init[j]));
                let k = choose|k: int| 0 <= k < prev.len() && prev[k] == init[j];
                assert(b[k] == prev[k]);
            } else {
                assert(b[b.len() - 1] == rs.last());
            }
        }
        assert forall|k: int| 0 <= k < b.len() implies (#[trigger] b[k]).id != id by {
            if k < prev.len() {
                assert(b[k] == prev[k]);
            }
        }
    }
}

/// Once a cancel has landed, the cancelled orders never fill: no fill of a
/// later trade carries the cancelled client id.
pub proof fn lemma_cancelled_never_fills(rs: Seq<RestingOrder>, id: u64, aggr: Side, tprice: i64, tqty: i64)
    requires
        forall|k: int| 0 <= k < rs.len() ==> (#[trigger] rs[k]).queue_ahead >= 0,
    ensures
        forall|k: int|
            0 <= k < fills_from_trade(book_without(rs, id), aggr, tprice, tqty).len() ==> (
            #[trigger] fills_from_trade(book_without(rs, id), aggr, tprice, tqty)[k]).id != id,
{
    let b = book_without(rs, id);
    lemma_cancel_removes_id(rs, id);
    assert forall|k: int| 0 <= k < b.len() implies (#[trigger] b[k]).queue_ahead >= 0 by {
        let j = choose|j: int| 0 <= j < rs.len() && rs[j] == #[trigger] b[k];
    }
    lemma_fills_at_resting_limit(b, aggr, tprice, tqty);
    let fs = fills_from_trade(b, aggr, tprice, tqty);
    assert forall|k: int| 0 <= k < fs.len() implies (#[trigger] fs[k]).id != id by {
        let f = fs[k];
        let j = choose|j: int| 0 <= j < b.len() && (#[trigger] b[j]).side == f.side && b[j].price == f.price && b[j].id == f.id;
    }
}

} // verus!
