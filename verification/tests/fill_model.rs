//! The queue-position fill model driven the way the replay engine drives
//! it: per event the clock advances, due orders reach the matcher (a limit
//! that does not cross rests behind the displayed quantity at its price),
//! a landed cancel pulls the quotes with its client id, and an
//! execution-venue trade runs through the resting orders.
//! Prices are in hundredths (`10000` = 100.00); quantities are whole units.

use std::collections::BTreeMap;

use forgelag::engine::{is_marketable, LagCore, LagOrder, LagOrderKind, MakerFill};
use forgelag::side::Side;

#[derive(Clone, Copy)]
enum Ev {
    Book(Side, i64, i64),
    Trade(Side, i64, i64),
}

/// What a scripted strategy sees after an event is applied.
struct View {
    two_sided: bool,
    position: i64,
}

struct Run {
    core: LagCore,
    fills: Vec<MakerFill>,
    position: i64,
    round_trips: u64,
}

fn signed(side: Side, q: i64) -> i64 {
    if side == Side::Bid {
        q
    } else {
        -q
    }
}

/// Books a fill of `delta` signed units; a fill that brings a non-flat
/// position back to flat completes a round trip.
fn book_fill(position: &mut i64, round_trips: &mut u64, delta: i64) {
    let before = *position;
    *position += delta;
    if before != 0 && *position == 0 {
        *round_trips += 1;
    }
}

/// Delivers every in-flight order that has arrived by `now`, in matcher
/// order. A market order, or a marketable quote, fills in full against the
/// (deep) book; a quote that does not cross rests behind the displayed
/// quantity at its price; a cancel is applied by the core itself.
fn drain(
    core: &mut LagCore,
    now: u64,
    bids: &BTreeMap<i64, i64>,
    asks: &BTreeMap<i64, i64>,
    position: &mut i64,
    round_trips: &mut u64,
) {
    while let Some(o) = core.pop_due(now) {
        let best_bid = bids.keys().next_back().copied();
        let best_ask = asks.keys().next().copied();
        match o.kind {
            LagOrderKind::Cancel => {}
            LagOrderKind::Market => {
                core.record_taker_fill();
                book_fill(position, round_trips, signed(o.side, o.qty));
            }
            LagOrderKind::Place => {
                if is_marketable(o.side, o.price, best_bid, best_ask) {
                    core.record_taker_fill();
                    book_fill(position, round_trips, signed(o.side, o.qty));
                } else {
                    let level = if o.side == Side::Bid { bids } else { asks };
                    core.rest(o, level.get(&o.price).copied().unwrap_or(0));
                }
            }
        }
    }
    core.note_position(*position);
}

/// Replays `evs` (timestamp, event) through the core; after each event the
/// strategy may submit orders. At the end of the stream every order still in
/// flight is delivered, as the end of a replay does.
fn drive(
    latency_ns: u64,
    cancel_latency_ns: u64,
    samples: Option<Vec<u64>>,
    evs: &[(u64, Ev)],
    mut strat: impl FnMut(&View) -> Vec<LagOrder>,
) -> Run {
    let mut core = LagCore::new(latency_ns, cancel_latency_ns);
    if let Some(s) = samples {
        core.set_latency_samples(s);
    }
    let mut bids: BTreeMap<i64, i64> = BTreeMap::new();
    let mut asks: BTreeMap<i64, i64> = BTreeMap::new();
    let mut fills = Vec::new();
    let mut position = 0i64;
    let mut round_trips = 0u64;
    for &(t, ev) in evs {
        core.begin_event(t).unwrap();
        drain(&mut core, t, &bids, &asks, &mut position, &mut round_trips);
        match ev {
            Ev::Book(side, px, qty) => {
                let book = if side == Side::Bid { &mut bids } else { &mut asks };
                if qty == 0 {
                    book.remove(&px);
                } else {
                    book.insert(px, qty);
                }
            }
            Ev::Trade(aggr, px, qty) => {
                for f in core.on_trade(aggr, px, qty) {
                    book_fill(&mut position, &mut round_trips, signed(f.side, f.qty));
                    fills.push(f);
                }
                core.note_position(position);
            }
        }
        let view = View { two_sided: !bids.is_empty() && !asks.is_empty(), position };
        for o in strat(&view) {
            if o.kind == LagOrderKind::Cancel {
                core.submit_cancel(t, o.id).unwrap();
            } else {
                core.submit(t, o).unwrap();
            }
        }
        core.end_event();
    }
    drain(&mut core, u64::MAX, &bids, &asks, &mut position, &mut round_trips);
    Run { core, fills, position, round_trips }
}

/// Replays `evs`; `order` is submitted once, on the first event after which
/// both sides of the book exist.
fn replay(latency_ns: u64, samples: Option<Vec<u64>>, order: LagOrder, evs: &[(u64, Ev)]) -> Run {
    let mut placed = false;
    drive(latency_ns, 0, samples, evs, |v| {
        if !placed && v.two_sided {
            placed = true;
            vec![order]
        } else {
            vec![]
        }
    })
}

/// Rests one maker bid once the book is two-sided; once long, closes with a
/// taker market sell.
fn maker_then_exit(qty: i64) -> impl FnMut(&View) -> Vec<LagOrder> {
    let mut placed = false;
    move |v| {
        if v.position > 0 {
            vec![LagOrder::market(Side::Ask, v.position)]
        } else if !placed && v.two_sided {
            placed = true;
            vec![LagOrder::place(1, Side::Bid, 10_000, qty)]
        } else {
            vec![]
        }
    }
}

fn bid_100x5() -> LagOrder {
    LagOrder::place(1, Side::Bid, 10_000, 5)
}

#[test]
fn through_trade_fills_at_resting_limit_never_mid_never_improved() {
    // Book bid 99 / ask 103 (mid 101); our bid rests at 100 with no queue;
    // an ask-aggressor prints through it at 99.50.
    let evs = [
        (1_000, Ev::Book(Side::Bid, 9_900, 1000)),
        (2_000, Ev::Book(Side::Ask, 10_300, 1000)),
        (3_000, Ev::Trade(Side::Ask, 9_950, 5)),
    ];
    let r = drive(0, 0, None, &evs, maker_then_exit(5));
    assert_eq!(r.core.maker_fills(), 1, "the resting bid must take exactly one maker fill");
    assert_eq!(r.core.orders_filled(), 2, "one maker entry + one taker exit");
    assert_eq!(r.round_trips, 1, "entry then exit = one completed round trip");
    assert_eq!(r.position, 0, "the round trip leaves us flat");
    // Entry notional = fill price x qty: the resting limit gives 500.00; a mid
    // fill would give 505.00 and a fill at the trade price 497.50.
    let f = r.fills[0];
    assert_eq!(f.price * f.qty, 50_000, "maker must fill at the resting limit 100 (notional 500)");
}

#[test]
fn queue_ahead_blocks_fill_when_trade_within_queue() {
    let evs = [
        (1_000, Ev::Book(Side::Bid, 10_000, 10)),
        (2_000, Ev::Book(Side::Ask, 10_300, 1000)),
        (3_000, Ev::Trade(Side::Ask, 9_950, 6)),
    ];
    let r = replay(0, None, bid_100x5(), &evs);
    assert_eq!(r.core.orders_rested(), 1, "the maker bid rested behind a queue of 10");
    assert_eq!(r.core.maker_fills(), 0, "a trade within the queue-ahead must NOT fill us");
    assert_eq!(r.position, 0, "still flat: someone ahead of us got that trade");
}

#[test]
fn queue_decrements_then_a_later_trade_fills_the_residual() {
    let evs = [
        (1_000, Ev::Book(Side::Bid, 10_000, 10)),
        (2_000, Ev::Book(Side::Ask, 10_300, 1000)),
        (3_000, Ev::Trade(Side::Ask, 9_950, 6)),
        (4_000, Ev::Trade(Side::Ask, 9_950, 6)),
    ];
    let r = replay(0, None, bid_100x5(), &evs);
    assert_eq!(r.core.maker_fills(), 1, "the second trade finally reaches us after the queue drains");
    assert_eq!(r.position, 2, "only the residual (12 cumulative - 10 queue) = 2 fills us");
}

#[test]
fn partial_fill_takes_only_the_residual_volume() {
    let evs = [
        (1_000, Ev::Book(Side::Bid, 9_900, 1000)),
        (2_000, Ev::Book(Side::Ask, 10_300, 1000)),
        (3_000, Ev::Trade(Side::Ask, 9_950, 2)),
    ];
    let r = replay(0, None, bid_100x5(), &evs);
    assert_eq!(r.core.maker_fills(), 1, "the through-trade partially fills us");
    assert_eq!(r.position, 2, "only the 2 residual fills; 3 remain resting");
}

#[test]
fn partial_remainder_keeps_resting_and_a_later_trade_fills_it() {
    let evs = [
        (1_000, Ev::Book(Side::Bid, 9_900, 1000)),
        (2_000, Ev::Book(Side::Ask, 10_300, 1000)),
        (3_000, Ev::Trade(Side::Ask, 9_950, 2)),
        (4_000, Ev::Trade(Side::Ask, 9_950, 10)),
    ];
    let r = replay(0, None, bid_100x5(), &evs);
    assert_eq!(r.core.maker_fills(), 2, "two separate maker fills: 2 then 3");
    assert_eq!(r.position, 5, "the remainder rested and was filled by the later trade -> full 5");
}

#[test]
fn clean_reversion_without_a_through_trade_never_fills() {
    let evs = [
        (1_000, Ev::Book(Side::Bid, 9_900, 1000)),
        (2_000, Ev::Book(Side::Ask, 10_300, 1000)),
        (3_000, Ev::Book(Side::Ask, 10_050, 1000)),
        (4_000, Ev::Trade(Side::Ask, 10_050, 50)),
        (5_000, Ev::Trade(Side::Bid, 9_900, 50)),
        (6_000, Ev::Book(Side::Ask, 10_300, 1000)),
        (7_000, Ev::Trade(Side::Ask, 10_100, 50)),
    ];
    let r = replay(0, None, bid_100x5(), &evs);
    assert_eq!(r.core.orders_rested(), 1, "the maker bid rested (non-marketable at 100)");
    assert_eq!(r.core.maker_fills(), 0, "a clean reversion with no through-trade must NEVER fill");
    assert_eq!(r.core.orders_filled(), 0, "no fills of any kind");
    assert_eq!(r.position, 0, "we stay flat: the gap reverted around us, untouched");
}

/// The place-then-through-trade timing case: the bid is decided at 2000 and
/// an ask-aggressor prints through it at `trade_ts`.
fn latency_case(lat_ns: u64, trade_ts: u64, sampled: bool) -> Run {
    let evs = [
        (1_000, Ev::Book(Side::Bid, 9_900, 1000)),
        (2_000, Ev::Book(Side::Ask, 10_300, 1000)),
        (trade_ts, Ev::Trade(Side::Ask, 9_950, 5)),
    ];
    if sampled {
        replay(0, Some(vec![lat_ns]), bid_100x5(), &evs)
    } else {
        replay(lat_ns, None, bid_100x5(), &evs)
    }
}

#[test]
fn order_not_eligible_before_arrival_then_fills_at_arrival() {
    let l = 5_000u64;
    let before = latency_case(l, 6_999, false);
    assert_eq!(before.core.maker_fills(), 0, "no fill before T+L (order not delivered yet)");
    assert_eq!(before.position, 0, "still flat: the order had not arrived");
    let at = latency_case(l, 7_000, false);
    assert_eq!(at.core.maker_fills(), 1, "fills at T+L once delivered");
    assert_eq!(at.position, 5, "filled long 5 at the arrival boundary");
}

#[test]
fn sampled_latency_is_nonnegative_and_delivery_not_before_submission() {
    let l = 5_000u64;
    let before = latency_case(l, 6_999, true);
    assert_eq!(before.core.maker_fills(), 0, "sampled L: not eligible before T+L");
    let at = latency_case(l, 7_000, true);
    assert_eq!(at.core.maker_fills(), 1, "sampled L: eligible at T+L");
}

#[test]
fn non_monotonic_local_ts_halts_with_error() {
    let mut c = LagCore::new(0, 0);
    assert!(c.begin_event(5_000).is_ok(), "first event accepted");
    let res = c.begin_event(4_000);
    assert!(res.is_err(), "non-monotonic local_ts must return Err");
    let msg = res.unwrap_err();
    assert!(msg.contains("non-monotonic"), "the error must name the non-monotonic timestamp, got: {msg}");
}

/// Places bid 7 @100 once the book is two-sided, then cancels it on the
/// next event.
fn place_then_cancel() -> impl FnMut(&View) -> Vec<LagOrder> {
    let mut placed = false;
    let mut cancelled = false;
    move |v| {
        if !placed {
            if v.two_sided {
                placed = true;
                return vec![LagOrder::place(7, Side::Bid, 10_000, 5)];
            }
        } else if !cancelled {
            cancelled = true;
            return vec![LagOrder::cancel(7)];
        }
        vec![]
    }
}

#[test]
fn cancel_in_flight_window_still_fills_from_a_through_trade() {
    // Place decided at 2000 rests at 3000, where the cancel is decided; it
    // lands at 3000 + 5000 = 8000. The trade at 4000 is inside the window.
    let evs = [
        (1_000, Ev::Book(Side::Bid, 9_900, 1000)),
        (2_000, Ev::Book(Side::Ask, 10_300, 1000)),
        (3_000, Ev::Book(Side::Bid, 9_900, 1000)),
        (4_000, Ev::Trade(Side::Ask, 9_950, 5)),
    ];
    let r = drive(0, 5_000, None, &evs, place_then_cancel());
    assert_eq!(r.core.orders_rested(), 1, "the maker bid rested before the cancel was issued");
    assert_eq!(r.core.maker_fills(), 1, "a through-trade inside the cancel-latency window STILL fills the resting order");
    assert_eq!(r.position, 5, "filled long 5 while the cancel was still in flight");
}

#[test]
fn cancel_after_window_removes_the_order_and_it_does_not_fill() {
    let evs = [
        (1_000, Ev::Book(Side::Bid, 9_900, 1000)),
        (2_000, Ev::Book(Side::Ask, 10_300, 1000)),
        (3_000, Ev::Book(Side::Bid, 9_900, 1000)),
        (9_000, Ev::Trade(Side::Ask, 9_950, 5)),
    ];
    let r = drive(0, 5_000, None, &evs, place_then_cancel());
    assert_eq!(r.core.orders_rested(), 1, "the maker bid rested before the cancel was issued");
    assert_eq!(r.core.maker_fills(), 0, "the cancel landed (8000) before the trade (9000) -> no fill");
    assert_eq!(r.position, 0, "we stay flat: the pull took effect outside the window");
    assert_eq!(r.core.resting_len(), 0, "the cancelled order left the book");
}

#[test]
fn quotes_submitted_counts_place_not_market() {
    let evs = [
        (1_000, Ev::Book(Side::Bid, 9_900, 1000)),
        (2_000, Ev::Book(Side::Ask, 10_300, 1000)),
        (3_000, Ev::Book(Side::Ask, 10_300, 1000)),
        (4_000, Ev::Trade(Side::Ask, 9_950, 5)),
        (5_000, Ev::Book(Side::Ask, 10_300, 1000)),
    ];
    let r = drive(0, 0, None, &evs, maker_then_exit(5));
    assert_eq!(r.core.quotes_submitted(), 1, "exactly one maker Place quote was submitted");
    assert_eq!(r.core.orders_submitted(), 2, "one maker Place + one taker Market = two orders");
    assert_eq!(r.core.maker_fills(), 1, "the maker entry filled once");
    assert_eq!(r.round_trips, 1, "entry + exit = one round trip");
}

#[test]
fn max_abs_inventory_tracks_largest_position() {
    let evs = [
        (1_000, Ev::Book(Side::Bid, 9_900, 1000)),
        (2_000, Ev::Book(Side::Ask, 10_300, 1000)),
        (3_000, Ev::Book(Side::Ask, 10_300, 1000)),
        (4_000, Ev::Trade(Side::Ask, 9_950, 10)),
        (5_000, Ev::Book(Side::Ask, 10_300, 1000)),
    ];
    let r = drive(0, 0, None, &evs, maker_then_exit(7));
    assert_eq!(r.core.max_abs_inventory(), 7, "the peak absolute inventory was 7 base units");
    assert_eq!(r.position, 0, "the run ends flat after the taker exit");
}

#[test]
fn fill_rate_counts_distinct_quotes_over_submitted() {
    let evs = [
        (1_000, Ev::Book(Side::Bid, 8_000, 1000)),
        (2_000, Ev::Book(Side::Ask, 100_000, 1000)),
        (3_000, Ev::Book(Side::Ask, 100_000, 1000)),
        (4_000, Ev::Trade(Side::Ask, 9_700, 100)),
    ];
    let mut placed = false;
    let r = drive(0, 0, None, &evs, |v| {
        if !placed && v.two_sided {
            placed = true;
            vec![
                LagOrder::place(1, Side::Bid, 10_000, 1),
                LagOrder::place(2, Side::Bid, 9_800, 1),
                LagOrder::place(3, Side::Bid, 9_000, 1),
                LagOrder::place(4, Side::Bid, 8_800, 1),
            ]
        } else {
            vec![]
        }
    });
    assert_eq!(r.core.quotes_submitted(), 4, "four maker quotes submitted");
    assert_eq!(r.core.quotes_filled(), 2, "the trade printed through exactly two of them");
    let fill_rate_pct = r.core.quotes_filled() as f64 / r.core.quotes_submitted() as f64 * 100.0;
    assert!((fill_rate_pct - 50.0).abs() < 1e-9, "2 / 4 * 100 = 50.00%, got {fill_rate_pct}");
}

#[test]
fn a_quote_filled_twice_counts_once() {
    let evs = [
        (1_000, Ev::Book(Side::Bid, 9_900, 1000)),
        (2_000, Ev::Book(Side::Ask, 10_300, 1000)),
        (3_000, Ev::Trade(Side::Ask, 9_950, 2)),
        (4_000, Ev::Trade(Side::Ask, 9_950, 2)),
    ];
    let r = replay(0, None, bid_100x5(), &evs);
    assert_eq!(r.core.maker_fills(), 2);
    assert_eq!(r.core.quotes_filled(), 1, "two partial fills of the same quote");
    assert_eq!(r.core.max_abs_inventory(), 4);
}
