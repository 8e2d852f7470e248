use forgelag::engine::{is_marketable, LagCore, LagOrder, LagOrderKind, MakerFill};
use forgelag::side::Side;

fn bid(price: i64, qty: i64) -> LagOrder {
    LagOrder::limit(Side::Bid, price, qty)
}

#[test]
fn order_constructors() {
    let m = LagOrder::market(Side::Ask, 7);
    assert_eq!(m, LagOrder { side: Side::Ask, kind: LagOrderKind::Market, price: 0, qty: 7, id: 0 });
    let l = LagOrder::limit(Side::Bid, 100, 5);
    assert_eq!(l, LagOrder { side: Side::Bid, kind: LagOrderKind::Place, price: 100, qty: 5, id: 0 });
    let p = LagOrder::place(9, Side::Ask, 101, 2);
    assert_eq!(p, LagOrder { side: Side::Ask, kind: LagOrderKind::Place, price: 101, qty: 2, id: 9 });
    let c = LagOrder::cancel(9);
    assert_eq!((c.kind, c.id), (LagOrderKind::Cancel, 9));
}

#[test]
fn marketability_against_the_best_prices() {
    assert!(is_marketable(Side::Bid, 103, Some(99), Some(103)));
    assert!(!is_marketable(Side::Bid, 102, Some(99), Some(103)));
    assert!(is_marketable(Side::Ask, 99, Some(99), Some(103)));
    assert!(!is_marketable(Side::Ask, 100, Some(99), Some(103)));
    assert!(!is_marketable(Side::Bid, 1_000, Some(99), None), "no ask side => cannot cross");
    assert!(!is_marketable(Side::Ask, 0, None, Some(103)), "no bid side => cannot cross");
}

#[test]
fn through_trade_fills_at_the_resting_limit() {
    let mut c = LagCore::new(0, 0);
    c.rest(bid(100, 5), 0);
    let fills = c.on_trade(Side::Ask, 99, 7);
    assert_eq!(fills, vec![MakerFill { id: 0, side: Side::Bid, price: 100, qty: 5 }]);
    assert_eq!(c.resting_len(), 0);
    assert_eq!(c.maker_fills(), 1);
    assert_eq!(c.orders_filled(), 1);
}

#[test]
fn trade_within_the_queue_ahead_does_not_fill() {
    let mut c = LagCore::new(0, 0);
    c.rest(bid(100, 5), 10);
    assert!(c.on_trade(Side::Ask, 99, 3).is_empty());
    assert!(c.on_trade(Side::Ask, 99, 7).is_empty(), "queue 10 - 3 = 7 absorbs a 7 trade");
    // The queue has drained: the next through-trade reaches us.
    assert_eq!(c.on_trade(Side::Ask, 100, 2), vec![MakerFill { id: 0, side: Side::Bid, price: 100, qty: 2 }]);
    assert_eq!(c.resting_len(), 1, "3 of 5 still resting");
    assert_eq!(c.on_trade(Side::Ask, 100, 9), vec![MakerFill { id: 0, side: Side::Bid, price: 100, qty: 3 }]);
    assert_eq!(c.resting_len(), 0);
}

#[test]
fn trade_past_the_queue_fills_only_its_residual() {
    let mut c = LagCore::new(0, 0);
    c.rest(bid(100, 5), 3);
    // Trade 5 > queue 3: 2 residual fills us, 3 remain resting.
    assert_eq!(c.on_trade(Side::Ask, 100, 5), vec![MakerFill { id: 0, side: Side::Bid, price: 100, qty: 2 }]);
    assert_eq!(c.resting_len(), 1);
}

#[test]
fn trades_that_do_not_cross_never_fill() {
    let mut c = LagCore::new(0, 0);
    c.rest(bid(100, 5), 0);
    c.rest(LagOrder::limit(Side::Ask, 105, 5), 0);
    assert!(c.on_trade(Side::Ask, 101, 50).is_empty(), "sell above our bid");
    assert!(c.on_trade(Side::Bid, 104, 50).is_empty(), "buy below our ask");
    assert!(c.on_trade(Side::Bid, 99, 50).is_empty(), "a buy never fills our bid");
    assert!(c.on_trade(Side::Ask, 99, 0).is_empty(), "a trade of no size");
    assert_eq!(c.resting_len(), 2);
    // A buy through our ask fills it only.
    assert_eq!(c.on_trade(Side::Bid, 106, 1), vec![MakerFill { id: 0, side: Side::Ask, price: 105, qty: 1 }]);
}

#[test]
fn non_monotonic_clock_is_refused() {
    let mut c = LagCore::new(0, 0);
    assert!(c.begin_event(5_000).is_ok(), "first event accepted");
    let e = c.begin_event(4_000).expect_err("non-monotonic local_ts must be refused");
    assert_eq!(e, "non-monotonic local_ts: prev 5000 got 4000");
    assert_eq!(c.now(), 5_000);
    assert!(c.begin_event(5_000).is_ok(), "equal timestamps are fine");
}

#[test]
fn order_not_delivered_before_its_arrival() {
    let mut c = LagCore::new(5_000, 0);
    assert!(c.begin_event(2_000).is_ok());
    c.submit(2_000, bid(100, 5)).unwrap();
    assert_eq!(c.orders_submitted(), 1);
    assert_eq!(c.pop_due(6_999), None, "not delivered before T+L");
    assert_eq!(c.pop_due(7_000), Some(bid(100, 5)), "delivered at T+L");
    assert_eq!(c.pop_due(u64::MAX), None);
}

#[test]
fn sampled_latency_comes_from_the_samples() {
    let mut c = LagCore::new(1, 0);
    c.set_latency_samples(vec![5_000]);
    c.submit(2_000, bid(100, 5)).unwrap();
    assert_eq!(c.pop_due(6_999), None);
    assert_eq!(c.pop_due(7_000), Some(bid(100, 5)));
    c.set_latency_samples(vec![10, 20, 30]);
    for t in 0..50u64 {
        c.submit(t, bid(1, 1)).unwrap();
    }
    // Every order arrives 10, 20 or 30 ns after its submission: nothing is
    // due before 10, and all 50 are due by 79.
    assert_eq!(c.pop_due(9), None);
    let mut n = 0;
    while c.pop_due(79).is_some() {
        n += 1;
    }
    assert_eq!(n, 50);
}

#[test]
fn in_flight_orders_arrive_in_time_then_submission_order() {
    let mut c = LagCore::new(0, 0);
    c.set_latency_samples(vec![30]);
    c.submit(100, bid(1, 1)).unwrap(); // arrives 130
    c.set_latency_samples(vec![10]);
    c.submit(100, bid(2, 1)).unwrap(); // arrives 110
    c.submit(120, bid(3, 1)).unwrap(); // arrives 130, after #1
    assert_eq!(c.pop_due(200), Some(bid(2, 1)));
    assert_eq!(c.pop_due(200), Some(bid(1, 1)));
    assert_eq!(c.pop_due(200), Some(bid(3, 1)));
    assert_eq!(c.pending_len(), 0);
}

#[test]
fn arrival_past_the_clock_end_is_an_error() {
    let mut c = LagCore::new(10, 0);
    let e = c.submit(u64::MAX - 5, bid(1, 1)).expect_err("overflow");
    assert_eq!(e, "order arrival overflow");
    assert_eq!(c.orders_submitted(), 0);
    assert_eq!(c.seq(), 0);
}

#[test]
fn counters_track_the_run() {
    let mut c = LagCore::new(0, 0);
    c.begin_event(1).unwrap();
    c.record_taker_fill();
    c.record_rejection();
    c.rest(bid(100, 1), 0);
    c.end_event();
    assert_eq!(c.events(), 1);
    assert_eq!(c.orders_filled(), 1);
    assert_eq!(c.orders_rejected(), 1);
    assert_eq!(c.orders_rested(), 1);
    assert_eq!(c.maker_fills(), 0);
}

#[test]
fn replaying_the_same_submissions_delivers_the_same_orders() {
    let run = || {
        let mut c = LagCore::new(0, 0);
        c.set_latency_samples(vec![40, 10, 25, 10, 5]);
        for t in 0..20u64 {
            c.submit(t * 3, bid(t as i64, 1)).unwrap();
        }
        let mut out = Vec::new();
        for now in 0..200u64 {
            while let Some(o) = c.pop_due(now) {
                out.push((now, o.price));
            }
        }
        out
    };
    let a = run();
    assert_eq!(a.len(), 20);
    assert_eq!(a, run());
}

#[test]
fn a_landed_cancel_pulls_only_its_client_id() {
    let mut c = LagCore::new(0, 100);
    c.rest(LagOrder::place(1, Side::Bid, 100, 5), 0);
    c.rest(LagOrder::place(2, Side::Bid, 99, 5), 0);
    c.rest(LagOrder::place(1, Side::Ask, 105, 5), 0);
    c.submit_cancel(1_000, 1).unwrap();
    assert_eq!(c.pop_due(1_099), None, "the cancel lands at 1000 + 100");
    assert_eq!(c.resting_len(), 3, "until then every order still rests");
    assert_eq!(c.pop_due(1_100), Some(LagOrder::cancel(1)));
    assert_eq!(c.resting_len(), 1, "both orders with id 1 left the book");
    assert_eq!(c.on_trade(Side::Ask, 90, 50), vec![MakerFill { id: 2, side: Side::Bid, price: 99, qty: 5 }]);
    assert_eq!(c.orders_submitted(), 1);
    assert_eq!(c.quotes_submitted(), 0, "a cancel is not a quote");
}

#[test]
fn cancel_arrival_past_the_clock_end_is_an_error() {
    let mut c = LagCore::new(0, 10);
    assert_eq!(c.submit_cancel(u64::MAX - 5, 1), Err("order arrival overflow".to_string()));
    assert_eq!(c.pending_len(), 0);
}

#[test]
fn inventory_peak_is_absolute() {
    let mut c = LagCore::new(0, 0);
    c.note_position(-3);
    c.note_position(2);
    assert_eq!(c.max_abs_inventory(), 3);
    c.note_position(i64::MIN);
    assert_eq!(c.max_abs_inventory(), 1u64 << 63);
}
