use forgelag::maker::{
    check_quote_qty, check_u64, EntryView, FairValueConfig, MakerMachine, OracleClock, PositionLimits, QuoteAction,
    QuoteLifecycle, RestingQuote, RollingWindow, DEFAULT_STALENESS_NS, MAX_LATENCY_NS,
};
use forgelag::side::Side;

fn good_fv() -> FairValueConfig {
    FairValueConfig::default()
}

fn assert_err_names(res: Result<(), String>, needle: &str) {
    let e = res.expect_err("expected an out-of-range rejection");
    assert!(e.contains(needle), "error should name `{needle}`, got: {e}");
}

#[test]
fn rejects_zero_staleness() {
    let mut c = good_fv();
    c.staleness_ns = 0; // a 0 limit would mark every read stale
    assert_err_names(c.validate(), "staleness_ns");
}

#[test]
fn default_fair_value_config_is_valid() {
    let c = good_fv();
    assert_eq!(c, FairValueConfig { top_n: 5, window: 500, sample_ns: 500_000_000, staleness_ns: DEFAULT_STALENESS_NS });
    assert!(c.validate().is_ok());
}

#[test]
fn fair_value_validation_reports_the_first_bad_knob_exactly() {
    let mut c = good_fv();
    c.top_n = 0;
    c.window = 0;
    assert_eq!(c.validate(), Err("top_n 0 out of range >=1".to_string()));
    c.top_n = 3;
    assert_eq!(c.validate(), Err("window 0 out of range >=1".to_string()));
    c.window = 3;
    c.sample_ns = 0;
    assert_eq!(c.validate(), Err("sample_ns 0 out of range >=1".to_string()));
    c.sample_ns = 1;
    c.staleness_ns = 0;
    assert_eq!(c.validate(), Err("staleness_ns 0 out of range >=1".to_string()));
}

#[test]
fn normalized_floors_and_defaults_the_knobs() {
    let c = FairValueConfig { top_n: 0, window: 0, sample_ns: 0, staleness_ns: 0 };
    let n = c.normalized();
    assert_eq!(n, FairValueConfig { top_n: 1, window: 1, sample_ns: 1, staleness_ns: DEFAULT_STALENESS_NS });
    assert!(n.validate().is_ok());
}

#[test]
fn check_u64_names_value_and_range() {
    assert!(check_u64("cancel_latency_ns", MAX_LATENCY_NS, MAX_LATENCY_NS).is_ok());
    assert_eq!(
        check_u64("cancel_latency_ns", MAX_LATENCY_NS + 1, MAX_LATENCY_NS),
        Err("cancel_latency_ns 5000000001 out of range 0..=5000000000".to_string())
    );
}

// ---- position cap -----------------------------------------------------------

fn ctrl(pos_cap: i64, quote_qty: i64) -> PositionLimits {
    PositionLimits::new(pos_cap, quote_qty)
}

#[test]
fn flat_allows_both_sides() {
    let c = ctrl(100, 10);
    assert!(c.allows(0, Side::Bid), "flat bid allowed");
    assert!(c.allows(0, Side::Ask), "flat ask allowed");
}

#[test]
fn at_positive_cap_suppresses_increasing_allows_reducing() {
    let c = ctrl(100, 10);
    assert!(!c.allows(100, Side::Bid), "bid at +cap pushes |pos| 110 > 100 => suppress");
    assert!(c.allows(100, Side::Ask), "ask at +cap reduces to 90 => allowed");
    assert!(c.allows(90, Side::Bid), "bid to exactly +cap (100) is allowed");
    assert!(!c.allows(91, Side::Bid), "bid to 101 (> cap) is suppressed");
}

#[test]
fn at_negative_cap_suppresses_increasing_allows_reducing() {
    let c = ctrl(100, 10);
    assert!(!c.allows(-100, Side::Ask), "ask at -cap pushes |pos| 110 > 100 => suppress");
    assert!(c.allows(-100, Side::Bid), "bid at -cap reduces to -90 => allowed");
}

#[test]
fn cap_smaller_than_quote_suppresses_all_quotes_always() {
    let c = ctrl(5, 10);
    assert!(c.cap_too_small());
    for pos in [-20, -5, 0, 5, 20] {
        assert!(!c.allows(pos, Side::Bid), "cap<quote: bid suppressed at pos {pos}");
        assert!(!c.allows(pos, Side::Ask), "cap<quote: ask suppressed at pos {pos}");
    }
}

#[test]
fn limits_floor_negative_cap_and_quote() {
    let c = ctrl(-7, 0);
    // cap floored to 0, quote to 1 => 0 < 1, everything suppressed.
    assert!(c.cap_too_small());
    assert_eq!(c.resulting_position(0, Side::Bid), 1);
    assert_eq!(c.resulting_position(0, Side::Ask), -1);
}

#[test]
fn resulting_position_saturates() {
    let c = ctrl(100, 10);
    assert_eq!(c.resulting_position(i64::MAX - 3, Side::Bid), i64::MAX);
    assert_eq!(c.resulting_position(i64::MIN + 3, Side::Ask), i64::MIN);
}

#[test]
fn rejects_mismatched_quote_qty_across_configs() {
    // QuoteConfig.quote_qty (10) must equal InventoryConfig.quote_qty (7).
    let res = check_quote_qty(10, 7);
    let e = res.err().expect("a quote_qty mismatch must be rejected");
    assert!(e.contains("quote_qty mismatch"), "error should name the mismatch, got: {e}");
    assert!(e.contains("10") && e.contains("7"), "error should show both values, got: {e}");
}

#[test]
fn quote_qty_check_message_and_agreement() {
    assert_eq!(
        check_quote_qty(10, -7),
        Err("quote_qty mismatch: QuoteConfig.quote_qty 10 != InventoryConfig.quote_qty -7".to_string())
    );
    assert_eq!(check_quote_qty(10, 10), Ok(()));
}

// ---- oracle clocks ------------------------------------------------------------

#[test]
fn zero_sample_period_is_floored_to_one_ns() {
    let mut c = clock(0);
    assert!(c.sample_fits(100));
    assert!(c.sample_due(100), "the first call anchors the cadence and is due");
    assert!(!c.sample_due(100), "the next tick is one nanosecond later");
    assert!(c.sample_due(101));
}

fn clock(sample_ns: u64) -> OracleClock {
    OracleClock::new(&FairValueConfig { top_n: 5, window: 500, sample_ns, staleness_ns: DEFAULT_STALENESS_NS })
}

#[test]
fn stale_before_any_reference() {
    let c = clock(1);
    assert!(c.is_stale(0));
    assert!(c.is_stale(10_000));
}

#[test]
fn staleness_flips_after_limit_and_resets_on_update() {
    let mut o = clock(1);
    let t0 = 5_000_000_000u64;
    o.note_reference(t0, true);
    assert!(!o.is_stale(t0));
    assert!(!o.is_stale(t0 + DEFAULT_STALENESS_NS));
    assert!(o.is_stale(t0 + DEFAULT_STALENESS_NS + 1));
    // A fresh (different) reference price resets the staleness clock.
    let t1 = t0 + DEFAULT_STALENESS_NS + 1;
    o.note_reference(t1, true);
    assert!(!o.is_stale(t1));
    assert!(!o.is_stale(t1 + DEFAULT_STALENESS_NS));
    assert!(o.is_stale(t1 + DEFAULT_STALENESS_NS + 1));
}

#[test]
fn unchanged_reference_does_not_refresh_staleness_clock() {
    let mut o = clock(1);
    let t0 = 1_000_000_000u64;
    o.note_reference(t0, true);
    let t_repeat = t0 + DEFAULT_STALENESS_NS + 1;
    o.note_reference(t_repeat, false);
    assert!(o.is_stale(t_repeat), "repeat of the same ref price must not look fresh");
}

#[test]
fn sampling_cadence_anchors_then_skips_to_the_next_tick() {
    let mut c = clock(500);
    assert!(c.sample_due(1_000), "first call anchors and samples");
    assert!(!c.sample_due(1_200));
    assert!(c.sample_due(1_500), "exactly on the next tick");
    // A gap: ticks 2000..=3500 were missed; sample now, next tick is 4000.
    assert!(c.sample_due(3_700));
    assert!(!c.sample_due(3_999));
    assert!(c.sample_due(4_000));
}

#[test]
fn sampling_cadence_must_fit_the_clock() {
    let c = clock(500);
    assert!(c.sample_fits(1_000));
    assert!(c.sample_fits(u64::MAX - 500), "anchored at now: next tick is now + 500");
    assert!(!c.sample_fits(u64::MAX - 499));
    let mut c = clock(500);
    assert!(c.sample_due(1_000));
    assert!(c.sample_fits(1_200), "not due yet: nothing advances");
    // Ticks at 1500 + 500k: the last one on the clock is u64::MAX - 115.
    assert!(c.sample_fits(u64::MAX - 300), "next tick is u64::MAX - 115");
    assert!(!c.sample_fits(u64::MAX - 115), "next tick would be past the end");
}

// ---- rolling window -------------------------------------------------------------

#[test]
fn rolling_window_evicts_the_oldest_once_full() {
    let mut w: RollingWindow<i32> = RollingWindow::new(3);
    assert_eq!(w.len(), 0);
    assert_eq!(w.push(1), None);
    assert_eq!(w.push(2), None);
    assert_eq!(w.push(3), None);
    assert_eq!(w.len(), 3);
    assert_eq!(w.push(4), Some(1));
    assert_eq!(w.push(5), Some(2));
    assert_eq!(w.push(6), Some(3));
    assert_eq!(w.push(7), Some(4));
    assert_eq!(w.len(), 3);
}

#[test]
fn rolling_window_of_one_keeps_only_the_latest() {
    let mut w: RollingWindow<u64> = RollingWindow::new(1);
    assert_eq!(w.push(10), None);
    assert_eq!(w.push(20), Some(10));
    assert_eq!(w.push(30), Some(20));
}

// ---- entry-quote lifecycle ------------------------------------------------------------

fn view(side: Option<Side>) -> EntryView {
    EntryView {
        ready: true,
        side,
        reverted: false,
        at_danger: false,
        in_band: true,
        target_bid: Some(9_995),
        target_ask: Some(10_005),
        within_tol: true,
    }
}

fn lifecycle() -> QuoteLifecycle {
    QuoteLifecycle::new(10, 100, 100)
}

fn wide() -> PositionLimits {
    PositionLimits::new(1_000, 10)
}

#[test]
fn dislocation_in_band_places_one_quote_on_the_reversion_side() {
    let mut q = lifecycle();
    let mut out = Vec::new();
    q.manage_entry(100, 0, view(Some(Side::Ask)), &wide(), &mut out);
    assert_eq!(out, vec![QuoteAction::Place { id: 1, side: Side::Ask, price: 10_005, qty: 10 }]);
    assert_eq!(q.resting(), Some(RestingQuote { id: 1, side: Side::Ask, price_raw: 10_005 }));
}

#[test]
fn quote_within_tolerance_is_kept_without_a_duplicate() {
    let mut q = lifecycle();
    let mut out = Vec::new();
    q.manage_entry(100, 0, view(Some(Side::Bid)), &wide(), &mut out);
    assert_eq!(out.len(), 1);
    out.clear();
    q.manage_entry(200, 0, view(Some(Side::Bid)), &wide(), &mut out);
    assert!(out.is_empty());
    assert!(q.has_resting());
}

#[test]
fn quote_is_repriced_when_the_target_drifts() {
    let mut q = lifecycle();
    let mut out = Vec::new();
    q.manage_entry(100, 0, view(Some(Side::Ask)), &wide(), &mut out);
    out.clear();
    let mut v = view(Some(Side::Ask));
    v.target_ask = Some(10_035);
    v.within_tol = false;
    q.manage_entry(200, 0, v, &wide(), &mut out);
    assert_eq!(
        out,
        vec![
            QuoteAction::Cancel { id: 1 },
            QuoteAction::Place { id: 2, side: Side::Ask, price: 10_035, qty: 10 },
        ]
    );
}

#[test]
fn reverted_or_flipped_dislocation_cancels() {
    let mut q = lifecycle();
    let mut out = Vec::new();
    q.manage_entry(100, 0, view(Some(Side::Ask)), &wide(), &mut out);
    out.clear();
    let mut v = view(Some(Side::Ask));
    v.reverted = true;
    q.manage_entry(200, 0, v, &wide(), &mut out);
    assert_eq!(out, vec![QuoteAction::Cancel { id: 1 }]);
    assert!(!q.has_resting());

    let mut q = lifecycle();
    let mut out = Vec::new();
    q.manage_entry(100, 0, view(Some(Side::Ask)), &wide(), &mut out);
    out.clear();
    q.manage_entry(200, 0, view(Some(Side::Bid)), &wide(), &mut out);
    assert_eq!(out, vec![QuoteAction::Cancel { id: 1 }]);
}

#[test]
fn danger_pull_then_emergency_flatten_when_run_over() {
    let mut q = lifecycle();
    let mut out = Vec::new();
    q.manage_entry(100, 0, view(Some(Side::Ask)), &wide(), &mut out);
    out.clear();
    let mut v = view(Some(Side::Ask));
    v.at_danger = true;
    v.in_band = false;
    q.manage_entry(200, 0, v, &wide(), &mut out);
    assert_eq!(out, vec![QuoteAction::Cancel { id: 1 }]);
    // No re-quote while the pull is unresolved.
    out.clear();
    q.manage_entry(250, 0, view(Some(Side::Ask)), &wide(), &mut out);
    assert!(out.is_empty());
    // Deadline = 200 + 100 + 100 = 400; before it nothing fires.
    assert_eq!(q.take_emergency_flatten(399, -10), None);
    // The ask filled before the cancel landed: short 10 => buy 10 at market.
    assert_eq!(q.take_emergency_flatten(400, -10), Some(QuoteAction::Market { side: Side::Bid, qty: 10 }));
    // Fires exactly once.
    assert_eq!(q.take_emergency_flatten(500, -10), None);
}

#[test]
fn danger_pull_that_lands_clean_clears_without_a_flatten() {
    let mut q = lifecycle();
    let mut out = Vec::new();
    q.manage_entry(100, 0, view(Some(Side::Bid)), &wide(), &mut out);
    let mut v = view(Some(Side::Bid));
    v.at_danger = true;
    q.manage_entry(200, 0, v, &wide(), &mut out);
    assert_eq!(q.take_emergency_flatten(400, 0), None);
    // The watchdog cleared: quoting resumes.
    out.clear();
    q.manage_entry(450, 0, view(Some(Side::Bid)), &wide(), &mut out);
    assert_eq!(out, vec![QuoteAction::Place { id: 2, side: Side::Bid, price: 9_995, qty: 10 }]);
}

#[test]
fn inventory_cap_smaller_than_a_quote_places_nothing() {
    let mut q = lifecycle();
    let mut out = Vec::new();
    q.manage_entry(100, 0, view(Some(Side::Ask)), &PositionLimits::new(5, 10), &mut out);
    assert!(out.is_empty());
}

#[test]
fn quiet_oracle_pulls_and_places_nothing() {
    let mut q = lifecycle();
    let mut out = Vec::new();
    q.on_event(100, 0, false, view(Some(Side::Ask)), &wide(), &mut out);
    assert_eq!(out.len(), 1);
    out.clear();
    q.on_event(200, 0, true, view(Some(Side::Ask)), &wide(), &mut out);
    assert_eq!(out, vec![QuoteAction::Cancel { id: 1 }]);
    out.clear();
    q.on_event(300, 0, true, view(Some(Side::Ask)), &wide(), &mut out);
    assert!(out.is_empty());
}

// ---- maker state machine ------------------------------------------------------------

fn machine(hold_ns: u64) -> MakerMachine {
    MakerMachine::new(lifecycle(), hold_ns)
}

#[test]
fn flat_machine_places_a_maker_entry() {
    let mut m = machine(0);
    let mut out = Vec::new();
    m.on_event(100, 0, false, false, view(Some(Side::Ask)), &wide(), &mut out);
    assert_eq!(out, vec![QuoteAction::Place { id: 1, side: Side::Ask, price: 10_005, qty: 10 }]);
}

#[test]
fn in_position_cancels_the_stray_quote_and_exits_with_a_taker_on_revert() {
    let mut m = machine(0);
    let mut out = Vec::new();
    m.on_event(100, 0, false, false, view(Some(Side::Ask)), &wide(), &mut out);
    out.clear();
    // The ask filled: short 10, not yet reverted => just the stray cancel.
    m.on_event(200, -10, false, false, view(Some(Side::Ask)), &wide(), &mut out);
    assert_eq!(out, vec![QuoteAction::Cancel { id: 1 }]);
    out.clear();
    // Reverted => taker buy of the whole position.
    m.on_event(300, -10, true, false, view(None), &wide(), &mut out);
    assert_eq!(out, vec![QuoteAction::Market { side: Side::Bid, qty: 10 }]);
    out.clear();
    // The exit is in flight for this position: no double submit.
    m.on_event(301, -10, true, false, view(None), &wide(), &mut out);
    assert!(out.is_empty());
    // A partial fill changes the position: the exit is topped up.
    m.on_event(302, -4, true, false, view(None), &wide(), &mut out);
    assert_eq!(out, vec![QuoteAction::Market { side: Side::Bid, qty: 4 }]);
}

#[test]
fn hold_timeout_forces_a_taker_exit() {
    let mut m = machine(50);
    let mut out = Vec::new();
    m.on_event(100, 10, false, false, view(Some(Side::Bid)), &wide(), &mut out);
    assert!(out.is_empty(), "held, not reverted, before the timeout");
    m.on_event(149, 10, false, false, view(Some(Side::Bid)), &wide(), &mut out);
    assert!(out.is_empty());
    m.on_event(150, 10, false, false, view(Some(Side::Bid)), &wide(), &mut out);
    assert_eq!(out, vec![QuoteAction::Market { side: Side::Ask, qty: 10 }]);
}

#[test]
fn emergency_flatten_takes_priority_in_the_machine() {
    let mut m = machine(0);
    let mut out = Vec::new();
    m.on_event(100, 0, false, false, view(Some(Side::Ask)), &wide(), &mut out);
    let mut v = view(Some(Side::Ask));
    v.at_danger = true;
    m.on_event(200, 0, false, false, v, &wide(), &mut out);
    out.clear();
    m.on_event(401, -10, true, false, view(None), &wide(), &mut out);
    assert_eq!(out, vec![QuoteAction::Market { side: Side::Bid, qty: 10 }]);
    out.clear();
    // The flatten is in flight for -10: nothing more.
    m.on_event(402, -10, true, false, view(None), &wide(), &mut out);
    assert!(out.is_empty());
}

#[test]
fn flat_quiet_machine_only_pulls() {
    let mut m = machine(0);
    let mut out = Vec::new();
    m.on_event(100, 0, false, false, view(Some(Side::Bid)), &wide(), &mut out);
    out.clear();
    m.on_event(200, 0, false, true, view(Some(Side::Bid)), &wide(), &mut out);
    assert_eq!(out, vec![QuoteAction::Cancel { id: 1 }]);
}

#[test]
fn may_place_predicts_a_placement() {
    let mut q = lifecycle();
    assert!(q.may_place(100, 0, false, view(Some(Side::Ask)), &wide()));
    assert!(!q.may_place(100, 0, true, view(Some(Side::Ask)), &wide()), "quiet: only pulls");
    assert!(!q.may_place(100, 5, false, view(Some(Side::Ask)), &wide()), "in position: no entry");
    assert!(!q.may_place(100, 0, false, view(None), &wide()), "no dislocation side");
    let mut out = Vec::new();
    q.on_event(100, 0, false, view(Some(Side::Ask)), &wide(), &mut out);
    assert_eq!(out.len(), 1);
    // Tracked and within tolerance: kept, nothing placed.
    assert!(!q.may_place(200, 0, false, view(Some(Side::Ask)), &wide()));
    let mut drift = view(Some(Side::Ask));
    drift.within_tol = false;
    assert!(q.may_place(200, 0, false, drift, &wide()), "a reprice places anew");
}
