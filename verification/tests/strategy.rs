use forgelag::engine::LagOrder;
use forgelag::side::Side;
use forgelag::strategy::{book_mid, CoinSignal, ManagedShell, ShellConfig, ShellStep};

#[test]
fn coin_is_deterministic_per_seed() {
    let mut a = CoinSignal::new(42);
    let mut b = CoinSignal::new(42);
    let xs: Vec<bool> = (0..64).map(|_| a.bit()).collect();
    let ys: Vec<bool> = (0..64).map(|_| b.bit()).collect();
    assert_eq!(xs, ys);
    assert!(xs.iter().any(|&x| x) && xs.iter().any(|&x| !x), "both faces appear");
}

#[test]
fn coin_even_seed_equals_next_odd_seed() {
    let mut a = CoinSignal::new(6);
    let mut b = CoinSignal::new(7);
    for _ in 0..16 {
        assert_eq!(a.entry(), b.entry());
    }
}

#[test]
fn coin_first_flip_matches_the_xorshift_step() {
    let mut c = CoinSignal::new(1);
    let mut x: u64 = 1;
    x ^= x << 13;
    x ^= x >> 7;
    x ^= x << 17;
    let expected = (x.wrapping_mul(0x2545_F491_4F6C_DD1D) >> 33) & 1 == 1;
    assert_eq!(c.bit(), expected);
}

#[test]
fn mid_of_the_book() {
    assert_eq!(book_mid(Some(99), Some(103)), Some(101));
    assert_eq!(book_mid(Some(99), Some(102)), Some(100));
    assert_eq!(book_mid(None, Some(102)), None);
    assert_eq!(book_mid(Some(1), None), None);
}

fn cfg() -> ShellConfig {
    ShellConfig { qty: 5, hold_ns: 1_000, cooldown_ns: 500, fill_timeout_ns: 100 }
}

#[test]
fn shell_enters_holds_and_exits_on_timeout() {
    let mut s = ManagedShell::new(cfg());
    assert_eq!(s.on_event(0, 0, Some(100), false), ShellStep::AskSignal(100));
    assert_eq!(s.enter(0, 0, Side::Bid, 100), LagOrder::market(Side::Bid, 5));
    assert_eq!(s.open_entry(), Some((0, 1, 100)));
    // In flight: nothing until the position changes or the timeout passes.
    assert_eq!(s.on_event(50, 0, Some(100), false), ShellStep::Idle);
    // Filled long 5; held until the hold timeout.
    assert_eq!(s.on_event(60, 5, Some(100), false), ShellStep::Idle);
    assert_eq!(s.on_event(1_000, 5, Some(100), false), ShellStep::Submit(LagOrder::market(Side::Ask, 5)));
    assert_eq!(s.open_entry(), None);
    // Flat again but cooling down until 1500.
    assert_eq!(s.on_event(1_200, 0, Some(100), false), ShellStep::Idle);
    assert_eq!(s.on_event(1_500, 0, Some(100), false), ShellStep::AskSignal(100));
}

#[test]
fn shell_price_exit_closes_early() {
    let mut s = ManagedShell::new(cfg());
    s.enter(0, 0, Side::Ask, 100);
    assert_eq!(s.on_event(200, -5, Some(90), true), ShellStep::Submit(LagOrder::market(Side::Bid, 5)));
}

#[test]
fn shell_flattens_a_stray_position_when_flat() {
    let mut s = ManagedShell::new(cfg());
    assert_eq!(s.on_event(10, -3, None, false), ShellStep::Submit(LagOrder::market(Side::Bid, 3)));
    // The flatten is in flight at -3 until its 100 ns timeout.
    assert_eq!(s.on_event(50, -3, Some(100), false), ShellStep::Idle);
    // Cooling down until 510 once flat.
    assert_eq!(s.on_event(120, 0, Some(100), false), ShellStep::Idle);
    assert_eq!(s.on_event(510, 0, Some(100), false), ShellStep::AskSignal(100));
}

#[test]
fn shell_needs_a_mid_to_consult_the_signal() {
    let mut s = ManagedShell::new(cfg());
    assert_eq!(s.on_event(0, 0, None, false), ShellStep::Idle);
}

#[test]
fn clock_sums_are_only_needed_where_they_are_computed() {
    let s = ManagedShell::new(ShellConfig { qty: 1, hold_ns: 100, cooldown_ns: u64::MAX, fill_timeout_ns: 10 });
    // Flat with no position and no close: nothing is computed.
    assert!(s.sums_fit(u64::MAX - 1, 0, Some(100), false));
    // A stray position is flattened: the cooldown sum would overflow.
    assert!(!s.sums_fit(5, 3, Some(100), false));
}

#[test]
fn in_flight_guard_blocks_until_the_position_changes() {
    let mut s = ManagedShell::new(cfg());
    let _ = s.enter(1_000, 0, Side::Bid, 100);
    // Same position before the fill timeout: idle, no second order.
    assert_eq!(s.on_event(1_001, 0, Some(100), false), ShellStep::Idle);
    assert_eq!(s.on_event(1_002, 0, Some(100), true), ShellStep::Idle);
}
