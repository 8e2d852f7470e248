use forgelag::sweep::{
    barrier_counts, entry_family, entry_is_long, find_date_boundaries, max_consecutive_losses,
    BarrierHit,
};

fn dates(ds: &[&str]) -> Vec<String> {
    ds.iter().map(|d| d.to_string()).collect()
}

#[test]
fn date_boundaries_split_runs_of_equal_dates() {
    let d = dates(&["a", "a", "b", "b", "b", "c"]);
    assert_eq!(find_date_boundaries(&d), vec![0, 2, 5, 6]);
}

#[test]
fn date_boundaries_of_a_single_date() {
    let d = dates(&["2025-01-01", "2025-01-01"]);
    assert_eq!(find_date_boundaries(&d), vec![0, 2]);
}

#[test]
fn date_boundaries_of_no_bars() {
    assert_eq!(find_date_boundaries(&[]), vec![0, 0]);
}

#[test]
fn date_boundaries_compare_neighbours_only() {
    let d = dates(&["x", "y", "x"]);
    assert_eq!(find_date_boundaries(&d), vec![0, 1, 2, 3]);
}

#[test]
fn barrier_tallies() {
    let hits = [
        BarrierHit::TakeProfit,
        BarrierHit::StopLoss,
        BarrierHit::TakeProfit,
        BarrierHit::TimeExpired,
        BarrierHit::TakeProfit,
    ];
    assert_eq!(barrier_counts(&hits), (3, 1, 1));
    assert_eq!(barrier_counts(&[]), (0, 0, 0));
}

#[test]
fn longest_losing_streak() {
    assert_eq!(max_consecutive_losses(&[]), 0);
    assert_eq!(max_consecutive_losses(&[false, false]), 0);
    assert_eq!(max_consecutive_losses(&[true, true, false, true, true, true, false, true]), 3);
    assert_eq!(max_consecutive_losses(&[true, true]), 2);
}

#[test]
fn family_drops_window_then_direction() {
    assert_eq!(entry_family("oi_surge_short_25"), "oi_surge");
    assert_eq!(entry_family("oi_surge_long_50"), "oi_surge");
    assert_eq!(entry_family("ask_skew_sust_short_50"), "ask_skew_sust");
    assert_eq!(entry_family("liq_cascade_sell_25"), "liq_cascade");
    assert_eq!(entry_family("liq_cascade_buy_25"), "liq_cascade");
    assert_eq!(entry_family("bid_skew_absorb"), "bid_skew");
    assert_eq!(entry_family("mark_index_discount_long"), "mark_index_discount");
    assert_eq!(entry_family("anomaly_signal_short"), "anomaly_signal");
}

#[test]
fn family_keeps_names_without_tags() {
    assert_eq!(entry_family("null_random"), "null_random");
    assert_eq!(entry_family("plain"), "plain");
    assert_eq!(entry_family(""), "");
    assert_eq!(entry_family("cvd_cum_25x"), "cvd_cum_25x");
}

#[test]
fn family_strips_only_the_first_matching_tag() {
    // The window tag goes first, then one direction tag at most.
    assert_eq!(entry_family("a_long_short"), "a_long");
    // A trailing underscore is an empty window tag.
    assert_eq!(entry_family("x_"), "x");
    assert_eq!(entry_family("7"), "7");
    assert_eq!(entry_family("_7"), "");
}

#[test]
fn direction_by_name() {
    assert!(entry_is_long("oi_surge_long_25"));
    assert!(entry_is_long("liq_cascade_buy_25"));
    assert!(entry_is_long("ask_skew_absorb"));
    assert!(entry_is_long("mark_index_discount_long"));
    assert!(!entry_is_long("oi_surge_short_25"));
    assert!(!entry_is_long("liq_cascade_sell_50"));
    assert!(!entry_is_long("longer"));
    assert!(!entry_is_long(""));
}
