use forgelag::calendar::days_to_ymd;

#[test]
fn epoch_is_first_of_january_1970() {
    assert_eq!(days_to_ymd(0), (1970, 1, 1));
}

#[test]
fn days_before_the_epoch() {
    assert_eq!(days_to_ymd(-1), (1969, 12, 31));
    assert_eq!(days_to_ymd(-365), (1969, 1, 1));
    assert_eq!(days_to_ymd(-719468), (0, 3, 1));
    assert_eq!(days_to_ymd(-719469), (0, 2, 29));
}

#[test]
fn leap_days() {
    assert_eq!(days_to_ymd(11016), (2000, 2, 29));
    assert_eq!(days_to_ymd(11017), (2000, 3, 1));
    assert_eq!(days_to_ymd(19782), (2024, 2, 29));
    // 2100 is not a leap year.
    assert_eq!(days_to_ymd(47541), (2100, 3, 1));
    assert_eq!(days_to_ymd(47540), (2100, 2, 28));
}

#[test]
fn ordinary_dates() {
    assert_eq!(days_to_ymd(19723), (2024, 1, 1));
    assert_eq!(days_to_ymd(20089), (2025, 1, 1));
    assert_eq!(days_to_ymd(20088), (2024, 12, 31));
    assert_eq!(days_to_ymd(365), (1971, 1, 1));
}
