use cwlogs_viewer::date::get_diff;

#[test]
fn test_get_diff() {
    let one_minute: u64 = 60;
    let five_minutes: u64 = 5 * 60;
    let one_hour: u64 = 3600;
    let one_day: u64 = 86400;
    let one_month: u64 = 30 * 86400;
    let one_year: u64 = 365 * 86400;

    assert_eq!(get_diff(one_minute), "1m");
    assert_eq!(get_diff(five_minutes), "5m");
    assert_eq!(get_diff(one_hour), "1h");
    assert_eq!(get_diff(one_day), "1d");
    assert_eq!(get_diff(one_month), "1M");
    assert_eq!(get_diff(one_year), "1y");
}

#[test]
fn test_age_unit_thresholds() {
    assert_eq!(get_diff(59), "59s");
    assert_eq!(get_diff(60), "1m");
    assert_eq!(get_diff(3600), "1h");
    assert_eq!(get_diff(86400), "1d");
    assert_eq!(get_diff(2592000), "1M");
    assert_eq!(get_diff(31536000), "1y");
}

#[test]
fn test_age_edges() {
    assert_eq!(get_diff(0), "0s");
    assert_eq!(get_diff(119), "1m");
    assert_eq!(get_diff(120), "2m");
    assert_eq!(get_diff(3599), "59m");
    assert_eq!(get_diff(86399), "23h");
    assert_eq!(get_diff(2591999), "29d");
    assert_eq!(get_diff(31535999), "12M");
    assert_eq!(get_diff(63072000), "2y");
}
