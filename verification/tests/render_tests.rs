use traffic_monitor::render::{stats_line, u64_to_string};

#[test]
fn decimal_rendering_is_exact() {
    assert_eq!(u64_to_string(0), "0");
    assert_eq!(u64_to_string(7), "7");
    assert_eq!(u64_to_string(10), "10");
    assert_eq!(u64_to_string(60), "60");
    assert_eq!(u64_to_string(123_456_789), "123456789");
    assert_eq!(u64_to_string(u64::MAX), "18446744073709551615");
}

#[test]
fn stats_line_is_exact() {
    assert_eq!(
        stats_line(0, 0, 0),
        "Stats: received 0, dropped 0, dropped by interface 0"
    );
    assert_eq!(
        stats_line(4021, 17, 3),
        "Stats: received 4021, dropped 17, dropped by interface 3"
    );
}
