use std::time::{SystemTime, UNIX_EPOCH};

use ed_forge::clock::{now_stamp, stamp_of, stamp_of_reading};

#[test]
fn stamps_are_decimal_numerals() {
    assert_eq!(stamp_of(0), "0");
    assert_eq!(stamp_of(7), "7");
    assert_eq!(stamp_of(10), "10");
    assert_eq!(stamp_of(109), "109");
    assert_eq!(stamp_of(1_700_000_000), "1700000000");
    assert_eq!(stamp_of(u64::MAX), "18446744073709551615");
    for n in [1u64, 9, 11, 99, 100, 101, 12345, 9_876_543_210] {
        assert_eq!(stamp_of(n), n.to_string());
    }
}

#[test]
fn now_stamp_reads_the_clock() {
    let before = SystemTime::now().duration_since(UNIX_EPOCH).expect("after the epoch").as_secs();
    let stamp = now_stamp();
    let after = SystemTime::now().duration_since(UNIX_EPOCH).expect("after the epoch").as_secs();
    let secs: u64 = stamp.parse().expect("a decimal number");
    assert!(before <= secs && secs <= after);
    assert_eq!(secs.to_string(), stamp);
}

#[test]
fn a_clock_before_the_epoch_stamps_zero() {
    assert_eq!(stamp_of_reading(None), "0");
    assert_eq!(stamp_of_reading(Some(0)), "0");
    assert_eq!(stamp_of_reading(Some(7)), "7");
    assert_eq!(stamp_of_reading(Some(1_700_000_000)), "1700000000");
    assert_eq!(stamp_of_reading(Some(u64::MAX)), "18446744073709551615");
}
