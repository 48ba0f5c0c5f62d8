use tcptop::text::{decimal_string, friendly_transfer_str, is_bps, is_kbps, is_mbps};

#[test]
fn test_is_bps() {
    assert_eq!(is_bps(901), true);
    assert_eq!(is_bps(1001), false);
}

#[test]
fn test_is_kbps() {
    assert_eq!(is_kbps(901), false);
    assert_eq!(is_kbps(1001), true);
}

#[test]
fn test_is_mbps() {
    assert_eq!(is_mbps(1111901), true);
    assert_eq!(is_mbps(1001), false);
}

#[test]
fn test_friendly_transfer_str() {
    assert_eq!(friendly_transfer_str(1111901), "1.11 mbps");
    assert_eq!(friendly_transfer_str(1119901), "1.12 mbps");
    assert_eq!(friendly_transfer_str(999), "999 bps");
    assert_eq!(friendly_transfer_str(999), "999 bps");
    assert_eq!(friendly_transfer_str(9911), "9.91 kbps");
    assert_eq!(friendly_transfer_str(9999), "10.00 kbps");
    assert_eq!(friendly_transfer_str(112233), "112.23 kbps");
}

#[test]
fn tier_boundaries() {
    assert_eq!(friendly_transfer_str(0), "0 bps");
    assert_eq!(friendly_transfer_str(1000), "1.00 kbps");
    assert_eq!(friendly_transfer_str(999999), "1000.00 kbps");
    assert_eq!(friendly_transfer_str(1000000), "1.00 mbps");
    assert_eq!(friendly_transfer_str(u64::MAX), "18446744073709.55 mbps");
}

#[test]
fn decimal_text() {
    assert_eq!(decimal_string(0), "0");
    assert_eq!(decimal_string(1234567890), "1234567890");
}
