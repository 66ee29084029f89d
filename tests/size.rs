use fileshare::size::{decimal_string, humanize_bytes};

#[test]
fn small_sizes_in_bytes() {
    assert_eq!(humanize_bytes(0), "0 B");
    assert_eq!(humanize_bytes(1), "1 B");
    assert_eq!(humanize_bytes(512), "512 B");
    assert_eq!(humanize_bytes(999), "999 B");
}

#[test]
fn kilobytes_with_two_decimals() {
    assert_eq!(humanize_bytes(1000), "1.00 kB");
    assert_eq!(humanize_bytes(1500), "1.50 kB");
    assert_eq!(humanize_bytes(1536), "1.54 kB");
    assert_eq!(humanize_bytes(999_994), "999.99 kB");
}

#[test]
fn larger_units() {
    assert_eq!(humanize_bytes(2_500_000), "2.50 MB");
    assert_eq!(humanize_bytes(1_000_000_000), "1.00 GB");
    assert_eq!(humanize_bytes(u64::MAX), "18.45 EB");
}

#[test]
fn decimal_rendering() {
    assert_eq!(decimal_string(0), "0");
    assert_eq!(decimal_string(1234567890), "1234567890");
}
