use odometer::gas::{
    checked_parse_gas_used, compute_gas_per_second, format_gas_rate, format_gas_used,
    gas_per_second_to_mgas_per_second, parse_gas_used,
};

#[test]
fn parses_prefixed_hex() {
    assert_eq!(parse_gas_used("0x1C9C380"), 30_000_000);
    assert_eq!(parse_gas_used("0x0"), 0);
    assert_eq!(parse_gas_used("0xff"), 255);
    assert_eq!(parse_gas_used("0xFf"), 255);
}

#[test]
fn parses_hex_without_prefix() {
    assert_eq!(parse_gas_used("1c9c380"), 30_000_000);
    assert_eq!(parse_gas_used("10"), 16);
}

#[test]
fn parses_leading_zeros_and_sign() {
    assert_eq!(parse_gas_used("0x000000000000000000000000000000000000000001"), 1);
    assert_eq!(parse_gas_used("+ff"), 255);
    assert_eq!(parse_gas_used("0x+1"), 1);
}

#[test]
fn parses_the_largest_figure() {
    assert_eq!(
        checked_parse_gas_used("0xffffffffffffffffffffffffffffffff"),
        Some(u128::MAX)
    );
}

#[test]
fn refuses_malformed_figures() {
    assert_eq!(checked_parse_gas_used(""), None);
    assert_eq!(checked_parse_gas_used("0x"), None);
    assert_eq!(checked_parse_gas_used("+"), None);
    assert_eq!(checked_parse_gas_used("0x+"), None);
    assert_eq!(checked_parse_gas_used("0X10"), None);
    assert_eq!(checked_parse_gas_used("0x0x10"), None);
    assert_eq!(checked_parse_gas_used("xyz"), None);
    assert_eq!(checked_parse_gas_used("-1"), None);
    assert_eq!(checked_parse_gas_used(" 1"), None);
    assert_eq!(checked_parse_gas_used("1 "), None);
    assert_eq!(checked_parse_gas_used("1_0"), None);
    assert_eq!(checked_parse_gas_used("0x1g"), None);
    assert_eq!(checked_parse_gas_used("0x\u{e9}"), None);
}

#[test]
fn refuses_figures_beyond_128_bits() {
    assert_eq!(
        checked_parse_gas_used("0x100000000000000000000000000000000"),
        None
    );
    assert_eq!(
        checked_parse_gas_used("0xfffffffffffffffffffffffffffffffff"),
        None
    );
}

#[test]
fn checked_parse_agrees_with_parse() {
    assert_eq!(checked_parse_gas_used("0x1C9C380"), Some(30_000_000));
    assert_eq!(checked_parse_gas_used("0"), Some(0));
}

#[test]
fn writes_canonical_hex() {
    assert_eq!(format_gas_used(30_000_000), "0x1c9c380");
    assert_eq!(format_gas_used(0), "0x0");
    assert_eq!(format_gas_used(255), "0xff");
    assert_eq!(format_gas_used(4096), "0x1000");
    assert_eq!(
        format_gas_used(u128::MAX),
        "0xffffffffffffffffffffffffffffffff"
    );
}

#[test]
fn hex_round_trip_keeps_the_value() {
    for h in ["0x1C9C380", "0x0", "0x000A", "0xdeadBEEF", "0xffffffffffffffffffffffffffffffff"] {
        let gas = parse_gas_used(h);
        assert_eq!(parse_gas_used(&format_gas_used(gas)), gas);
    }
    for gas in [0u128, 1, 15, 16, 30_000_000, u64::MAX as u128, u128::MAX] {
        assert_eq!(parse_gas_used(&format_gas_used(gas)), gas);
    }
}

#[test]
fn rate_is_zero_for_zero_time() {
    assert_eq!(compute_gas_per_second(0, 0), 0);
    assert_eq!(compute_gas_per_second(30_000_000, 0), 0);
    assert_eq!(compute_gas_per_second(u128::MAX, 0), 0);
}

#[test]
fn rate_is_zero_for_zero_gas() {
    assert_eq!(compute_gas_per_second(0, 1), 0);
    assert_eq!(compute_gas_per_second(0, 10_000), 0);
    assert_eq!(compute_gas_per_second(0, u128::MAX), 0);
}

#[test]
fn rate_is_gas_per_second() {
    assert_eq!(compute_gas_per_second(30_000_000, 10_000), 3_000_000_000);
    assert_eq!(compute_gas_per_second(1, 1_000_000), 1);
    assert_eq!(compute_gas_per_second(1, 3), 333_333);
    assert_eq!(compute_gas_per_second(7, 2_000_000), 3);
    assert_eq!(compute_gas_per_second(1, 1_000_001), 0);
}

#[test]
fn rate_saturates_instead_of_wrapping() {
    assert_eq!(compute_gas_per_second(u128::MAX, 1), u128::MAX);
    assert_eq!(compute_gas_per_second(u128::MAX, 2), u128::MAX / 2);
    assert_eq!(
        compute_gas_per_second(u128::MAX / 1_000_000 + 1, 1),
        u128::MAX
    );
    assert_eq!(
        compute_gas_per_second(u128::MAX / 1_000_000, 1),
        (u128::MAX / 1_000_000) * 1_000_000
    );
}

#[test]
fn converts_to_mgas() {
    assert_eq!(gas_per_second_to_mgas_per_second(3_000_000_000), 3_000);
    assert_eq!(gas_per_second_to_mgas_per_second(999_999), 0);
    assert_eq!(gas_per_second_to_mgas_per_second(1_999_999), 1);
}

#[test]
fn formats_the_three_magnitudes() {
    assert_eq!(format_gas_rate(999_999), "999999 gas/s");
    assert_eq!(format_gas_rate(1_500_000), "1.50 Mgas/s");
    assert_eq!(format_gas_rate(2_500_000_000), "2.50 Ggas/s");
}

#[test]
fn formats_the_edges_of_the_magnitudes() {
    assert_eq!(format_gas_rate(0), "0 gas/s");
    assert_eq!(format_gas_rate(1), "1 gas/s");
    assert_eq!(format_gas_rate(1_000_000), "1.00 Mgas/s");
    assert_eq!(format_gas_rate(1_000_000_000), "1.00 Ggas/s");
    assert_eq!(format_gas_rate(999_999_999), "1000.00 Mgas/s");
    assert_eq!(format_gas_rate(999_994_999), "999.99 Mgas/s");
}

#[test]
fn rounds_to_the_nearest_hundredth() {
    assert_eq!(format_gas_rate(1_234_567), "1.23 Mgas/s");
    assert_eq!(format_gas_rate(1_999_999), "2.00 Mgas/s");
    assert_eq!(format_gas_rate(1_004_999), "1.00 Mgas/s");
    assert_eq!(format_gas_rate(1_005_000), "1.01 Mgas/s");
    assert_eq!(format_gas_rate(1_095_000), "1.10 Mgas/s");
    assert_eq!(format_gas_rate(12_345_678_901), "12.35 Ggas/s");
    assert_eq!(format_gas_rate(1_060_000_000), "1.06 Ggas/s");
}

#[test]
fn formats_the_largest_rate() {
    assert_eq!(
        format_gas_rate(u128::MAX),
        "340282366920938463463374607431.77 Ggas/s"
    );
}

#[test]
fn thirty_million_gas_in_ten_milliseconds() {
    let gas = parse_gas_used("0x1C9C380");
    assert_eq!(gas, 30_000_000);
    let rate = compute_gas_per_second(gas, 10_000);
    assert_eq!(rate, 3_000_000_000);
    assert_eq!(format_gas_rate(rate), "3.00 Ggas/s");
}
