use redfoam::er::Er;
use redfoam::hex::{format_hex16, parse_hex_u64};

// Formatting writes exactly 16 lowercase hex digits, most significant first.
#[test]
fn format_hex16_values() {
    assert_eq!(format_hex16(0), "0000000000000000");
    assert_eq!(format_hex16(0x1c), "000000000000001c");
    assert_eq!(format_hex16(0xa3), "00000000000000a3");
    assert_eq!(format_hex16(u64::MAX), "ffffffffffffffff");
    assert_eq!(format_hex16(0x0123456789abcdef), "0123456789abcdef");
}

// Parsing reads the hex suffix after the given position, both cases, and
// refuses empty suffixes, non-digits and overflow.
#[test]
fn parse_hex_values() {
    assert_eq!(parse_hex_u64("d000000000000001c", 1), Ok(0x1c));
    assert_eq!(parse_hex_u64("iFFFF", 1), Ok(0xffff));
    assert_eq!(parse_hex_u64("d", 1), Err(Er::BadOffset));
    assert_eq!(parse_hex_u64("dxyz", 1), Err(Er::BadOffset));
    assert_eq!(parse_hex_u64("dffffffffffffffff", 1), Ok(u64::MAX));
    assert_eq!(parse_hex_u64("d10000000000000000", 1), Err(Er::BadOffset));
}

// Formatting and parsing round-trip.
#[test]
fn hex_round_trip() {
    for v in [0u64, 1, 15, 16, 0xdeadbeef, u64::MAX - 1, u64::MAX] {
        let s = format_hex16(v);
        let mut name = String::from("d");
        name.push_str(&s);
        assert_eq!(parse_hex_u64(&name, 1), Ok(v));
    }
}
