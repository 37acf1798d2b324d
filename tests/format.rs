use freespace::format::{format_gigabytes, format_num, to_gigabyte_hundredths};
use freespace::session::parse_decimal;

#[test]
fn groups_small_numbers_without_commas() {
    assert_eq!(format_num(0), "0");
    assert_eq!(format_num(7), "7");
    assert_eq!(format_num(999), "999");
}

#[test]
fn groups_thousands_with_commas() {
    assert_eq!(format_num(1000), "1,000");
    assert_eq!(format_num(1234567), "1,234,567");
    assert_eq!(format_num(1234567890), "1,234,567,890");
    assert_eq!(format_num(1000000), "1,000,000");
    assert_eq!(format_num(100200), "100,200");
}

#[test]
fn groups_largest_value() {
    assert_eq!(format_num(u64::MAX), "18,446,744,073,709,551,615");
}

#[test]
fn grouping_shape_and_round_trip() {
    for n in [0u64, 5, 12, 999, 1000, 1001, 65536, 1048576, 987654321, u64::MAX] {
        let g = format_num(n);
        let chars: Vec<char> = g.chars().collect();
        for (i, c) in chars.iter().enumerate() {
            assert!(c.is_ascii_digit() || *c == ',');
            assert_eq!(*c == ',', (chars.len() - i) % 4 == 0);
        }
        let plain: String = chars.iter().filter(|c| **c != ',').collect();
        assert_eq!(parse_decimal(&plain), Some(n));
    }
}

#[test]
fn gigabytes_with_two_decimals() {
    assert_eq!(format_gigabytes(1073741824), "1.00");
    assert_eq!(format_gigabytes(0), "0.00");
    assert_eq!(format_gigabytes(1610612736), "1.50");
    assert_eq!(format_gigabytes(10737418240), "10.00");
    assert_eq!(to_gigabyte_hundredths(1073741824), 100);
}

#[test]
fn gigabytes_round_half_to_even() {
    // 2^27 bytes is exactly 0.125 GiB, 3 * 2^27 exactly 0.375 GiB.
    assert_eq!(format_gigabytes(134217728), "0.12");
    assert_eq!(format_gigabytes(402653184), "0.38");
    // Just above and below a tie.
    assert_eq!(format_gigabytes(134217729), "0.13");
    assert_eq!(format_gigabytes(402653183), "0.37");
}

#[test]
fn gigabytes_of_largest_value() {
    assert_eq!(format_gigabytes(u64::MAX), "17179869184.00");
}
