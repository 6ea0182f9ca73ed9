use brainfucklib::text::{write_position, write_signed, write_unsigned};

#[test]
fn unsigned_numbers_in_decimal() {
    assert_eq!(write_unsigned(0), "0");
    assert_eq!(write_unsigned(7), "7");
    assert_eq!(write_unsigned(10), "10");
    assert_eq!(write_unsigned(1234567890), "1234567890");
    assert_eq!(write_unsigned(u128::MAX), u128::MAX.to_string());
}

#[test]
fn positions_in_decimal() {
    assert_eq!(write_position(0), "0");
    assert_eq!(write_position(65535), "65535");
    assert_eq!(write_position(usize::MAX), usize::MAX.to_string());
}

#[test]
fn signed_numbers_in_decimal() {
    assert_eq!(write_signed(0), "0");
    assert_eq!(write_signed(-1), "-1");
    assert_eq!(write_signed(-907), "-907");
    assert_eq!(write_signed(42), "42");
    assert_eq!(write_signed(i128::MIN), i128::MIN.to_string());
    assert_eq!(write_signed(i128::MAX), i128::MAX.to_string());
}
