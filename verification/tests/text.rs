use fixed_bitmaps::digits::{binary_string, decimal_string, hex_string, radix_string};
use fixed_bitmaps::message::{get_out_of_range, out_of_range_message, set_out_of_range};
use fixed_bitmaps::words::words_string;
use fixed_bitmaps::{Bitmap1024, Bitmap128, Bitmap8, BitmapArch};

#[test]
fn numbers_in_each_radix() {
    assert_eq!(decimal_string(0), "0");
    assert_eq!(decimal_string(7), "7");
    assert_eq!(decimal_string(10), "10");
    assert_eq!(decimal_string(8192), "8192");
    assert_eq!(decimal_string(u128::MAX), u128::MAX.to_string());
    assert_eq!(binary_string(0), "0");
    assert_eq!(binary_string(5), "101");
    assert_eq!(binary_string(255), "11111111");
    assert_eq!(hex_string(0), "0");
    assert_eq!(hex_string(255), "FF");
    assert_eq!(hex_string(0xDEAD_BEEF), "DEADBEEF");
    assert_eq!(hex_string(0x1234_5678_9ABC_DEF0), "123456789ABCDEF0");
    assert_eq!(radix_string(64, 8), "100");
    for number in 0..600u128 {
        assert_eq!(decimal_string(number), format!("{}", number));
        assert_eq!(binary_string(number), format!("{:b}", number));
        assert_eq!(hex_string(number), format!("{:X}", number));
    }
}

#[test]
fn out_of_range_messages() {
    assert_eq!(
        get_out_of_range(64, 70),
        "Tried to get bit that's out of range of the bitmap (range: 64, index: 70)"
    );
    assert_eq!(
        set_out_of_range(1024, 1054),
        "Tried to set bit that's out of range of the bitmap (range: 1024, index: 1054)"
    );
    assert_eq!(out_of_range_message("(range: ", 0, 9), "(range: 0, index: 9)");
}

#[test]
fn single_word_bitmaps_read_in_binary() {
    assert_eq!(Bitmap8::default().to_text(), "0");
    assert_eq!(Bitmap8::from(101).to_text(), format!("{:b}", 101u8));
    assert_eq!(Bitmap8::from(0b1010).to_text(), "1010");
    assert_eq!(Bitmap128::new(true).to_text(), "1".repeat(128));
    assert_eq!(
        BitmapArch::from(usize::MAX).to_text(),
        format!("{:b}", usize::MAX)
    );
}

#[test]
fn wide_bitmaps_read_in_hexadecimal_word_by_word() {
    assert_eq!(words_string(&[0xABu64, 0, 0x10]), "AB_0_10");
    assert_eq!(words_string(&[7u64]), "7");
    let none: [u64; 0] = [];
    assert_eq!(words_string(&none), "");
    let mut bitmap = Bitmap1024::default();
    bitmap.set(70, true).unwrap();
    bitmap.set(0, true).unwrap();
    bitmap.set(1023, true).unwrap();
    let mut expected = String::from("8000000000000000");
    for _ in 0..13 {
        expected.push_str("_0");
    }
    expected.push_str("_40_1");
    assert_eq!(bitmap.to_text(), expected);
}
