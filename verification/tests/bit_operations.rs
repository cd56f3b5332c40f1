use fixed_bitmaps::words::{add_scalar, first_difference, get_bit, range_mask, set_bit};
use fixed_bitmaps::{Bitmap1024, Bitmap128, Bitmap16, Bitmap4096, Bitmap64, Bitmap8, BitmapKB};

#[test]
fn set_then_get_reads_back_for_every_index_of_a_byte() {
    for value in [0u8, 0b1010_0101, u8::MAX] {
        for index in 0..8 {
            for bit in [true, false] {
                let before = Bitmap8::from(value);
                let mut after = before;
                after.set(index, bit).unwrap();
                assert_eq!(after.get(index), Ok(bit));
                for other in 0..8 {
                    if other != index {
                        assert_eq!(after.get(other), before.get(other));
                    }
                }
            }
        }
    }
}

#[test]
fn set_then_get_reads_back_across_words() {
    let mut words = [0u64; 128];
    for (place, word) in words.iter_mut().enumerate() {
        *word = 0x9E37_79B9_7F4A_7C15u64.wrapping_mul(place as u64 + 1);
    }
    let before = BitmapKB::from(words);
    for index in [0usize, 1, 63, 64, 65, 127, 128, 1000, 4095, 4096, 8128, 8191] {
        for bit in [true, false] {
            let mut after = before;
            after.set(index, bit).unwrap();
            assert_eq!(after.get(index), Ok(bit));
            for other in 0..8192 {
                if other != index {
                    assert_eq!(after.get(other), before.get(other));
                }
            }
        }
    }
}

#[test]
fn bit_70_of_two_words_is_bit_6_of_the_first_word() {
    let mut words = [0u64; 2];
    set_bit(&mut words, 70, true);
    assert_eq!(words, [1 << 6, 0]);
    assert!(get_bit(&words, 70));
    assert!(!get_bit(&words, 6));
    set_bit(&mut words, 0, true);
    assert_eq!(words, [1 << 6, 1]);
    set_bit(&mut words, 70, false);
    assert_eq!(words, [0, 1]);
}

#[test]
fn bit_0_of_a_wide_bitmap_is_in_the_last_word() {
    let mut bitmap = Bitmap1024::default();
    bitmap.set(0, true).unwrap();
    bitmap.set(1023, true).unwrap();
    let words = bitmap.to_array();
    assert_eq!(words[15], 1);
    assert_eq!(words[0], 1 << 63);
    assert!(words[1..15].iter().all(|word| *word == 0));
}

#[test]
fn a_mask_and_its_opposite_split_a_byte() {
    for begin in 0..=9 {
        for end in 0..=9 {
            let on = Bitmap8::create_bit_mask(begin, end, true);
            let off = Bitmap8::create_bit_mask(begin, end, false);
            assert_eq!(on | off, Bitmap8::new(true));
            assert_eq!(on & off, Bitmap8::new(false));
            for index in 0..8 {
                assert_eq!(on.get(index), Ok(begin <= index && index < end));
                assert_eq!(off.get(index), Ok(!(begin <= index && index < end)));
            }
        }
    }
}

#[test]
fn a_mask_and_its_opposite_split_a_wide_bitmap() {
    let bounds = [0usize, 1, 63, 64, 65, 100, 128, 1000, 1023, 1024, 1025, 5000];
    for begin in bounds {
        for end in bounds {
            let on = Bitmap1024::create_bit_mask(begin, end, true);
            let off = Bitmap1024::create_bit_mask(begin, end, false);
            assert_eq!(on | off, Bitmap1024::new(true));
            assert_eq!(on & off, Bitmap1024::new(false));
            assert_eq!(off, !on);
            for index in 0..1024 {
                assert_eq!(on.get(index), Ok(begin <= index && index < end));
            }
        }
    }
}

#[test]
fn mask_of_whole_words_and_boundary_words() {
    let mask: [u64; 3] = range_mask(60, 130, true);
    assert_eq!(mask, [0b11, u64::MAX, 0xF000_0000_0000_0000]);
    let opposite: [u64; 3] = range_mask(60, 130, false);
    assert_eq!(opposite, [!0b11, 0, 0x0FFF_FFFF_FFFF_FFFF]);
    let clipped: [u64; 2] = range_mask(64, 500, true);
    assert_eq!(clipped, [u64::MAX, 0]);
    let past: [u64; 2] = range_mask(128, 500, true);
    assert_eq!(past, [0, 0]);
    let empty: [u64; 2] = range_mask(10, 0, true);
    assert_eq!(empty, [0, 0]);
    let backwards: [u64; 2] = range_mask(70, 5, true);
    assert_eq!(backwards, [0, 0]);
}

#[test]
fn mask_examples_on_sixteen_bits() {
    assert_eq!(*Bitmap16::create_bit_mask(3, 7, true), 0b1111000);
    assert_eq!(
        Bitmap16::create_bit_mask(3, 6, false),
        Bitmap16::new(true) ^ 0b111000
    );
    assert_eq!(*Bitmap16::create_bit_mask(5, 3, true), 0);
    assert_eq!(*Bitmap16::create_bit_mask(5, 3, false), u16::MAX);
    assert_eq!(*Bitmap16::create_bit_mask(4, 99, true), 0xFFF0);
    assert_eq!(*Bitmap16::create_bit_mask(16, 99, true), 0);
}

#[test]
fn set_range_examples() {
    let mut bitmap = Bitmap16::default();
    bitmap.set_range(2, 7, true);
    assert_eq!(*bitmap, 0b1111100);
    bitmap.set_range(3, 5, false);
    assert_eq!(*bitmap, 0b1100100);

    let mut wide = Bitmap4096::default();
    wide.set_range(60, 70, true);
    for index in 0..4096 {
        assert_eq!(wide.get(index), Ok(60 <= index && index < 70));
    }
    wide.set_range(62, 66, false);
    for index in 0..4096 {
        assert_eq!(
            wide.get(index),
            Ok((60 <= index && index < 62) || (66 <= index && index < 70))
        );
    }
}

#[test]
fn boolean_algebra_on_sample_values() {
    let samples = [0u64, 1, 0xDEAD_BEEF, 0x8000_0000_0000_0001, u64::MAX];
    for a in samples {
        for b in samples {
            let (x, y) = (Bitmap64::from(a), Bitmap64::from(b));
            assert_eq!(x & y, y & x);
            assert_eq!((x & y).to_u64(), a & b);
            assert_eq!((x | y).to_u64(), a | b);
            assert_eq!((x ^ y).to_u64(), a ^ b);
        }
        let x = Bitmap64::from(a);
        assert_eq!(x | Bitmap64::new(true), Bitmap64::new(true));
        assert_eq!(x ^ x, Bitmap64::new(false));
        assert_eq!(!(!x), x);
        assert_eq!((!x).to_u64(), !a);
    }
}

#[test]
fn boolean_algebra_on_wide_bitmaps() {
    let mut a = Bitmap1024::default();
    let mut b = Bitmap1024::default();
    for index in [0usize, 5, 64, 70, 500, 1023] {
        a.set(index, true).unwrap();
    }
    for index in [5usize, 63, 70, 501, 1023] {
        b.set(index, true).unwrap();
    }
    assert_eq!(a & b, b & a);
    assert_eq!(a | Bitmap1024::new(true), Bitmap1024::new(true));
    assert_eq!(a ^ a, Bitmap1024::new(false));
    assert_eq!(!(!a), a);
    for index in 0..1024 {
        let (x, y) = (a.get(index).unwrap(), b.get(index).unwrap());
        assert_eq!((a & b).get(index), Ok(x && y));
        assert_eq!((a | b).get(index), Ok(x || y));
        assert_eq!((a ^ b).get(index), Ok(x != y));
        assert_eq!((!a).get(index), Ok(!x));
    }
    let mut c = a;
    c &= b;
    assert_eq!(c, a & b);
    c = a;
    c |= b.to_array();
    assert_eq!(c, a | b);
    c = a;
    c ^= b;
    assert_eq!(c, a ^ b.to_array());
}

#[test]
fn carry_ripples_into_the_high_word() {
    let mut words = [0u64, u64::MAX];
    let overflow = add_scalar(&mut words, 1);
    assert_eq!(words, [1, 0]);
    assert!(!overflow);

    let mut three = [7u64, u64::MAX, u64::MAX - 1];
    let overflow = add_scalar(&mut three, 5);
    assert_eq!(three, [8, 0, 3]);
    assert!(!overflow);

    let mut plain = [7u64, 9];
    let overflow = add_scalar(&mut plain, 0);
    assert_eq!(plain, [7, 9]);
    assert!(!overflow);
}

#[test]
fn adding_one_to_the_full_bitmap_wraps_to_zero() {
    let mut words = [u64::MAX; 2];
    assert!(add_scalar(&mut words, 1));
    assert_eq!(words, [0, 0]);

    let (sum, overflow) = Bitmap1024::new(true).overflowing_add(1);
    assert!(overflow);
    assert_eq!(sum, Bitmap1024::new(false));
    assert_eq!(Bitmap1024::new(true) + 1, Bitmap1024::default());

    let (sum, overflow) = Bitmap1024::new(true).overflowing_add(3);
    assert!(overflow);
    assert_eq!(sum, Bitmap1024::default() + 2);

    let (sum, overflow) = Bitmap1024::default().overflowing_add(u64::MAX);
    assert!(!overflow);
    let mut expected = [0u64; 16];
    expected[15] = u64::MAX;
    assert_eq!(sum.to_array(), expected);

    let mut bitmap = sum;
    bitmap += 1;
    expected[15] = 0;
    expected[14] = 1;
    assert_eq!(*bitmap, expected);
}

#[test]
fn equal_bits_make_equal_bitmaps() {
    let mut a = Bitmap4096::default();
    a.set(1054, true).unwrap();
    a.set(1000, true).unwrap();
    let mut b = Bitmap4096::default();
    b.set(1000, true).unwrap();
    b.set(1054, true).unwrap();
    let mut c = Bitmap4096::default();
    c.set(1054, true).unwrap();
    assert_eq!(a, b);
    assert_ne!(a, c);
    assert_ne!(b, c);

    let mut d = Bitmap1024::default();
    d.set(1000, true).unwrap();
    d.set(1023, true).unwrap();
    let mut e = Bitmap1024::default();
    e.set(1023, true).unwrap();
    e.set(1000, true).unwrap();
    let mut f = Bitmap1024::default();
    f.set(1023, true).unwrap();
    assert_eq!(d, e);
    assert_ne!(d, f);
}

#[test]
fn an_index_at_the_capacity_is_refused() {
    let mut small = Bitmap8::from(0b1001);
    assert_eq!(
        small.get(8),
        Err(String::from(
            "Tried to get bit that's out of range of the bitmap (range: 8, index: 8)"
        ))
    );
    assert_eq!(
        small.set(8, true),
        Err(String::from(
            "Tried to set bit that's out of range of the bitmap (range: 8, index: 8)"
        ))
    );
    assert_eq!(small.to_u8(), 0b1001);
    assert_eq!(Bitmap8::from_set(8), None);
    assert_eq!(Bitmap8::from_set(7), Some(Bitmap8::from(0b1000_0000)));

    let mut wide = Bitmap1024::new(true);
    let before = wide.to_array();
    assert_eq!(
        wide.get(1024),
        Err(String::from(
            "Tried to get bit that's out of range of the bitmap (range: 1024, index: 1024)"
        ))
    );
    assert_eq!(
        wide.set(1054, false),
        Err(String::from(
            "Tried to set bit that's out of range of the bitmap (range: 1024, index: 1054)"
        ))
    );
    assert_eq!(wide.to_array(), before);
    assert_eq!(Bitmap1024::from_set(1024), None);
    assert!(wide.set(usize::MAX, true).is_err());

    let huge = BitmapKB::default();
    assert_eq!(
        huge.get(8192),
        Err(String::from(
            "Tried to get bit that's out of range of the bitmap (range: 8192, index: 8192)"
        ))
    );
    assert_eq!(huge.get(8191), Ok(false));
    assert_eq!(Bitmap128::default().get(128).is_err(), true);
    assert_eq!(Bitmap128::new(true).get(127), Ok(true));
}

#[test]
fn from_set_sets_one_bit() {
    assert_eq!(Bitmap64::from_set(6).unwrap().to_u64(), 64);
    assert_eq!(Bitmap128::from_set(100).unwrap().to_u128(), 1 << 100);
    let bitmap = Bitmap1024::from_set(70).unwrap();
    let mut expected = [0u64; 16];
    expected[14] = 1 << 6;
    assert_eq!(bitmap.to_array(), expected);
}

#[test]
fn capacities() {
    assert_eq!(Bitmap8::capacity(), 8);
    assert_eq!(Bitmap16::capacity(), 16);
    assert_eq!(Bitmap64::capacity(), 64);
    assert_eq!(Bitmap128::capacity(), 128);
    assert_eq!(Bitmap1024::capacity(), 1024);
    assert_eq!(Bitmap4096::capacity(), 4096);
    assert_eq!(BitmapKB::capacity(), 8192);
    assert_eq!(
        fixed_bitmaps::BitmapArch::capacity(),
        usize::BITS as usize
    );
    assert_eq!(fixed_bitmaps::Bitmap32::capacity(), 32);
}

#[test]
fn single_word_arithmetic() {
    let a = Bitmap8::from(0b1001);
    let b = Bitmap8::from(0b1010);
    assert_eq!((a + 10).to_u8(), 19);
    assert_eq!((a - 4).to_u8(), 5);
    assert_eq!((b * 2).to_u8(), 20);
    assert_eq!((b / 2).to_u8(), 5);
    assert_eq!((a + Bitmap8::from(10)).to_u8(), 19);
    assert_eq!((a - Bitmap8::from(4)).to_u8(), 5);
    assert_eq!((b * Bitmap8::from(2)).to_u8(), 20);
    assert_eq!((b / Bitmap8::from(3)).to_u8(), 3);
    assert_eq!((a << 3).to_u8(), 0b1001000);
    assert_eq!((b >> 1).to_u8(), 0b101);
    assert_eq!((a << 7).to_u8(), 0b1000_0000);
    let mut c = a;
    c += 1;
    c -= Bitmap8::from(2);
    c *= 3;
    c /= 2;
    c <<= 2;
    c >>= 1;
    assert_eq!(c.to_u8(), 24);
    c += Bitmap8::from(231);
    assert_eq!(c.to_u8(), u8::MAX);
    c -= 255;
    c += 5;
    c *= Bitmap8::from(51);
    c /= Bitmap8::from(5);
    assert_eq!(c.to_u8(), 51);
}

#[test]
fn order_follows_the_value() {
    assert!(Bitmap8::from(3) < Bitmap8::from(4));
    assert!(Bitmap8::from(200) > Bitmap8::from(4));
    assert!(Bitmap8::from(7) <= Bitmap8::from(7));
    assert_eq!(
        Bitmap8::from(7).partial_cmp(&Bitmap8::from(7)),
        Some(std::cmp::Ordering::Equal)
    );
    let mut high = [0u64; 16];
    high[0] = 1;
    let mut low = [u64::MAX; 16];
    low[0] = 0;
    assert!(Bitmap1024::from(low) < Bitmap1024::from(high));
    assert!(Bitmap1024::from(high) > Bitmap1024::from(low));
    assert_eq!(
        Bitmap1024::from(high).partial_cmp(&Bitmap1024::from(high)),
        Some(std::cmp::Ordering::Equal)
    );
    assert_eq!(
        Bitmap1024::from(low).cmp(&Bitmap1024::from(high)),
        std::cmp::Ordering::Less
    );
    assert_eq!(first_difference(&low, &high), Some(0));
    assert_eq!(first_difference(&low, &low), None);
    let mut other = low;
    other[9] = 4;
    assert_eq!(first_difference(&low, &other), Some(9));
    assert!(Bitmap1024::from(other) < Bitmap1024::from(low));
}
