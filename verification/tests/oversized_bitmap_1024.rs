use std::{convert::TryInto, mem::size_of};

use fixed_bitmaps::{Bitmap1024, BitmapSize};

const WORD_SIZE: usize = size_of::<u64>() * 8;
const NUM_ELEMENTS: usize = Bitmap1024::MAP_LENGTH / WORD_SIZE;

#[test]
fn bitmap_1024_default_is_0() {
    let bitmap = Bitmap1024::default();
    assert_eq!(*bitmap, [0; NUM_ELEMENTS]);
}

#[test]
fn bitmap_1024_max_works_fine() {
    let bitmap = Bitmap1024::from([u64::MAX; NUM_ELEMENTS]);
    assert_eq!(*bitmap, [u64::MAX; NUM_ELEMENTS]);
}

#[test]
fn bitmap_1024_copy_test() {
    let a = Bitmap1024::default();
    let mut b = a;
    b += 1;

    assert_ne!(a, b);
}

#[test]
fn bitmap_1024_and_functionality() {
    let mut a = Bitmap1024::new(false);
    let mut b = Bitmap1024::new(false);
    let mut c = Bitmap1024::new(false);

    let mut array_a = [0; NUM_ELEMENTS];
    let mut array_b = [0; NUM_ELEMENTS];
    let mut array_c = [0; NUM_ELEMENTS];

    let empty_mask = Bitmap1024::default();
    let full_mask = Bitmap1024::new(true);

    for i in 50..54 {
        a.set(i, true).unwrap();
        array_a[NUM_ELEMENTS - 1 - i / WORD_SIZE] +=
            2u64.pow((i % WORD_SIZE).try_into().unwrap());
    }

    b.set(50, true).unwrap();
    b.set(51, true).unwrap();
    b.set(100, true).unwrap();
    b.set(101, true).unwrap();

    array_b[NUM_ELEMENTS - 1 - 50 / WORD_SIZE] +=
        2u64.pow((50 % WORD_SIZE).try_into().unwrap());
    array_b[NUM_ELEMENTS - 1 - 51 / WORD_SIZE] +=
        2u64.pow((51 % WORD_SIZE).try_into().unwrap());
    array_b[NUM_ELEMENTS - 1 - 100 / WORD_SIZE] +=
        2u64.pow((100 % WORD_SIZE).try_into().unwrap());
    array_b[NUM_ELEMENTS - 1 - 101 / WORD_SIZE] +=
        2u64.pow((101 % WORD_SIZE).try_into().unwrap());

    c.set(50, true).unwrap();
    c.set(52, true).unwrap();
    c.set(100, true).unwrap();
    c.set(102, true).unwrap();

    array_c[NUM_ELEMENTS - 1 - 50 / WORD_SIZE] +=
        2u64.pow((50 % WORD_SIZE).try_into().unwrap());
    array_c[NUM_ELEMENTS - 1 - 52 / WORD_SIZE] +=
        2u64.pow((52 % WORD_SIZE).try_into().unwrap());
    array_c[NUM_ELEMENTS - 1 - 100 / WORD_SIZE] +=
        2u64.pow((100 % WORD_SIZE).try_into().unwrap());
    array_c[NUM_ELEMENTS - 1 - 102 / WORD_SIZE] +=
        2u64.pow((102 % WORD_SIZE).try_into().unwrap());

    let mut first_test = Bitmap1024::default();
    let mut second_test = Bitmap1024::default();
    let mut third_test = Bitmap1024::default();

    first_test.set(50, true).unwrap();
    first_test.set(51, true).unwrap();

    second_test.set(50, true).unwrap();
    second_test.set(52, true).unwrap();

    third_test.set(50, true).unwrap();
    third_test.set(100, true).unwrap();

    assert_eq!((a & b), first_test);
    assert_eq!((a & c), second_test);
    assert_eq!((b & c), third_test);

    assert_eq!((a & empty_mask).to_array(), [0; NUM_ELEMENTS]);
    assert_eq!((b & empty_mask).to_array(), [0; NUM_ELEMENTS]);
    assert_eq!((c & empty_mask).to_array(), [0; NUM_ELEMENTS]);

    assert_eq!(a & full_mask, a);
    assert_eq!(b & full_mask, b);
    assert_eq!(c & full_mask, c);

    assert_eq!(a & empty_mask, b & empty_mask);
    assert_eq!(a & empty_mask, c & empty_mask);
    assert_eq!(b & empty_mask, c & empty_mask);
}
