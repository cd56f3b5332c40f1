use fixed_bitmaps::oversized::bitmap_1024::{ELEMENT_COUNT, ELEMENT_SIZE};
use fixed_bitmaps::{Bitmap1024, BitmapSize};
use std::mem;

#[test]
fn bitmap_1024_create_default() {
    let bitmap = Bitmap1024::default();
    assert_eq!([0; ELEMENT_COUNT], *bitmap);
}

#[test]
fn bitmap_1024_constants_correct() {
    assert_eq!(ELEMENT_SIZE, mem::size_of::<u64>() * 8);
    assert_eq!(Bitmap1024::MAP_LENGTH, 1_024);
    assert_eq!(ELEMENT_COUNT, Bitmap1024::MAP_LENGTH / ELEMENT_SIZE);
}
