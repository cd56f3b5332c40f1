use fixed_bitmaps::oversized::bitmap_4096::{ELEMENT_COUNT, ELEMENT_SIZE};
use fixed_bitmaps::{Bitmap4096, BitmapSize};
use std::mem;

#[test]
fn bitmap_4096_create_default() {
    let bitmap = Bitmap4096::default();
    assert_eq!([0; ELEMENT_COUNT], *bitmap);
}

#[test]
fn bitmap_4096_constants_correct() {
    assert_eq!(ELEMENT_SIZE, mem::size_of::<u64>() * 8);
    assert_eq!(Bitmap4096::MAP_LENGTH, 4_096);
    assert_eq!(ELEMENT_COUNT, Bitmap4096::MAP_LENGTH / ELEMENT_SIZE);
}
