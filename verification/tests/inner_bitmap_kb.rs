use fixed_bitmaps::oversized::bitmap_kb::{ELEMENT_COUNT, ELEMENT_SIZE};
use fixed_bitmaps::{BitmapKB, BitmapSize};
use std::mem;

#[test]
fn bitmap_kb_create_default() {
    let bitmap = BitmapKB::default();
    assert_eq!([0; ELEMENT_COUNT], *bitmap);
}

#[test]
fn bitmap_kb_constants_correct() {
    assert_eq!(ELEMENT_SIZE, mem::size_of::<u64>() * 8);
    assert_eq!(BitmapKB::MAP_LENGTH, 8_192);
    assert_eq!(ELEMENT_COUNT, BitmapKB::MAP_LENGTH / ELEMENT_SIZE);
}
