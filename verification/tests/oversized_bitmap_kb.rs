use fixed_bitmaps::BitmapKB;

const NUM_ELEMENTS: usize = 1024 / std::mem::size_of::<u64>();

#[test]
fn bitmap_kb_default_is_0() {
    let bitmap = BitmapKB::default();
    assert_eq!(*bitmap, [0; NUM_ELEMENTS]);
}

#[test]
fn bitmap_kb_max_works_fine() {
    let bitmap = BitmapKB::from([u64::MAX; NUM_ELEMENTS]);
    assert_eq!(*bitmap, [u64::MAX; NUM_ELEMENTS]);
}

#[test]
fn bitmap_kb_copy_test() {
    let a = BitmapKB::default();
    let mut b = a;
    b += 1;

    assert_ne!(a, b);
}

#[test]
fn bitmap_kb_equality_test() {
    let mut a = BitmapKB::default();
    a.set(1054, true).unwrap();
    a.set(1000, true).unwrap();
    let mut b = BitmapKB::default();
    b.set(1054, true).unwrap();
    b.set(1000, true).unwrap();
    let mut c = BitmapKB::default();
    c.set(1054, true).unwrap();
    assert_eq!(a, b);
    assert_ne!(a, c);
}
