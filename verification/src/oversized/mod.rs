//! Bitmaps wider than any single integer, held in an array of words.
pub mod bitmap_1024;
pub mod bitmap_4096;
pub mod bitmap_kb;

pub use bitmap_1024::Bitmap1024;
pub use bitmap_4096::Bitmap4096;
pub use bitmap_kb::BitmapKB;
