//! Fixed-capacity bitmaps: single-word bitmaps over each unsigned integer type, and wide
//! bitmaps held in an array of 64-bit words, most significant word first. Indexing starts
//! at bit 0, the least significant bit.

pub mod digits;
pub mod message;
pub mod oversized;
pub mod primitives;
pub mod size;
pub mod words;

pub use oversized::Bitmap1024;
pub use oversized::Bitmap4096;
pub use oversized::BitmapKB;
pub use primitives::Bitmap128;
pub use primitives::Bitmap16;
pub use primitives::Bitmap32;
pub use primitives::Bitmap64;
pub use primitives::Bitmap8;
pub use primitives::BitmapArch;
pub use size::BitmapSize;
