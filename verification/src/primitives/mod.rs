//! Bitmaps held in a single unsigned integer.
pub mod bitmap128;
pub mod bitmap16;
pub mod bitmap32;
pub mod bitmap64;
pub mod bitmap8;
pub mod bitmap_arch;

pub use bitmap128::Bitmap128;
pub use bitmap16::Bitmap16;
pub use bitmap32::Bitmap32;
pub use bitmap64::Bitmap64;
pub use bitmap8::Bitmap8;
pub use bitmap_arch::BitmapArch;
