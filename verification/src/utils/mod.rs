//! Image utilities: binarization, integral images, fixed-point arithmetic,
//! grayscale conversion and buffer pooling.

pub mod binarization;
pub mod fixed_point;
pub mod grayscale;
pub mod memory_pool;
pub mod otsu;
