//! Core data structures: the packed bit matrix, integer grid points and the
//! QR metadata enumerations.

pub mod matrix;
pub mod point;
pub mod qr_code;
