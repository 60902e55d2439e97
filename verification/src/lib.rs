//! A QR code detection library: bit matrices, binarization, connected
//! components, image pyramids and the bounded decision rules of the
//! detection pipeline, each stated and proved with Verus.

pub mod models;

pub use models::matrix::BitMatrix;
pub use models::qr_code::{ECLevel, MaskPattern, Version};
pub mod utils;
pub mod detector;
pub mod api;
pub mod cancellation;
pub mod input;
pub mod options;
pub mod pipeline;
pub mod strategy;
pub mod telemetry;
pub mod tools;
pub mod fingerprint;
pub mod types;

pub use api::Detector;
pub use cancellation::CancellationToken;
pub use input::{ImageInput, InputError, PixelFormat};
pub use options::{DecoderOptions, DecoderPreset, FailureStage};
