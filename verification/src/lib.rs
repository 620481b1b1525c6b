//! Descriptions of 8-bit RGB images held in device memory, and the marshalling
//! of a bilinear resize between two of them.
//!
//! The crate works on geometry only. It never touches device memory itself: a
//! caller supplies the routine that runs on the device, and this crate decides
//! what that routine is asked to do and what its answer means.

pub mod image;
pub mod imageops;

pub use image::{CudaImage, ImageError, Layout};
