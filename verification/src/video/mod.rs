//! Capture and encoding.
pub mod capture;
pub mod cursor;
pub mod encoder;
pub mod pacing;
pub mod pipeline;
pub mod pixels;
