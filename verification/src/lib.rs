//! Streaming a desktop to a tablet.

pub mod adaptive;
pub mod binary64;
pub mod format;
pub mod mutter;
pub mod session;
pub mod text;
pub mod ui;
pub mod video;
