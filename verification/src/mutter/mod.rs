//! Creating and driving a mutter virtual monitor.
pub mod display;
pub mod layouts;
pub mod patched;
pub mod session;
