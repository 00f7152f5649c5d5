//! The window: settings, what is shown, and what is asked of the engine.
pub mod config;
pub mod content;
pub mod controls;
pub mod view;
