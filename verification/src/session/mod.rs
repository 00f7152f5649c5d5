//! One streaming session: what is streamed, how it starts, and what drives it.
pub mod config;
pub mod connect;
pub mod engine;
pub mod fps;
pub mod health;
pub mod size;
