//! The client's backend: one module per platform.

pub mod discord;
pub mod utils;
