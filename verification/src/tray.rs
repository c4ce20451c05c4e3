//! The Slint tray front end: its sign-in store and its conversation list.

pub mod auth;
pub mod ui;
