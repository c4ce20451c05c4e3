//! The iced desktop front end: its sign-in store and its pages.

pub mod auth;
pub mod pages;
