//! The Slint desktop client: its sign-in store, its Discord backend and the
//! widgets' data of its chat view.

pub mod auth;
pub mod backend;
pub mod discord;
pub mod ui;
