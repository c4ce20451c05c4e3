//! The Discord endpoints of the client's GTK chat view.

pub mod discord_endpoints;
pub mod rest_api;
