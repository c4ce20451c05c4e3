//! The REST endpoints the GTK chat view reads, and the shapes of their
//! answers.

pub mod discord_endpoints;
