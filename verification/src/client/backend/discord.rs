//! The Discord backend of the client.

pub mod json_structs;
pub mod rest_api;
