//! The request kinds of the client's backend.

use vstd::prelude::*;

pub use crate::adaptors::network::check_status;

verus! {

/// The HTTP methods the backend sends requests with.
#[allow(non_camel_case_types)]
#[derive(Debug, Clone, Copy, PartialEq, Eq, Structural)]
pub enum Request_Type {
    GET,
    POST,
    PUT,
    DELETE,
}

} // verus!
