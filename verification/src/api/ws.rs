//! The WebSocket endpoint's query.

use vstd::prelude::*;

verus! {

/// WebSocket connection query: the JWT token for authentication.
pub struct WsQuery {
    pub token: String,
}

} // verus!
