//! Verified core of a streaming chat client: a JSON-tree data model, a frame
//! decoder for server-sent event payloads, a per-turn streaming session that
//! reconstructs assistant output exactly once, and a session driver that folds
//! a sequence of raw frames into a final result or a typed failure.

pub mod api;
pub mod config;
pub mod driver;
pub mod format;
pub mod json;
pub mod output;
pub mod session;
pub mod sse;
pub mod types;

use vstd::prelude::*;

verus! {

/// Initialization hook kept for interface parity: the library holds no
/// global state, so there is nothing to set up.
pub fn init() {
}

} // verus!
