//! Verified core of an Electrum-protocol RPC frontend.
//!
//! One line of JSON comes in and one line goes out: `decode` turns the text
//! into requests, `catalog` types their parameters, `dispatch` serves each
//! call against the per-client state in `client`, and `wire` frames the
//! responses and notifications byte for byte. The chain index, the node and
//! the other collaborators stay outside; a handler states what it needs as a
//! query and picks up where it left off once the answer is in.
use vstd::prelude::*;

pub mod catalog;
pub mod client;
pub mod decode;
pub mod dispatch;
pub mod hexs;
pub mod jsonval;
pub mod selector;
pub mod status;
pub mod types;
pub mod wire;

verus! {

} // verus!
