//! The dispatcher abstraction transports depend on: one Core-owned
//! repository behind every local or remote protocol entry point.
use crate::protocol::{ProtocolRequest, ProtocolResponse};
use vstd::prelude::*;

verus! {

/// The Core owner could not take the request (its state is unavailable).
#[derive(Clone, Copy, Debug, PartialEq, Eq, Structural)]
pub struct ProtocolDispatchError;

/// Hands one decoded protocol request to the Core owner. `now_ms` is the
/// host's time, never the caller's.
pub trait ProtocolDispatch {
    fn dispatch(&self, request: ProtocolRequest, now_ms: i64) -> Result<
        ProtocolResponse,
        ProtocolDispatchError,
    >;
}

} // verus!
