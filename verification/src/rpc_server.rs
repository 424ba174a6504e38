//! The decision layer of the RPC surface: the ping service and the four
//! record operations, with store outcomes mapped to structured RPC statuses.
//! The transports that carry these calls live outside the core.

pub mod ping;
pub mod records;

use vstd::prelude::*;

verus! {

/// The RPC statuses the surface reports.
#[derive(Clone, Copy, PartialEq, Eq, Structural, Debug)]
pub enum RpcStatus {
    NotFound,
    InvalidArgument,
    Internal,
}

} // verus!
