//! The ping service: answers every request with `pong`.

use vstd::prelude::*;
use crate::proto::PingReply;
use crate::proto::PingRequest;
use crate::rpc_server::RpcStatus;

verus! {

/// The ping service.
#[derive(Debug, Default)]
pub struct MyPing {}

impl MyPing {
    pub fn new() -> (r: MyPing) {
        MyPing {  }
    }

    /// Answers with the literal `pong`.
    pub fn ping(&self, _request: &PingRequest) -> (r: Result<PingReply, RpcStatus>)
        ensures
            r is Ok,
            r.unwrap().message@ == "pong"@,
    {
        Ok(PingReply { message: String::from_str("pong") })
    }
}

} // verus!
