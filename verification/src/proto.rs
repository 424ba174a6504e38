//! The message shapes of the RPC surface. Record types travel as their
//! textual tag; timestamps as unix seconds.

use vstd::prelude::*;

verus! {

#[derive(Clone, Debug)]
pub struct UpsertRecordRequest {
    pub name: String,
    pub rtype: String,
    pub value: String,
    pub ttl: u32,
}

#[derive(Clone, Debug)]
pub struct FindUniqueRecordRequest {
    pub name: String,
    pub rtype: String,
}

#[derive(Clone, Debug)]
pub struct RecordsQueryRequest {}

#[derive(Clone, Debug)]
pub struct RecordReply {
    pub name: String,
    pub rtype: String,
    pub data: String,
    pub ttl: u32,
    pub created_at: i64,
    pub updated_at: i64,
    pub healthy: bool,
}

#[derive(Clone, Debug)]
pub struct EmptyReply {}

#[derive(Clone, Debug)]
pub struct PingRequest {}

#[derive(Clone, Debug)]
pub struct PingReply {
    pub message: String,
}

} // verus!
