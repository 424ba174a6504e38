//! The record service: the four operations over the repository, with store
//! outcomes mapped to structured RPC statuses rather than failures.

use vstd::prelude::*;
use crate::ErrorKind;
use crate::proto::EmptyReply;
use crate::proto::FindUniqueRecordRequest;
use crate::proto::RecordReply;
use crate::proto::UpsertRecordRequest;
use crate::record_repository::RecordRepository;
use crate::record_repository::reply_matches_row_fields;
use crate::record_repository::spec_repo_delete;
use crate::record_repository::spec_repo_lookup;
use crate::record_repository::spec_repo_upsert;
use crate::record_repository::upsert_request_valid;
use crate::rpc_server::RpcStatus;

verus! {

/// The record service.
#[derive(Debug)]
pub struct MyRecords {
    pub repo: RecordRepository,
}

impl MyRecords {
    /// Returns the record under the request's key, or `NotFound`.
    pub fn find_unique(&self, request: &FindUniqueRecordRequest) -> (r: Result<
        RecordReply,
        RpcStatus,
    >)
        requires
            self.repo.wf(),
        ensures
            match spec_repo_lookup(self.repo.rows(), request.name@, request.rtype@) {
                Some(rv) => r is Ok && reply_matches_row_fields(r.unwrap(), rv),
                None => r == Err::<RecordReply, RpcStatus>(RpcStatus::NotFound),
            },
    {
        match self.repo.find_unique(request) {
            Ok(record) => Ok(record),
            Err(_) => Err(RpcStatus::NotFound),
        }
    }

    /// Applies an upsert and returns the stored record; a malformed value or
    /// unsupported type is an invalid argument and changes nothing.
    pub fn upsert(&mut self, request: &UpsertRecordRequest) -> (r: Result<RecordReply, RpcStatus>)
        requires
            old(self).repo.wf(),
        ensures
            final(self).repo.wf(),
            upsert_request_valid(request.rtype@, request.value@) ==> r is Ok && exists|now: i64|
                final(self).repo.rows() == spec_repo_upsert(
                    old(self).repo.rows(),
                    request.name@,
                    request.rtype@,
                    request.value@,
                    request.ttl,
                    now,
                ),
            !upsert_request_valid(request.rtype@, request.value@) ==> final(self).repo.rows()
                == old(self).repo.rows() && r == Err::<RecordReply, RpcStatus>(
                RpcStatus::InvalidArgument,
            ),
    {
        match self.repo.upsert(request) {
            Ok(record) => Ok(record),
            Err(e) => {
                if e == ErrorKind::InvalidArgument {
                    Err(RpcStatus::InvalidArgument)
                } else {
                    Err(RpcStatus::Internal)
                }
            },
        }
    }

    /// Renders every stored record, in store order; a transport may stream
    /// them one by one.
    pub fn list(&self) -> (r: Vec<RecordReply>)
        ensures
            r@.len() == self.repo.rows().len(),
            forall|i: int|
                0 <= i < r@.len() ==> reply_matches_row_fields(
                    #[trigger] r@[i],
                    self.repo.rows()[i],
                ),
    {
        self.repo.list()
    }

    /// Applies a delete. Succeeds whether or not the row existed.
    pub fn delete(&mut self, request: &FindUniqueRecordRequest) -> (r: Result<
        EmptyReply,
        RpcStatus,
    >)
        requires
            old(self).repo.wf(),
        ensures
            final(self).repo.wf(),
            final(self).repo.rows() == spec_repo_delete(
                old(self).repo.rows(),
                request.name@,
                request.rtype@,
            ),
            r is Ok,
    {
        match self.repo.delete(request) {
            Ok(reply) => Ok(reply),
            Err(_) => Err(RpcStatus::Internal),
        }
    }
}

} // verus!
