//! A dynamic DNS core: a record store keyed by `(name, type)`, static and
//! dynamic authorities composed per zone with fall-through, a zone catalog
//! with longest-suffix routing, and the decision layer of the RPC surface
//! that mutates the store.

pub mod authority;
pub mod client;
pub mod config;
pub mod dns_server;
pub mod ip;
pub mod proto;
pub mod record_repository;
pub mod record_store;
pub mod rpc_server;
pub mod split_authority;
pub mod sqlite_authority;
pub mod text;
pub mod util;

use vstd::prelude::*;

verus! {

/// The two record types the core serves directly.
#[derive(Clone, Copy, PartialEq, Eq, Structural, Debug)]
pub enum RecordType {
    A,
    AAAA,
}

/// The error kinds the core distinguishes.
#[derive(Clone, Copy, PartialEq, Eq, Structural, Debug)]
pub enum ErrorKind {
    InvalidConfig,
    BindFailed,
    InvalidArgument,
    NotFound,
    Upstream,
    Transient,
    NotImplemented,
}

/// The record type whose stored tag is `s`: `A` and `AAAA` are the only
/// supported tags, matched exactly.
pub open spec fn spec_parse_record_type(s: Seq<char>) -> Option<RecordType> {
    if s == "A"@ {
        Some(RecordType::A)
    } else if s == "AAAA"@ {
        Some(RecordType::AAAA)
    } else {
        None
    }
}

/// Parses a record-type tag.
pub fn parse_record_type(s: &str) -> (r: Option<RecordType>)
    ensures
        r == spec_parse_record_type(s@),
{
    proof {
        reveal_strlit("A");
        reveal_strlit("AAAA");
    }
    let n: usize = s.unicode_len();
    if n == 1 && s.get_char(0) == 'A' {
        proof {
            assert(s@ =~= "A"@);
        }
        Some(RecordType::A)
    } else if n == 4 && s.get_char(0) == 'A' && s.get_char(1) == 'A' && s.get_char(2) == 'A'
        && s.get_char(3) == 'A' {
        proof {
            assert(s@ =~= "AAAA"@);
        }
        Some(RecordType::AAAA)
    } else {
        proof {
            assert(s@ != "A"@ && s@ != "AAAA"@);
        }
        None
    }
}

impl RecordType {
    /// The textual tag under which a record type is stored.
    pub open spec fn spec_tag(self) -> Seq<char> {
        match self {
            RecordType::A => "A"@,
            RecordType::AAAA => "AAAA"@,
        }
    }

    /// Renders the textual tag of this record type.
    pub fn tag(self) -> (r: &'static str)
        ensures
            r@ == self.spec_tag(),
    {
        match self {
            RecordType::A => "A",
            RecordType::AAAA => "AAAA",
        }
    }
}

} // verus!
