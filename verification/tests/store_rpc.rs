use swandns::proto::FindUniqueRecordRequest;
use swandns::proto::PingRequest;
use swandns::proto::UpsertRecordRequest;
use swandns::record_repository::RecordRepository;
use swandns::rpc_server::ping::MyPing;
use swandns::rpc_server::records::MyRecords;
use swandns::rpc_server::RpcStatus;
use swandns::ErrorKind;

fn upsert_req(name: &str, rtype: &str, value: &str, ttl: u32) -> UpsertRecordRequest {
    UpsertRecordRequest {
        name: name.to_string(),
        rtype: rtype.to_string(),
        value: value.to_string(),
        ttl,
    }
}

fn find_req(name: &str, rtype: &str) -> FindUniqueRecordRequest {
    FindUniqueRecordRequest {
        name: name.to_string(),
        rtype: rtype.to_string(),
    }
}

#[test]
fn upsert_then_find_returns_identical_record() {
    let mut repo = RecordRepository::new();
    let reply = repo
        .upsert_at(&upsert_req("host.example.com", "A", "10.0.0.7", 120), 1000)
        .unwrap();
    assert_eq!(reply.name, "host.example.com");
    assert_eq!(reply.rtype, "A");
    assert_eq!(reply.data, "10.0.0.7");
    assert_eq!(reply.ttl, 120);

    let found = repo
        .find_unique_at(&find_req("host.example.com", "A"), 1000)
        .unwrap();
    assert_eq!(found.name, "host.example.com");
    assert_eq!(found.rtype, "A");
    assert_eq!(found.data, "10.0.0.7");
    assert_eq!(found.ttl, 120);
}

#[test]
fn record_is_healthy_immediately_after_upsert() {
    let mut repo = RecordRepository::new();
    let reply = repo
        .upsert_at(&upsert_req("h.example.com", "A", "10.0.0.1", 30), 5_000)
        .unwrap();
    assert!(reply.healthy);
}

#[test]
fn healthy_window_is_seven_minutes() {
    let mut repo = RecordRepository::new();
    repo.upsert_at(&upsert_req("h.example.com", "A", "10.0.0.1", 30), 1_000)
        .unwrap();
    let at_limit = repo
        .find_unique_at(&find_req("h.example.com", "A"), 1_420)
        .unwrap();
    assert!(at_limit.healthy);
    let past_limit = repo
        .find_unique_at(&find_req("h.example.com", "A"), 1_421)
        .unwrap();
    assert!(!past_limit.healthy);
}

#[test]
fn delete_removes_and_repeats_cleanly() {
    let mut repo = RecordRepository::new();
    repo.upsert_at(&upsert_req("gone.example.com", "A", "10.0.0.2", 30), 10)
        .unwrap();
    assert!(repo.delete(&find_req("gone.example.com", "A")).is_ok());
    let miss = repo.find_unique_at(&find_req("gone.example.com", "A"), 11);
    assert_eq!(miss.unwrap_err(), ErrorKind::NotFound);
    // A repeated delete still succeeds.
    assert!(repo.delete(&find_req("gone.example.com", "A")).is_ok());
}

#[test]
fn upsert_twice_keeps_created_at_and_advances_updated_at() {
    let mut repo = RecordRepository::new();
    let first = repo
        .upsert_at(&upsert_req("twice.example.com", "A", "10.0.0.3", 30), 100)
        .unwrap();
    let second = repo
        .upsert_at(&upsert_req("twice.example.com", "A", "10.0.0.3", 30), 250)
        .unwrap();
    assert_eq!(first.created_at, 100);
    assert_eq!(second.created_at, 100);
    assert_eq!(first.updated_at, 100);
    assert_eq!(second.updated_at, 250);
    assert!(second.updated_at >= first.updated_at);
}

#[test]
fn upsert_rejects_value_of_wrong_family() {
    let mut repo = RecordRepository::new();
    // An IPv6 literal under an A tag must not be persisted.
    let err = repo
        .upsert_at(&upsert_req("example.com", "A", "::1", 30), 10)
        .unwrap_err();
    assert_eq!(err, ErrorKind::InvalidArgument);
    let err = repo
        .upsert_at(&upsert_req("example.com", "AAAA", "127.0.0.1", 30), 10)
        .unwrap_err();
    assert_eq!(err, ErrorKind::InvalidArgument);
    let err = repo
        .upsert_at(&upsert_req("example.com", "TXT", "hello", 30), 10)
        .unwrap_err();
    assert_eq!(err, ErrorKind::InvalidArgument);
    assert!(repo.list_at(10).is_empty());
}

#[test]
fn names_are_case_insensitive_and_dot_normalised() {
    let mut repo = RecordRepository::new();
    repo.upsert_at(&upsert_req("Host.Example.COM.", "A", "10.0.0.9", 30), 7)
        .unwrap();
    let found = repo
        .find_unique_at(&find_req("host.example.com", "A"), 7)
        .unwrap();
    assert_eq!(found.data, "10.0.0.9");
    // The stored name kept the case it was first written with, minus the
    // trailing dot.
    assert_eq!(found.name, "Host.Example.COM");
}

#[test]
fn rpc_records_surface_maps_outcomes() {
    let mut service = MyRecords {
        repo: RecordRepository::new(),
    };
    // P11: upsert (example.com, AAAA, ::1); find it back; a missing key is
    // NotFound; list sees both records; delete leaves one.
    let reply = service
        .upsert(&upsert_req("example.com", "AAAA", "::1", 30))
        .unwrap();
    assert_eq!(reply.data, "::1");
    service
        .upsert(&upsert_req("example.com", "A", "127.0.0.1", 30))
        .unwrap();

    let found = service.find_unique(&find_req("example.com", "AAAA")).unwrap();
    assert_eq!(found.data, "::1");
    assert_eq!(found.rtype, "AAAA");

    let miss = service.find_unique(&find_req("google.com", "A"));
    assert_eq!(miss.unwrap_err(), RpcStatus::NotFound);

    assert_eq!(service.list().len(), 2);

    service.delete(&find_req("example.com", "A")).unwrap();
    let remaining = service.list();
    assert_eq!(remaining.len(), 1);
    assert_eq!(remaining[0].rtype, "AAAA");

    let bad = service.upsert(&upsert_req("example.com", "A", "not-an-ip", 30));
    assert_eq!(bad.unwrap_err(), RpcStatus::InvalidArgument);
}

#[test]
fn ping_answers_pong() {
    let ping = MyPing::new();
    let reply = ping.ping(&PingRequest {}).unwrap();
    assert_eq!(reply.message, "pong");
}
