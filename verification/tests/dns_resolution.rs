use swandns::config::RecordConfig;
use swandns::config::ServerConfig;
use swandns::config::ZoneConfig;
use swandns::dns_server::build_catalog;
use swandns::dns_server::Catalog;
use swandns::dns_server::QueryOutcome;
use swandns::ip::DnsData;
use swandns::proto::UpsertRecordRequest;
use swandns::record_repository::RecordRepository;
use swandns::ErrorKind;
use swandns::RecordType;

fn record(key: &str, value: &str) -> RecordConfig {
    RecordConfig {
        key: key.to_string(),
        value: value.to_string(),
    }
}

fn test_config() -> ServerConfig {
    let mut cfg = ServerConfig::default();
    cfg.nameservers = vec!["1.1.1.1".to_string()];
    cfg.zones = vec![
        ZoneConfig {
            name: "example.com".to_string(),
            records: vec![record("www", "127.0.0.1"), record("@", "127.0.0.2")],
        },
        ZoneConfig {
            name: "example.org".to_string(),
            records: vec![],
        },
    ];
    cfg
}

fn expect_single_answer(catalog: &Catalog, repo: &RecordRepository, qname: &str, expected: DnsData) {
    match catalog.handle_query(repo, qname, RecordType::A) {
        QueryOutcome::Answer(lookup) => {
            assert_eq!(lookup.records.len(), 1);
            assert_eq!(lookup.records[0].data, expected);
        }
        _ => panic!("expected an answer for {}", qname),
    }
}

#[test]
fn static_records_answer_configured_queries() {
    let catalog = build_catalog(&test_config()).unwrap();
    let repo = RecordRepository::new();
    expect_single_answer(&catalog, &repo, "www.example.com", DnsData::V4(127, 0, 0, 1));
    expect_single_answer(&catalog, &repo, "example.com", DnsData::V4(127, 0, 0, 2));
    // Absolute query names resolve the same way.
    expect_single_answer(&catalog, &repo, "www.example.com.", DnsData::V4(127, 0, 0, 1));
}

#[test]
fn upserted_record_is_served_in_its_zone() {
    let catalog = build_catalog(&test_config()).unwrap();
    let mut repo = RecordRepository::new();
    repo.upsert_at(
        &UpsertRecordRequest {
            name: "foo.example.com".to_string(),
            rtype: "A".to_string(),
            value: "127.0.0.3".to_string(),
            ttl: 30,
        },
        50,
    )
    .unwrap();
    expect_single_answer(&catalog, &repo, "foo.example.com", DnsData::V4(127, 0, 0, 3));
}

#[test]
fn static_record_wins_over_dynamic() {
    let catalog = build_catalog(&test_config()).unwrap();
    let mut repo = RecordRepository::new();
    repo.upsert_at(
        &UpsertRecordRequest {
            name: "www.example.com".to_string(),
            rtype: "A".to_string(),
            value: "10.9.9.9".to_string(),
            ttl: 30,
        },
        50,
    )
    .unwrap();
    // The configured 127.0.0.1 is returned, not the stored 10.9.9.9.
    expect_single_answer(&catalog, &repo, "www.example.com", DnsData::V4(127, 0, 0, 1));
}

#[test]
fn zone_without_local_answer_forwards_upstream() {
    let catalog = build_catalog(&test_config()).unwrap();
    let repo = RecordRepository::new();
    match catalog.handle_query(&repo, "example.org", RecordType::A) {
        QueryOutcome::Forward(zone) => {
            let upstreams = &catalog.zones[zone].upstreams;
            assert_eq!(upstreams.len(), 1);
            assert_eq!(upstreams[0].ip, DnsData::V4(1, 1, 1, 1));
            assert_eq!(upstreams[0].port, 53);
        }
        _ => panic!("expected a forward decision"),
    }
}

#[test]
fn query_outside_every_zone_is_refused() {
    let catalog = build_catalog(&test_config()).unwrap();
    let repo = RecordRepository::new();
    assert!(matches!(
        catalog.handle_query(&repo, "google.com", RecordType::A),
        QueryOutcome::Refused
    ));
    // A name that merely ends with the apex text without a label boundary is
    // outside the zone too.
    assert!(matches!(
        catalog.handle_query(&repo, "notexample.com", RecordType::A),
        QueryOutcome::Refused
    ));
}

#[test]
fn longest_matching_zone_wins() {
    let mut cfg = ServerConfig::default();
    cfg.zones = vec![
        ZoneConfig {
            name: "example.com".to_string(),
            records: vec![record("@", "10.0.0.1")],
        },
        ZoneConfig {
            name: "sub.example.com".to_string(),
            records: vec![record("@", "10.0.0.2")],
        },
    ];
    let catalog = build_catalog(&cfg).unwrap();
    let repo = RecordRepository::new();
    expect_single_answer(&catalog, &repo, "sub.example.com", DnsData::V4(10, 0, 0, 2));
    expect_single_answer(&catalog, &repo, "example.com", DnsData::V4(10, 0, 0, 1));
}

#[test]
fn queries_match_zones_case_insensitively() {
    let catalog = build_catalog(&test_config()).unwrap();
    let repo = RecordRepository::new();
    expect_single_answer(&catalog, &repo, "WWW.Example.Com", DnsData::V4(127, 0, 0, 1));
}

#[test]
fn bad_static_value_fails_the_boot() {
    let mut cfg = ServerConfig::default();
    cfg.zones = vec![ZoneConfig {
        name: "example.com".to_string(),
        records: vec![record("www", "not-an-ip")],
    }];
    assert_eq!(build_catalog(&cfg).unwrap_err(), ErrorKind::InvalidConfig);
}

#[test]
fn bad_nameserver_fails_the_boot() {
    let mut cfg = test_config();
    cfg.nameservers = vec!["1.1.1.1:notaport".to_string()];
    assert_eq!(build_catalog(&cfg).unwrap_err(), ErrorKind::InvalidConfig);
}

#[test]
fn aaaa_queries_are_served_from_the_store() {
    let catalog = build_catalog(&test_config()).unwrap();
    let mut repo = RecordRepository::new();
    repo.upsert_at(
        &UpsertRecordRequest {
            name: "example.com".to_string(),
            rtype: "AAAA".to_string(),
            value: "::1".to_string(),
            ttl: 30,
        },
        50,
    )
    .unwrap();
    match catalog.handle_query(&repo, "example.com", RecordType::AAAA) {
        QueryOutcome::Answer(lookup) => {
            assert_eq!(lookup.records.len(), 1);
            assert_eq!(lookup.records[0].data, DnsData::V6(0, 0, 0, 0, 0, 0, 0, 1));
            assert_eq!(lookup.records[0].ttl, 30);
        }
        _ => panic!("expected an answer"),
    }
}
