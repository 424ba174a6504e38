use swandns::authority::DnsClass;
use swandns::authority::DnsRecord;
use swandns::authority::LookupError;
use swandns::authority::ResponseCode;
use swandns::authority::StaticAuthority;
use swandns::authority::ZoneType;
use swandns::ip::DnsData;
use swandns::proto::UpsertRecordRequest;
use swandns::record_repository::RecordRepository;
use swandns::split_authority::SplitAuthority;
use swandns::split_authority::SplitDecision;
use swandns::sqlite_authority::SqliteAuthority;
use swandns::RecordType;

fn static_record(name: &str, data: DnsData) -> DnsRecord {
    DnsRecord {
        name: name.to_string(),
        rtype: match data {
            DnsData::V4(..) => RecordType::A,
            DnsData::V6(..) => RecordType::AAAA,
        },
        class: DnsClass::In,
        ttl: 30,
        data,
    }
}

fn example_zone() -> SplitAuthority {
    SplitAuthority {
        origin: "example.com".to_string(),
        in_memory_authority: StaticAuthority {
            records: vec![static_record("www.example.com", DnsData::V4(127, 0, 0, 1))],
        },
        sqlite_authority: SqliteAuthority {
            origin: "example.com".to_string(),
            zone_type: ZoneType::Primary,
        },
        upstreams: vec![],
    }
}

#[test]
fn composed_zone_reports_forward_and_refuses_maintenance() {
    let zone = example_zone();
    // The composed authority reports the forward kind even though it holds a
    // primary tier.
    assert_eq!(zone.zone_type(), ZoneType::Forward);
    assert!(!zone.is_axfr_allowed());
    assert_eq!(zone.update(), Err(ResponseCode::NotImp));
    assert_eq!(zone.origin().as_str(), "example.com");
    assert!(matches!(zone.get_nsec_records(), Err(LookupError::Unimplemented)));

    let dynamic = &zone.sqlite_authority;
    assert_eq!(dynamic.zone_type(), ZoneType::Primary);
    assert!(!dynamic.is_axfr_allowed());
    assert_eq!(dynamic.update(), Err(ResponseCode::NotImp));
    assert!(matches!(dynamic.get_nsec_records(), Err(LookupError::Unimplemented)));
}

#[test]
fn dynamic_tier_strips_the_query_dot_and_reports_nxdomain() {
    let zone = example_zone();
    let mut repo = RecordRepository::new();
    repo.upsert_at(
        &UpsertRecordRequest {
            name: "dyn.example.com".to_string(),
            rtype: "A".to_string(),
            value: "10.1.1.1".to_string(),
            ttl: 60,
        },
        5,
    )
    .unwrap();

    let hit = zone
        .sqlite_authority
        .lookup(&repo, "dyn.example.com.", RecordType::A)
        .unwrap();
    assert_eq!(hit.len(), 1);
    assert_eq!(hit[0].data, DnsData::V4(10, 1, 1, 1));
    assert_eq!(hit[0].ttl, 60);

    let miss = zone
        .sqlite_authority
        .lookup(&repo, "other.example.com", RecordType::A)
        .unwrap_err();
    assert_eq!(miss, LookupError::Response(ResponseCode::NXDomain));
}

#[test]
fn split_lookup_walks_the_tiers() {
    let zone = example_zone();
    let mut repo = RecordRepository::new();
    repo.upsert_at(
        &UpsertRecordRequest {
            name: "dyn.example.com".to_string(),
            rtype: "A".to_string(),
            value: "10.2.2.2".to_string(),
            ttl: 30,
        },
        5,
    )
    .unwrap();

    match zone.lookup(&repo, "www.example.com", RecordType::A) {
        SplitDecision::Answer(l) => {
            assert!(!l.is_empty());
            assert_eq!(l.iter().len(), 1);
            assert_eq!(l.iter()[0].data, DnsData::V4(127, 0, 0, 1));
        }
        SplitDecision::Forward => panic!("static tier should answer"),
    }
    match zone.lookup(&repo, "dyn.example.com", RecordType::A) {
        SplitDecision::Answer(l) => {
            assert_eq!(l.iter()[0].data, DnsData::V4(10, 2, 2, 2));
        }
        SplitDecision::Forward => panic!("dynamic tier should answer"),
    }
    assert!(matches!(
        zone.lookup(&repo, "missing.example.com", RecordType::A),
        SplitDecision::Forward
    ));

    let mut answer = match zone.lookup(&repo, "www.example.com", RecordType::A) {
        SplitDecision::Answer(l) => l,
        SplitDecision::Forward => panic!("static tier should answer"),
    };
    assert!(answer.take_additionals().is_none());
}
