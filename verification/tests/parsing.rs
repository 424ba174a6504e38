use swandns::client::build_update_request;
use swandns::client::select_iface_addr;
use swandns::client::NetInterface;
use swandns::ip::parse_ipv4;
use swandns::ip::parse_ipv6;
use swandns::ip::DnsData;
use swandns::text::eq_ignore_case;
use swandns::text::split_str;
use swandns::text::strip_trailing_dot;
use swandns::util::create_record_data;
use swandns::util::get_socket_addr;
use swandns::util::parse_ip_optional_socket;
use swandns::util::render_record_name;
use swandns::ErrorKind;

#[test]
fn ipv4_literals_parse_exactly() {
    assert_eq!(parse_ipv4("127.0.0.1"), Some((127, 0, 0, 1)));
    assert_eq!(parse_ipv4("0.0.0.0"), Some((0, 0, 0, 0)));
    assert_eq!(parse_ipv4("255.255.255.255"), Some((255, 255, 255, 255)));
    assert_eq!(parse_ipv4("256.0.0.1"), None);
    assert_eq!(parse_ipv4("01.2.3.4"), None);
    assert_eq!(parse_ipv4("1.2.3"), None);
    assert_eq!(parse_ipv4("1.2.3.4.5"), None);
    assert_eq!(parse_ipv4("1.2.3."), None);
    assert_eq!(parse_ipv4(""), None);
    assert_eq!(parse_ipv4("a.b.c.d"), None);
}

#[test]
fn ipv6_literals_parse_exactly() {
    assert_eq!(
        parse_ipv6("1:2:3:4:5:6:7:8").map(|v| v.to_vec()),
        Some(vec![1, 2, 3, 4, 5, 6, 7, 8])
    );
    assert_eq!(
        parse_ipv6("::").map(|v| v.to_vec()),
        Some(vec![0, 0, 0, 0, 0, 0, 0, 0])
    );
    assert_eq!(
        parse_ipv6("::1").map(|v| v.to_vec()),
        Some(vec![0, 0, 0, 0, 0, 0, 0, 1])
    );
    assert_eq!(
        parse_ipv6("fe80::").map(|v| v.to_vec()),
        Some(vec![0xfe80, 0, 0, 0, 0, 0, 0, 0])
    );
    assert_eq!(
        parse_ipv6("2001:db8::8a2e:370:7334").map(|v| v.to_vec()),
        Some(vec![0x2001, 0xdb8, 0, 0, 0, 0x8a2e, 0x370, 0x7334])
    );
    assert_eq!(
        parse_ipv6("AbCd::EF").map(|v| v.to_vec()),
        Some(vec![0xabcd, 0, 0, 0, 0, 0, 0, 0xef])
    );
    assert_eq!(parse_ipv6("1:2:3:4:5:6:7"), None);
    assert_eq!(parse_ipv6("1:2:3:4:5:6:7:8:9"), None);
    assert_eq!(parse_ipv6(":::"), None);
    assert_eq!(parse_ipv6("1::2::3"), None);
    assert_eq!(parse_ipv6(":1"), None);
    assert_eq!(parse_ipv6("1:"), None);
    assert_eq!(parse_ipv6("12345::"), None);
    assert_eq!(parse_ipv6(""), None);
}

#[test]
fn record_data_follows_the_family() {
    assert_eq!(create_record_data("10.1.2.3"), Ok(DnsData::V4(10, 1, 2, 3)));
    assert_eq!(
        create_record_data("::1"),
        Ok(DnsData::V6(0, 0, 0, 0, 0, 0, 0, 1))
    );
    assert_eq!(create_record_data("host"), Err(ErrorKind::InvalidArgument));
}

#[test]
fn socket_literals_take_an_optional_port() {
    let bare = parse_ip_optional_socket("1.1.1.1", 53).unwrap();
    assert_eq!(bare.ip, DnsData::V4(1, 1, 1, 1));
    assert_eq!(bare.port, 53);

    let with_port = parse_ip_optional_socket("8.8.8.8:5353", 53).unwrap();
    assert_eq!(with_port.ip, DnsData::V4(8, 8, 8, 8));
    assert_eq!(with_port.port, 5353);

    let bare_v6 = parse_ip_optional_socket("::1", 53).unwrap();
    assert_eq!(bare_v6.ip, DnsData::V6(0, 0, 0, 0, 0, 0, 0, 1));
    assert_eq!(bare_v6.port, 53);

    let bracketed = parse_ip_optional_socket("[fe80::1]:8053", 53).unwrap();
    assert_eq!(bracketed.ip, DnsData::V6(0xfe80, 0, 0, 0, 0, 0, 0, 1));
    assert_eq!(bracketed.port, 8053);

    assert_eq!(
        parse_ip_optional_socket("1.1.1.1:99999", 53).unwrap_err(),
        ErrorKind::InvalidConfig
    );
    assert_eq!(
        parse_ip_optional_socket("nameserver", 53).unwrap_err(),
        ErrorKind::InvalidConfig
    );
}

#[test]
fn record_keys_render_against_the_apex() {
    assert_eq!(render_record_name("@", "example.com"), "example.com");
    assert_eq!(render_record_name("www", "example.com"), "www.example.com");
}

#[test]
fn text_helpers_behave() {
    assert_eq!(strip_trailing_dot("example.com."), "example.com");
    assert_eq!(strip_trailing_dot("example.com"), "example.com");
    assert_eq!(strip_trailing_dot(""), "");
    assert!(eq_ignore_case("Example.COM", "example.com"));
    assert!(!eq_ignore_case("example.org", "example.com"));
    assert_eq!(split_str("a.b..c", '.'), vec!["a", "b", "", "c"]);
    assert_eq!(split_str("", '.'), vec![""]);
}

#[test]
fn bind_address_follows_the_protocol() {
    let v4 = get_socket_addr(None, 1053, None).unwrap();
    assert_eq!(v4.ip, DnsData::V4(0, 0, 0, 0));
    assert_eq!(v4.port, 1053);
    let v6 = get_socket_addr(None, 1053, Some("ipv6")).unwrap();
    assert_eq!(v6.ip, DnsData::V6(0, 0, 0, 0, 0, 0, 0, 0));
    assert_eq!(
        get_socket_addr(None, 1053, Some("ipx")).unwrap_err(),
        ErrorKind::InvalidConfig
    );
    let fixed = get_socket_addr(Some(&DnsData::V4(192, 168, 0, 1)), 8080, None).unwrap();
    assert_eq!(fixed.ip, DnsData::V4(192, 168, 0, 1));
    assert_eq!(fixed.port, 8080);
}

#[test]
fn interface_selection_honours_name_and_family() {
    let interfaces = vec![
        NetInterface {
            name: "lo".to_string(),
            addr: "127.0.0.1".to_string(),
        },
        NetInterface {
            name: "eth0".to_string(),
            addr: "192.168.1.10".to_string(),
        },
        NetInterface {
            name: "eth0".to_string(),
            addr: "fe80::1".to_string(),
        },
    ];
    assert_eq!(
        select_iface_addr(&interfaces, "eth0", None).unwrap(),
        DnsData::V4(192, 168, 1, 10)
    );
    assert_eq!(
        select_iface_addr(&interfaces, "ETH0", Some("IPv6")).unwrap(),
        DnsData::V6(0xfe80, 0, 0, 0, 0, 0, 0, 1)
    );
    assert_eq!(
        select_iface_addr(&interfaces, "wlan0", None).unwrap_err(),
        ErrorKind::NotFound
    );
    assert_eq!(
        select_iface_addr(&interfaces, "eth0", Some("ipx")).unwrap_err(),
        ErrorKind::InvalidConfig
    );
}

#[test]
fn update_requests_carry_family_and_fixed_ttl() {
    let v4 = build_update_request("home.example.com", "203.0.113.9").unwrap();
    assert_eq!(v4.name, "home.example.com");
    assert_eq!(v4.rtype, "A");
    assert_eq!(v4.value, "203.0.113.9");
    assert_eq!(v4.ttl, 30);

    let v6 = build_update_request("home.example.com", "2001:db8::1").unwrap();
    assert_eq!(v6.rtype, "AAAA");

    assert_eq!(
        build_update_request("home.example.com", "nope").unwrap_err(),
        ErrorKind::InvalidArgument
    );
}
