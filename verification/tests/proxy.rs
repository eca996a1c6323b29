use proxy_scanner::address::IpAddress;
use proxy_scanner::blocklist::{abuse_list, load_abuse_ips, load_firehol_cidrs, AbuseList};
use proxy_scanner::geo::GeoDatabase;
use proxy_scanner::proxy::{
    csv_entry, describe_proxy, judge_proxy, output_text, parse_proxy_line, proxy_lines, screen,
    GeoSources, LineError, Outcome, ProxyData, ProxyTarget, Rejection, ScanState, BATCH_SIZE,
    MAX_CONCURRENT,
};
use proxy_scanner::text::lines;

// The encoding of the values in a MaxMind database.

fn sized(kind: u8, n: usize) -> Vec<u8> {
    let (size, more) = if n < 29 { (n as u8, None) } else { (29, Some((n - 29) as u8)) };
    let mut out = if kind <= 7 { vec![kind << 5 | size] } else { vec![size, kind - 7] };
    out.extend(more);
    out
}

fn text_value(s: &str) -> Vec<u8> {
    let mut out = sized(2, s.len());
    out.extend(s.as_bytes());
    out
}

fn number(kind: u8, n: u32) -> Vec<u8> {
    let bytes: Vec<u8> = n.to_be_bytes().into_iter().skip_while(|b| *b == 0).collect();
    let mut out = sized(kind, bytes.len());
    out.extend(bytes);
    out
}

fn map_value(entries: &[(&str, Vec<u8>)]) -> Vec<u8> {
    let mut out = sized(7, entries.len());
    for (name, value) in entries {
        out.extend(text_value(name));
        out.extend(value);
    }
    out
}

// A database of IPv4 addresses that has this record for those whose first bit is not set.
fn database(record: Vec<u8>) -> Vec<u8> {
    let mut out = vec![0, 0, 17, 0, 0, 1];
    out.extend([0u8; 16]);
    out.extend(record);
    out.extend(b"\xab\xcd\xefMaxMind.com");
    out.extend(map_value(&[
        ("binary_format_major_version", number(5, 2)),
        ("binary_format_minor_version", number(5, 0)),
        ("build_epoch", number(9, 1)),
        ("database_type", text_value("Test")),
        ("description", map_value(&[])),
        ("ip_version", number(5, 4)),
        ("languages", sized(11, 0)),
        ("node_count", number(6, 1)),
        ("record_size", number(5, 24)),
    ]));
    out
}

fn names_value(entries: &[(&str, &str)]) -> Vec<u8> {
    let names: Vec<(&str, Vec<u8>)> = entries.iter().map(|(k, v)| (*k, text_value(v))).collect();
    map_value(&names)
}

fn country_database(code: &str, names: &[(&str, &str)]) -> GeoDatabase {
    let country = map_value(&[("iso_code", text_value(code)), ("names", names_value(names))]);
    GeoDatabase::open(database(map_value(&[("country", country)]))).unwrap()
}

fn city_database(names: &[(&str, &str)]) -> GeoDatabase {
    let city = map_value(&[("names", names_value(names))]);
    GeoDatabase::open(database(map_value(&[("city", city)]))).unwrap()
}

fn asn_database(asn: u32, organization: &str) -> GeoDatabase {
    GeoDatabase::open(database(map_value(&[
        ("autonomous_system_number", number(6, asn)),
        ("autonomous_system_organization", text_value(organization)),
    ])))
    .unwrap()
}

fn strings(lines: &[&str]) -> Vec<String> {
    lines.iter().map(|line| line.to_string()).collect()
}

fn target(ip: &str, port: u16) -> ProxyTarget {
    ProxyTarget {
        ip: ip.to_string(),
        port,
    }
}

fn sources() -> GeoSources {
    GeoSources {
        country: country_database("CN", &[("en", "China"), ("zh-CN", "中国")]),
        city: Some(city_database(&[("en", "Beijing"), ("zh-CN", "北京")])),
        asn: Some(asn_database(4134, "Chinanet")),
    }
}

fn reply(text: &str) -> serde_json::Value {
    serde_json::from_str(text).unwrap()
}

fn no_abuse() -> AbuseList {
    abuse_list(&vec![])
}

fn proxy(n: usize) -> ProxyData {
    ProxyData {
        ip: format!("10.0.0.{}", n),
        port: 443,
        country_code: "CN".to_string(),
        country_name: "中国".to_string(),
        city_code: String::new(),
        city_name: String::new(),
        asn_number: "1".to_string(),
        org_name: "org".to_string(),
    }
}

#[test]
fn blank_lines_are_passed_over() {
    let list = strings(&["1.1.1.1,80,US,Org", "", " \t\u{3000}", " 2.2.2.2,80,US,Org ", "x"]);
    let kept = proxy_lines(&list);
    assert_eq!(kept, ["1.1.1.1,80,US,Org", " 2.2.2.2,80,US,Org ", "x"]);
    assert_eq!(proxy_lines(&kept), kept);
}

#[test]
fn a_line_names_a_proxy() {
    let found = parse_proxy_line("1.2.3.4,8443,US,Some Org").unwrap();
    assert_eq!((found.ip.as_str(), found.port), ("1.2.3.4", 8443));
    let found = parse_proxy_line("host,+80,,,,").unwrap();
    assert_eq!((found.ip.as_str(), found.port), ("host", 80));
}

#[test]
fn a_line_has_four_fields() {
    for line in ["", "1.2.3.4", "1.2.3.4,443", "1.2.3.4,443,US", "1.2.3.4,x,US"] {
        assert!(matches!(
            parse_proxy_line(line),
            Err(LineError::TooFewFields)
        ));
    }
}

#[test]
fn a_line_has_a_port() {
    for port in ["", "x", "65536", "-1", " 443", "443 "] {
        match parse_proxy_line(&format!("1.2.3.4,{},US,Org", port)) {
            Err(LineError::InvalidPort(field)) => assert_eq!(field, port),
            other => panic!("{:?}", other),
        }
    }
}

#[test]
fn each_reason_drops_a_proxy() {
    let ip = Some(IpAddress::V4(0x01020304));
    let reported = Some("9.9.9.9".to_string());
    let listed = abuse_list(&vec![ip]);
    let network = load_firehol_cidrs(&strings(&["1.2.0.0/16"]));
    assert_eq!(
        screen(&None, "8.8.8.8", None, &listed, &network),
        Some(Rejection::NoReportedAddress)
    );
    assert_eq!(
        screen(&reported, "9.9.9.9", None, &listed, &network),
        Some(Rejection::SameAddress)
    );
    assert_eq!(
        screen(&reported, "8.8.8.8", None, &listed, &network),
        Some(Rejection::InvalidAddress)
    );
    assert_eq!(
        screen(&reported, "8.8.8.8", ip, &listed, &network),
        Some(Rejection::AbusiveAddress)
    );
    assert_eq!(
        screen(&reported, "8.8.8.8", ip, &no_abuse(), &network),
        Some(Rejection::BlockedNetwork)
    );
    assert_eq!(screen(&reported, "8.8.8.8", ip, &no_abuse(), &[]), None);
}

#[test]
fn a_proxy_is_described_by_the_databases() {
    let found = describe_proxy(&target("1.2.3.4", 443), &sources());
    assert_eq!(
        csv_entry(&found),
        "1.2.3.4,443,CN,中国,Beijing,北京,4134,Chinanet"
    );
    let bare = GeoSources {
        city: None,
        asn: None,
        ..sources()
    };
    let found = describe_proxy(&target("1.2.3.4", 443), &bare);
    assert_eq!(csv_entry(&found), "1.2.3.4,443,CN,中国,,,,");
    let found = describe_proxy(&target("name", 1), &sources());
    assert_eq!(csv_entry(&found), "name,1,,,,,,");
}

#[test]
fn a_reply_is_judged() {
    let judge = |ip: &str, text: &str, abuse: &[&str], cidrs: &[&str]| {
        judge_proxy(
            &target(ip, 443),
            &reply(text),
            "8.8.8.8",
            &sources(),
            &load_abuse_ips(&strings(abuse)),
            &load_firehol_cidrs(&strings(cidrs)),
        )
    };
    let alive = "{\"ip\": \"9.9.9.9\"}";
    assert_eq!(
        csv_entry(&judge("1.2.3.4", alive, &["4.3.2.1"], &["2.0.0.0/8"]).unwrap()),
        "1.2.3.4,443,CN,中国,Beijing,北京,4134,Chinanet"
    );
    assert_eq!(
        judge("1.2.3.4", "{}", &[], &[]).err(),
        Some(Rejection::NoReportedAddress)
    );
    assert_eq!(
        judge("1.2.3.4", "{\"ip\": \"8.8.8.8\"}", &[], &[]).err(),
        Some(Rejection::SameAddress)
    );
    assert_eq!(
        judge("1.2.3", alive, &[], &[]).err(),
        Some(Rejection::InvalidAddress)
    );
    assert_eq!(
        judge("1.2.3.4", alive, &["1.2.3.4,US,100"], &[]).err(),
        Some(Rejection::AbusiveAddress)
    );
    assert_eq!(
        judge("1.2.3.4", alive, &[], &["1.2.3.0/24"]).err(),
        Some(Rejection::BlockedNetwork)
    );
}

#[test]
fn a_listed_address_is_dropped_however_it_is_spelled() {
    let result = judge_proxy(
        &target("2001:db8:0:0::1", 443),
        &reply("{\"ip\": \"9.9.9.9\"}"),
        "8.8.8.8",
        &sources(),
        &load_abuse_ips(&strings(&["2001:0DB8::1,US,9"])),
        &[],
    );
    assert_eq!(result.err(), Some(Rejection::AbusiveAddress));
}

#[test]
fn longer_lists_keep_less() {
    let ips = ["1.2.3.4", "1.2.9.9", "3.3.3.3"];
    let kept = |abuse: &[&str], cidrs: &[&str]| -> Vec<bool> {
        ips.iter()
            .map(|ip| {
                judge_proxy(
                    &target(ip, 1),
                    &reply("{\"ip\": \"9.9.9.9\"}"),
                    "8.8.8.8",
                    &sources(),
                    &load_abuse_ips(&strings(abuse)),
                    &load_firehol_cidrs(&strings(cidrs)),
                )
                .is_ok()
            })
            .collect()
    };
    assert_eq!(kept(&[], &[]), [true, true, true]);
    assert_eq!(kept(&["1.2.3.4"], &[]), [false, true, true]);
    assert_eq!(kept(&["1.2.3.4"], &["1.2.9.0/24"]), [false, false, true]);
    assert_eq!(kept(&[], &["1.2.9.0/24", "1.2.3.0/24"]), [false, false, true]);
    assert_eq!(kept(&[], &["1.2.3.0/24", "1.2.9.0/24"]), [false, false, true]);
}

#[test]
fn every_fiftieth_live_proxy_completes_a_batch() {
    assert_eq!(BATCH_SIZE, 50);
    assert_eq!(MAX_CONCURRENT, 175);
    let mut state = ScanState::new();
    let mut written: Vec<String> = Vec::new();
    for n in 0..120 {
        match state.record(proxy(n)) {
            Some(batch) => {
                assert_eq!(batch.len(), 50);
                assert!(n == 49 || n == 99);
                written.extend(batch.iter().map(|p| p.ip.clone()));
            }
            None => assert!(n != 49 && n != 99),
        }
    }
    let (output, rest) = state.finish();
    assert_eq!(rest.len(), 20);
    assert!(rest.len() < BATCH_SIZE);
    written.extend(rest.iter().map(|p| p.ip.clone()));
    let all: Vec<String> = (0..120).map(|n| proxy(n).ip).collect();
    assert_eq!(written, all);
    let entries: Vec<String> = (0..120).map(|n| csv_entry(&proxy(n))).collect();
    assert_eq!(lines(&output.unwrap()), entries);
}

#[test]
fn a_scan_takes_in_what_is_kept() {
    let mut state = ScanState::new();
    let alive = reply("{\"ip\": \"9.9.9.9\"}");
    let mut probe = |ip: &str, reply: Option<&serde_json::Value>| {
        state.process_proxy(
            &target(ip, 443),
            reply,
            "8.8.8.8",
            &sources(),
            &load_abuse_ips(&strings(&["1.2.3.5"])),
            &[],
        )
    };
    assert!(matches!(probe("1.2.3.4", None), Outcome::Dropped));
    assert!(matches!(probe("1.2.3.5", Some(&alive)), Outcome::Dropped));
    match probe("1.2.3.4", Some(&alive)) {
        Outcome::Live { entry, batch } => {
            assert_eq!(entry, "1.2.3.4,443,CN,中国,Beijing,北京,4134,Chinanet");
            assert!(batch.is_none());
        }
        Outcome::Dropped => panic!("the proxy is live"),
    }
    let (output, rest) = state.finish();
    assert_eq!(
        output,
        Some("1.2.3.4,443,CN,中国,Beijing,北京,4134,Chinanet\n".to_string())
    );
    assert_eq!(rest.len(), 1);
    assert_eq!(rest[0].ip, "1.2.3.4");
}

#[test]
fn a_scan_without_live_proxies_has_no_output() {
    let (output, rest) = ScanState::new().finish();
    assert!(output.is_none());
    assert!(rest.is_empty());
}

#[test]
fn an_output_line_names_its_proxy() {
    let entry = csv_entry(&ProxyData {
        org_name: "Org, Inc.".to_string(),
        ..proxy(7)
    });
    assert_eq!(entry, "10.0.0.7,443,CN,中国,,,1,Org, Inc.");
    let found = parse_proxy_line(&entry).unwrap();
    assert_eq!((found.ip.as_str(), found.port), ("10.0.0.7", 443));
}

#[test]
fn the_output_reads_back() {
    let entries = strings(&["a,1", "", "b\rc", "中"]);
    let output = output_text(&entries);
    assert_eq!(output, "a,1\n\nb\rc\n中\n");
    assert_eq!(lines(&output), entries);
    assert_eq!(output_text(&vec![]), "");
}
