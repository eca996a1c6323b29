use proxy_scanner::geo::{
    asn_fields, clean_org_name, geo_fields, get_asn_info, get_geo_info, AsnRecord, CityRecord,
    CountryRecord, GeoDatabase, GeoError, Names,
};

// The encoding of the values in a MaxMind database.

fn sized(kind: u8, n: usize) -> Vec<u8> {
    let (size, more) = if n < 29 { (n as u8, None) } else { (29, Some((n - 29) as u8)) };
    let mut out = if kind <= 7 { vec![kind << 5 | size] } else { vec![size, kind - 7] };
    out.extend(more);
    out
}

fn text_value(s: &str) -> Vec<u8> {
    let mut out = sized(2, s.len());
    out.extend(s.as_bytes());
    out
}

fn number(kind: u8, n: u32) -> Vec<u8> {
    let bytes: Vec<u8> = n.to_be_bytes().into_iter().skip_while(|b| *b == 0).collect();
    let mut out = sized(kind, bytes.len());
    out.extend(bytes);
    out
}

fn map_value(entries: &[(&str, Vec<u8>)]) -> Vec<u8> {
    let mut out = sized(7, entries.len());
    for (name, value) in entries {
        out.extend(text_value(name));
        out.extend(value);
    }
    out
}

// A database of IPv4 addresses that has this record for those whose first bit is not set.
fn database(record: Vec<u8>) -> Vec<u8> {
    let mut out = vec![0, 0, 17, 0, 0, 1];
    out.extend([0u8; 16]);
    out.extend(record);
    out.extend(b"\xab\xcd\xefMaxMind.com");
    out.extend(map_value(&[
        ("binary_format_major_version", number(5, 2)),
        ("binary_format_minor_version", number(5, 0)),
        ("build_epoch", number(9, 1)),
        ("database_type", text_value("Test")),
        ("description", map_value(&[])),
        ("ip_version", number(5, 4)),
        ("languages", sized(11, 0)),
        ("node_count", number(6, 1)),
        ("record_size", number(5, 24)),
    ]));
    out
}

fn names_value(entries: &[(&str, &str)]) -> Vec<u8> {
    let names: Vec<(&str, Vec<u8>)> = entries.iter().map(|(k, v)| (*k, text_value(v))).collect();
    map_value(&names)
}

fn country_database(code: &str, names: &[(&str, &str)]) -> GeoDatabase {
    let country = map_value(&[("iso_code", text_value(code)), ("names", names_value(names))]);
    GeoDatabase::open(database(map_value(&[("country", country)]))).unwrap()
}

fn city_database(names: &[(&str, &str)]) -> GeoDatabase {
    let city = map_value(&[("names", names_value(names))]);
    GeoDatabase::open(database(map_value(&[("city", city)]))).unwrap()
}

fn asn_database(asn: u32, organization: &str) -> GeoDatabase {
    GeoDatabase::open(database(map_value(&[
        ("autonomous_system_number", number(6, asn)),
        ("autonomous_system_organization", text_value(organization)),
    ])))
    .unwrap()
}

fn own(texts: (&str, &str, &str, &str)) -> (String, String, String, String) {
    (
        texts.0.to_string(),
        texts.1.to_string(),
        texts.2.to_string(),
        texts.3.to_string(),
    )
}

fn names(simplified_chinese: Option<&str>, english: Option<&str>) -> Names {
    Names {
        simplified_chinese: simplified_chinese.map(|s| s.to_string()),
        english: english.map(|s| s.to_string()),
    }
}

#[test]
fn chinese_names_are_preferred() {
    let country = country_database("CN", &[("en", "China"), ("de", "China"), ("zh-CN", "中国")]);
    let city = city_database(&[("en", "Beijing"), ("zh-CN", "北京")]);
    assert_eq!(
        get_geo_info(&country, Some(&city), "1.2.3.4"),
        own(("CN", "中国", "Beijing", "北京"))
    );
}

#[test]
fn english_names_are_second() {
    let country = country_database("DE", &[("de", "Deutschland"), ("en", "Germany")]);
    let city = city_database(&[("en", "Bonn")]);
    assert_eq!(
        get_geo_info(&country, Some(&city), "1.2.3.4"),
        own(("DE", "Germany", "Bonn", "Bonn"))
    );
    let other = country_database("FR", &[("fr", "France")]);
    assert_eq!(
        get_geo_info(&other, Some(&city_database(&[])), "1.2.3.4"),
        own(("FR", "", "", ""))
    );
}

#[test]
fn places_without_a_record_are_empty() {
    let country = country_database("CN", &[("en", "China")]);
    let city = city_database(&[("en", "Beijing")]);
    let empty = own(("", "", "", ""));
    // No record, no address, another family.
    assert_eq!(get_geo_info(&country, Some(&city), "200.1.1.1"), empty);
    assert_eq!(get_geo_info(&country, Some(&city), "1.2.3"), empty);
    assert_eq!(get_geo_info(&country, Some(&city), " 1.2.3.4"), empty);
    assert_eq!(get_geo_info(&country, Some(&city), "2001:db8::1"), empty);
    assert_eq!(
        get_geo_info(&country, None, "1.2.3.4"),
        own(("CN", "China", "", ""))
    );
}

#[test]
fn networks_have_a_number_and_an_organisation() {
    let database = asn_database(13335, "CLOUDFLARENET");
    assert_eq!(
        get_asn_info(&database, "1.1.1.1"),
        ("13335".to_string(), "CLOUDFLARENET".to_string())
    );
    let empty = (String::new(), String::new());
    assert_eq!(get_asn_info(&database, "129.1.1.1"), empty);
    assert_eq!(get_asn_info(&database, "host"), empty);
    let country = country_database("CN", &[]);
    assert_eq!(get_asn_info(&country, "1.1.1.1"), empty);
}

#[test]
fn other_bytes_are_no_database() {
    assert!(matches!(
        GeoDatabase::open(vec![]),
        Err(GeoError::NotADatabase(_))
    ));
    assert!(GeoDatabase::open(b"not a database".to_vec()).is_err());
    let mut cut = database(map_value(&[]));
    cut.truncate(40);
    assert!(GeoDatabase::open(cut).is_err());
    assert!(GeoDatabase::open(database(map_value(&[]))).is_ok());
}

#[test]
fn fields_of_records() {
    let record = || CountryRecord {
        iso_code: Some("CN".to_string()),
        names: names(Some("中国"), Some("China")),
    };
    assert_eq!(geo_fields(Some(record()), None), own(("CN", "中国", "", "")));
    assert_eq!(
        geo_fields(
            None,
            Some(CityRecord {
                names: names(Some("北京"), None)
            })
        ),
        own(("", "", "", "北京"))
    );
    assert_eq!(geo_fields(None, None), own(("", "", "", "")));
    assert_eq!(
        asn_fields(Some(AsnRecord {
            number: Some(0),
            organization: None
        })),
        ("0".to_string(), String::new())
    );
    assert_eq!(
        asn_fields(Some(AsnRecord {
            number: None,
            organization: Some("Org".to_string())
        })),
        (String::new(), "Org".to_string())
    );
    assert_eq!(asn_fields(None), (String::new(), String::new()));
}

#[test]
fn clean_names_hold_letters_numbers_and_white_space() {
    assert_eq!(
        clean_org_name("Cloudflare, Inc. (AS13335)"),
        "Cloudflare Inc AS13335"
    );
    assert_eq!(clean_org_name("中国-电信\t½ é"), "中国电信\t½ é");
    assert_eq!(clean_org_name(",;-_"), "");
    assert_eq!(clean_org_name(""), "");
    let once = clean_org_name("a.b c!");
    assert_eq!(clean_org_name(&once), once);
}

#[test]
fn clean_names_keep_the_letters_and_digits_of_ascii() {
    for n in 0u8..=127 {
        let c = char::from(n);
        let kept = matches!(c, '0'..='9' | 'A'..='Z' | 'a'..='z' | '\t'..='\r' | ' ');
        assert_eq!(clean_org_name(&c.to_string()).len(), usize::from(kept), "{:?}", c);
    }
}

#[test]
fn other_bytes_are_refused_with_their_reason() {
    let bytes = b"not a database".to_vec();
    let reason = maxminddb::Reader::from_source(bytes.clone()).map(|_| ()).unwrap_err();
    match GeoDatabase::open(bytes) {
        Err(GeoError::NotADatabase(e)) => assert_eq!(e.to_string(), reason.to_string()),
        Ok(_) => panic!("the bytes are no database"),
    }
}
