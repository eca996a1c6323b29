//! Where an address is, and whose network it belongs to.

use crate::address::{self, IpAddress};
use crate::text;
use vstd::prelude::*;

verus! {

/// The names of a place that are asked for.
pub struct Names {
    pub simplified_chinese: Option<String>,
    pub english: Option<String>,
}

/// What a country database says of an address.
pub struct CountryRecord {
    pub iso_code: Option<String>,
    pub names: Names,
}

/// What a city database says of an address.
pub struct CityRecord {
    pub names: Names,
}

/// What an ASN database says of an address.
pub struct AsnRecord {
    pub number: Option<u32>,
    pub organization: Option<String>,
}

/// The contents of an optional string.
pub open spec fn optional_text(s: Option<String>) -> Option<Seq<char>> {
    match s {
        Some(s) => Some(s@),
        None => None,
    }
}

impl View for Names {
    type V = (Option<Seq<char>>, Option<Seq<char>>);

    /// The name in simplified Chinese, and that in English.
    open spec fn view(&self) -> (Option<Seq<char>>, Option<Seq<char>>) {
        (optional_text(self.simplified_chinese), optional_text(self.english))
    }
}

impl View for CountryRecord {
    type V = (Option<Seq<char>>, (Option<Seq<char>>, Option<Seq<char>>));

    /// The ISO code, and the names.
    open spec fn view(&self) -> (Option<Seq<char>>, (Option<Seq<char>>, Option<Seq<char>>)) {
        (optional_text(self.iso_code), self.names@)
    }
}

impl View for AsnRecord {
    type V = (Option<u32>, Option<Seq<char>>);

    /// The number, and the organisation.
    open spec fn view(&self) -> (Option<u32>, Option<Seq<char>>) {
        (self.number, optional_text(self.organization))
    }
}

/// What an unreadable database is refused with.
#[verifier::external_type_specification]
#[verifier::external_body]
pub struct ExMaxMindDbError(maxminddb::MaxMindDbError);

/// What opening bytes as a MaxMind database comes to: the reason where they are none.
pub uninterp spec fn opening(bytes: Seq<u8>) -> Result<(), maxminddb::MaxMindDbError>;

/// The ISO code and the names of the country that the database with these bytes has for an
/// address; `None` where it has no readable record.
pub uninterp spec fn country_of(database: Seq<u8>, ip: IpAddress) -> Option<
    (Option<Seq<char>>, (Option<Seq<char>>, Option<Seq<char>>)),
>;

/// The names of the city that the database with these bytes has for an address; `None` where
/// it has no readable record.
pub uninterp spec fn city_of(database: Seq<u8>, ip: IpAddress) -> Option<
    (Option<Seq<char>>, Option<Seq<char>>),
>;

/// The number and the organisation of the autonomous system that the database with these
/// bytes has for an address; `None` where it has no readable record.
pub uninterp spec fn asn_of(database: Seq<u8>, ip: IpAddress) -> Option<
    (Option<u32>, Option<Seq<char>>),
>;

/// `maxminddb::Reader::from_source`: whether it opens the bytes, and with which reason it refuses
/// them, is a function of them alone.
#[verifier::external_body]
fn check_database(bytes: &[u8]) -> (r: Result<(), maxminddb::MaxMindDbError>)
    ensures
        r == opening(bytes@),
{
    maxminddb::Reader::from_source(bytes).map(|_| ())
}

/// `maxminddb::Reader::lookup` and `LookupResult::decode` of a country record: the record is a
/// function of the database's bytes and of the address alone.
#[verifier::external_body]
fn lookup_country(database: &[u8], ip: IpAddress) -> (r: Option<CountryRecord>)
    ensures
        match r {
            Some(record) => country_of(database@, ip) == Some(record@),
            None => country_of(database@, ip) is None,
        },
{
    let reader = maxminddb::Reader::from_source(database).ok()?;
    let found = match ip {
        IpAddress::V4(a) => reader.lookup(a.to_be_bytes().into()),
        IpAddress::V6(a) => reader.lookup(a.to_be_bytes().into()),
    };
    let country = found.ok()?.decode::<maxminddb::geoip2::Country>().ok()??.country;
    let names = Names {
        simplified_chinese: country.names.simplified_chinese.map(String::from),
        english: country.names.english.map(String::from),
    };
    Some(CountryRecord { iso_code: country.iso_code.map(String::from), names })
}

/// `maxminddb::Reader::lookup` and `LookupResult::decode` of a city record: the record is a
/// function of the database's bytes and of the address alone.
#[verifier::external_body]
fn lookup_city(database: &[u8], ip: IpAddress) -> (r: Option<CityRecord>)
    ensures
        match r {
            Some(record) => city_of(database@, ip) == Some(record.names@),
            None => city_of(database@, ip) is None,
        },
{
    let reader = maxminddb::Reader::from_source(database).ok()?;
    let found = match ip {
        IpAddress::V4(a) => reader.lookup(a.to_be_bytes().into()),
        IpAddress::V6(a) => reader.lookup(a.to_be_bytes().into()),
    };
    let city = found.ok()?.decode::<maxminddb::geoip2::City>().ok()??.city;
    let names = Names {
        simplified_chinese: city.names.simplified_chinese.map(String::from),
        english: city.names.english.map(String::from),
    };
    Some(CityRecord { names })
}

/// `maxminddb::Reader::lookup` and `LookupResult::decode` of an ASN record: the record is a
/// function of the database's bytes and of the address alone.
#[verifier::external_body]
fn lookup_asn(database: &[u8], ip: IpAddress) -> (r: Option<AsnRecord>)
    ensures
        match r {
            Some(record) => asn_of(database@, ip) == Some(record@),
            None => asn_of(database@, ip) is None,
        },
{
    let reader = maxminddb::Reader::from_source(database).ok()?;
    let found = match ip {
        IpAddress::V4(a) => reader.lookup(a.to_be_bytes().into()),
        IpAddress::V6(a) => reader.lookup(a.to_be_bytes().into()),
    };
    let asn = found.ok()?.decode::<maxminddb::geoip2::Asn>().ok()??;
    Some(AsnRecord {
        number: asn.autonomous_system_number,
        organization: asn.autonomous_system_organization.map(String::from),
    })
}

/// Why bytes cannot be used.
#[derive(Debug)]
pub enum GeoError {
    /// They are no database, for the reason that this holds.
    NotADatabase(maxminddb::MaxMindDbError),
}

/// A MaxMind database in memory.
pub struct GeoDatabase {
    bytes: Vec<u8>,
}

impl View for GeoDatabase {
    type V = Seq<u8>;

    /// The bytes of the database.
    closed spec fn view(&self) -> Seq<u8> {
        self.bytes@
    }
}

impl GeoDatabase {
    /// Takes the bytes of a database file.
    pub fn open(bytes: Vec<u8>) -> (r: Result<GeoDatabase, GeoError>)
        ensures
            match opening(bytes@) {
                Ok(_) => r is Ok && r->Ok_0@ == bytes@,
                Err(e) => r == Err::<GeoDatabase, GeoError>(GeoError::NotADatabase(e)),
            },
    {
        match check_database(bytes.as_slice()) {
            Ok(_) => Ok(GeoDatabase { bytes }),
            Err(e) => Err(GeoError::NotADatabase(e)),
        }
    }
}

/// The text of an optional string, empty where there is none.
pub open spec fn or_empty(s: Option<Seq<char>>) -> Seq<char> {
    match s {
        Some(s) => s,
        None => Seq::empty(),
    }
}

/// The name in simplified Chinese, else that in English, else nothing.
pub open spec fn preferred_name(names: (Option<Seq<char>>, Option<Seq<char>>)) -> Seq<char> {
    match names.0 {
        Some(name) => name,
        None => or_empty(names.1),
    }
}

/// Country code, country name, city code and city name of a country and a city record. No
/// city has a code, so its name in English stands for it.
pub open spec fn geo_texts(
    country: Option<(Option<Seq<char>>, (Option<Seq<char>>, Option<Seq<char>>))>,
    city: Option<(Option<Seq<char>>, Option<Seq<char>>)>,
) -> (Seq<char>, Seq<char>, Seq<char>, Seq<char>) {
    let (country_code, country_name) = match country {
        Some((code, names)) => (or_empty(code), preferred_name(names)),
        None => (Seq::empty(), Seq::empty()),
    };
    let (city_code, city_name) = match city {
        Some(names) => (or_empty(names.1), preferred_name(names)),
        None => (Seq::empty(), Seq::empty()),
    };
    (country_code, country_name, city_code, city_name)
}

/// Number and organisation of an ASN record.
pub open spec fn asn_texts(asn: Option<(Option<u32>, Option<Seq<char>>)>) -> (
    Seq<char>,
    Seq<char>,
) {
    match asn {
        Some((number, organization)) => (
            match number {
                Some(n) => text::decimal_text(n as nat),
                None => Seq::empty(),
            },
            or_empty(organization),
        ),
        None => (Seq::empty(), Seq::empty()),
    }
}

fn text_or_empty(s: &Option<String>) -> (r: String)
    ensures
        r@ == or_empty(optional_text(*s)),
{
    match s {
        Some(s) => s.clone(),
        None => String::new(),
    }
}

fn name_of(names: &Names) -> (r: String)
    ensures
        r@ == preferred_name(names@),
{
    match &names.simplified_chinese {
        Some(name) => name.clone(),
        None => text_or_empty(&names.english),
    }
}

/// The location texts of the records that were found for an address.
pub fn geo_fields(country: Option<CountryRecord>, city: Option<CityRecord>) -> (r: (
    String,
    String,
    String,
    String,
))
    ensures
        (r.0@, r.1@, r.2@, r.3@) == geo_texts(
            match country {
                Some(record) => Some(record@),
                None => None,
            },
            match city {
                Some(record) => Some(record.names@),
                None => None,
            },
        ),
{
    let (country_code, country_name) = match country {
        Some(record) => (text_or_empty(&record.iso_code), name_of(&record.names)),
        None => (String::new(), String::new()),
    };
    let (city_code, city_name) = match city {
        Some(record) => (text_or_empty(&record.names.english), name_of(&record.names)),
        None => (String::new(), String::new()),
    };
    (country_code, country_name, city_code, city_name)
}

/// The texts of the ASN record that was found for an address.
pub fn asn_fields(asn: Option<AsnRecord>) -> (r: (String, String))
    ensures
        (r.0@, r.1@) == asn_texts(
            match asn {
                Some(record) => Some(record@),
                None => None,
            },
        ),
{
    match asn {
        Some(record) => {
            let number = match record.number {
                Some(n) => text::decimal(n),
                None => String::new(),
            };
            (number, text_or_empty(&record.organization))
        },
        None => (String::new(), String::new()),
    }
}

/// The location texts for the address that a text denotes; empty where it denotes none.
pub open spec fn geo_info(
    country_database: Seq<u8>,
    city_database: Option<Seq<u8>>,
    ip: Option<IpAddress>,
) -> (Seq<char>, Seq<char>, Seq<char>, Seq<char>) {
    match ip {
        Some(ip) => geo_texts(
            country_of(country_database, ip),
            match city_database {
                Some(database) => city_of(database, ip),
                None => None,
            },
        ),
        None => geo_texts(None, None),
    }
}

/// Country code, country name, city code and city name for an address. The city is left empty
/// without a city database.
pub fn get_geo_info(
    country_database: &GeoDatabase,
    city_database: Option<&GeoDatabase>,
    ip_str: &str,
) -> (r: (String, String, String, String))
    ensures
        (r.0@, r.1@, r.2@, r.3@) == geo_info(
            country_database@,
            match city_database {
                Some(database) => Some(database@),
                None => None,
            },
            address::ip_address(ip_str@),
        ),
{
    match address::parse_ip(ip_str) {
        Some(ip) => {
            let country = lookup_country(country_database.bytes.as_slice(), ip);
            let city = match city_database {
                Some(database) => lookup_city(database.bytes.as_slice(), ip),
                None => None,
            };
            geo_fields(country, city)
        },
        None => geo_fields(None, None),
    }
}

/// The ASN texts for the address that a text denotes; empty where it denotes none.
pub open spec fn asn_info(database: Seq<u8>, ip: Option<IpAddress>) -> (Seq<char>, Seq<char>) {
    match ip {
        Some(ip) => asn_texts(asn_of(database, ip)),
        None => asn_texts(None),
    }
}

/// Number and organisation of the autonomous system of an address.
pub fn get_asn_info(asn_database: &GeoDatabase, ip_str: &str) -> (r: (String, String))
    ensures
        (r.0@, r.1@) == asn_info(asn_database@, address::ip_address(ip_str@)),
{
    match address::parse_ip(ip_str) {
        Some(ip) => asn_fields(lookup_asn(asn_database.bytes.as_slice(), ip)),
        None => asn_fields(None),
    }
}

/// Whether a character is a letter or a number in Unicode's sense.
pub uninterp spec fn alphanumeric(c: char) -> bool;

/// The digits and the letters of ASCII.
pub open spec fn ascii_alphanumeric(c: char) -> bool {
    '0' <= c <= '9' || 'A' <= c <= 'Z' || 'a' <= c <= 'z'
}

/// `char::is_alphanumeric`: a function of the character alone; in ASCII, the digits and the
/// letters.
pub assume_specification[ char::is_alphanumeric ](c: char) -> (r: bool)
    ensures
        r == alphanumeric(c),
        c <= '\u{7f}' ==> r == ascii_alphanumeric(c),
;

/// The characters that stay in the name of an organisation.
pub open spec fn kept_in_name(c: char) -> bool {
    alphanumeric(c) || text::white_space(c)
}

/// The name of an organisation without what is neither letter, number nor white space.
pub fn clean_org_name(org_name: &str) -> (r: String)
    ensures
        r@ == org_name@.filter(|c: char| kept_in_name(c)),
        forall|i: int|
            0 <= i < org_name@.len() && #[trigger] org_name@[i] <= '\u{7f}' ==> alphanumeric(
                org_name@[i],
            ) == ascii_alphanumeric(org_name@[i]),
{
    let chars = text::chars_of(org_name);
    let mut out = String::new();
    let ghost kept = |c: char| kept_in_name(c);
    let mut i: usize = 0;
    assert(chars@.take(0).filter(kept) == Seq::<char>::empty()) by {
        reveal(Seq::filter);
    }
    while i < chars.len()
        invariant
            i <= chars@.len(),
            kept == (|c: char| kept_in_name(c)),
            out@ == chars@.take(i as int).filter(kept),
            forall|k: int|
                0 <= k < i && #[trigger] chars@[k] <= '\u{7f}' ==> alphanumeric(chars@[k])
                    == ascii_alphanumeric(chars@[k]),
        decreases chars@.len() - i,
    {
        let c = chars[i];
        proof {
            reveal(Seq::filter);
            assert(chars@.take(i + 1).drop_last() == chars@.take(i as int));
        }
        if c.is_alphanumeric() || c.is_whitespace() {
            out.push(c);
        }
        i = i + 1;
    }
    assert(chars@.take(i as int) == chars@);
    out
}

} // verus!
