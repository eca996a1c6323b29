//! What is known of an address.

use crate::address;
use crate::geo::{self, AsnRecord, CityRecord, CountryRecord, GeoDatabase, GeoError, Names};
use crate::laws::texts;
use crate::proxy::{self, GeoSources, ProxyData, ProxyTarget};
use crate::text;
use vstd::prelude::*;

verus! {

/// A cleaned name holds nothing that cleaning would take out, and cleaning it again changes
/// nothing.
pub proof fn law_clean_name_stays(name: Seq<char>)
    ensures
        ({
            let kept = |c: char| geo::kept_in_name(c);
            let clean = name.filter(kept);
            &&& forall|i: int| 0 <= i < clean.len() ==> geo::kept_in_name(#[trigger] clean[i])
            &&& clean.filter(kept) == clean
        }),
{
    let kept = |c: char| geo::kept_in_name(c);
    let clean = name.filter(kept);
    assert forall|i: int| 0 <= i < clean.len() implies geo::kept_in_name(#[trigger] clean[i]) by {
        name.lemma_filter_pred(kept, i);
    }
    texts::lemma_filter_all(clean, kept);
}

/// Each database decides its own fields: the others may change, or be missing, without a change
/// there.
pub proof fn law_databases_decide_apart(
    ip: Seq<char>,
    port: u16,
    sources: GeoSources,
    others: GeoSources,
)
    ensures
        ({
            let a = proxy::described(ip, port, sources);
            let b = proxy::described(ip, port, others);
            &&& a.ip == b.ip && a.port == b.port
            &&& sources.country@ == others.country@ ==> a.country_code == b.country_code
                && a.country_name == b.country_name
            &&& proxy::optional_bytes(sources.city) == proxy::optional_bytes(others.city)
                ==> a.city_code == b.city_code && a.city_name == b.city_name
            &&& proxy::optional_bytes(sources.asn) == proxy::optional_bytes(others.asn)
                ==> a.asn_number == b.asn_number && a.org_name == b.org_name
        }),
{
}

/// Whether a text is that of an optional one, and empty where there is none.
pub open spec fn is_or_empty(text: Seq<char>, optional: Option<Seq<char>>) -> bool {
    match optional {
        Some(s) => text == s,
        None => text.len() == 0,
    }
}

/// Whether a text is the name in simplified Chinese, else that in English, else empty.
pub open spec fn is_name(
    text: Seq<char>,
    simplified_chinese: Option<Seq<char>>,
    english: Option<Seq<char>>,
) -> bool {
    if simplified_chinese is Some {
        text == simplified_chinese->0
    } else {
        is_or_empty(text, english)
    }
}

/// Whether a text holds the number in decimal digits, and is empty where there is none.
pub open spec fn is_number_or_empty(text: Seq<char>, number: Option<u32>) -> bool {
    match number {
        Some(n) => {
            &&& texts::is_number(text)
            &&& texts::place_value(text) == n
            &&& text.len() > 1 ==> text[0] != '0'
        },
        None => text.len() == 0,
    }
}

/// The name in simplified Chinese that a record holds.
pub open spec fn chinese_name(names: Names) -> Option<Seq<char>> {
    match names.simplified_chinese {
        Some(name) => Some(name@),
        None => None,
    }
}

/// The name in English that a record holds.
pub open spec fn english_name(names: Names) -> Option<Seq<char>> {
    match names.english {
        Some(name) => Some(name@),
        None => None,
    }
}

/// The code and the name of the country come from the country record alone, and both texts of the
/// city from the city record alone; its code is its name in English. What a record does not hold
/// is empty.
pub proof fn law_geo_fields(
    country: Option<CountryRecord>,
    city: Option<CityRecord>,
    r: (String, String, String, String),
)
    requires
        call_ensures(geo::geo_fields, (country, city), r),
    ensures
        match country {
            Some(record) => {
                &&& match record.iso_code {
                    Some(code) => r.0@ == code@,
                    None => r.0@.len() == 0,
                }
                &&& is_name(r.1@, chinese_name(record.names), english_name(record.names))
            },
            None => r.0@.len() == 0 && r.1@.len() == 0,
        },
        match city {
            Some(record) => {
                &&& is_or_empty(r.2@, english_name(record.names))
                &&& is_name(r.3@, chinese_name(record.names), english_name(record.names))
            },
            None => r.2@.len() == 0 && r.3@.len() == 0,
        },
{
}

/// The number of an ASN record is written in decimal digits, whatever its size, and the
/// organisation as it stands. What a record does not hold is empty.
pub proof fn law_asn_fields(asn: Option<AsnRecord>, r: (String, String))
    requires
        call_ensures(geo::asn_fields, (asn,), r),
    ensures
        match asn {
            Some(record) => {
                &&& is_number_or_empty(r.0@, record.number)
                &&& match record.organization {
                    Some(organization) => r.1@ == organization@,
                    None => r.1@.len() == 0,
                }
            },
            None => r.0@.len() == 0 && r.1@.len() == 0,
        },
{
    if asn is Some && asn->0.number is Some {
        texts::law_decimal_text(asn->0.number->0 as nat);
    }
}

/// The location of an address: what the two databases have for it, and nothing for a text that
/// is no address, for an address without a record, or without a city database.
pub proof fn law_get_geo_info(
    country: &GeoDatabase,
    city: Option<&GeoDatabase>,
    ip: &str,
    r: (String, String, String, String),
)
    requires
        call_ensures(geo::get_geo_info, (country, city, ip), r),
    ensures
        match address::ip_address(ip@) {
            Some(address) => {
                &&& match geo::country_of(country@, address) {
                    Some((code, names)) => is_or_empty(r.0@, code) && is_name(
                        r.1@,
                        names.0,
                        names.1,
                    ),
                    None => r.0@.len() == 0 && r.1@.len() == 0,
                }
                &&& match city {
                    Some(database) => match geo::city_of(database@, address) {
                        Some(names) => is_or_empty(r.2@, names.1) && is_name(
                            r.3@,
                            names.0,
                            names.1,
                        ),
                        None => r.2@.len() == 0 && r.3@.len() == 0,
                    },
                    None => r.2@.len() == 0 && r.3@.len() == 0,
                }
            },
            None => r.0@.len() == 0 && r.1@.len() == 0 && r.2@.len() == 0 && r.3@.len() == 0,
        },
{
}

/// The autonomous system of an address: what the database has for it, and nothing for a text that
/// is no address or for an address without a record.
pub proof fn law_get_asn_info(database: &GeoDatabase, ip: &str, r: (String, String))
    requires
        call_ensures(geo::get_asn_info, (database, ip), r),
    ensures
        match address::ip_address(ip@) {
            Some(address) => match geo::asn_of(database@, address) {
                Some((number, organization)) => is_number_or_empty(r.0@, number) && is_or_empty(
                    r.1@,
                    organization,
                ),
                None => r.0@.len() == 0 && r.1@.len() == 0,
            },
            None => r.0@.len() == 0 && r.1@.len() == 0,
        },
{
    if let Some(address) = address::ip_address(ip@) {
        if let Some((number, _)) = geo::asn_of(database@, address) {
            if number is Some {
                texts::law_decimal_text(number->0 as nat);
            }
        }
    }
}

/// A database that opens keeps its bytes, and one that does not is refused with the reason.
pub proof fn law_open(bytes: Vec<u8>, r: Result<GeoDatabase, GeoError>)
    requires
        call_ensures(GeoDatabase::open, (bytes,), r),
    ensures
        match geo::opening(bytes@) {
            Ok(_) => r is Ok && r->Ok_0@ == bytes@,
            Err(reason) => r is Err && r->Err_0->NotADatabase_0 == reason,
        },
{
}

/// A proxy is described by its own address and port, and by what is found for that address: its
/// fields are those that the location and the ASN of the address come to, each in its place.
pub proof fn law_describe_proxy(
    target: &ProxyTarget,
    sources: &GeoSources,
    r: ProxyData,
    ip: &str,
    city: Option<&GeoDatabase>,
    location: (String, String, String, String),
    system: (String, String),
)
    requires
        call_ensures(proxy::describe_proxy, (target, sources), r),
        ip@ == target.ip@,
        city is Some <==> sources.city is Some,
        city is Some ==> *city->0 == sources.city->0,
        call_ensures(geo::get_geo_info, (&sources.country, city, ip), location),
        sources.asn is Some ==> call_ensures(geo::get_asn_info, (&sources.asn->0, ip), system),
    ensures
        r.ip@ == target.ip@,
        r.port == target.port,
        r.country_code@ == location.0@,
        r.country_name@ == location.1@,
        r.city_code@ == location.2@,
        r.city_name@ == location.3@,
        sources.asn is Some ==> r.asn_number@ == system.0@ && r.org_name@ == system.1@,
        sources.asn is None ==> r.asn_number@.len() == 0 && r.org_name@.len() == 0,
{
    assert(r@.ip == r.ip@ && r@.org_name == r.org_name@);
}

/// Cleaning a name goes character by character: of one that is a letter, a number or white space
/// it stays, of another nothing does, and of two parts what stays of the first comes first.
pub proof fn law_clean_org_name(
    name: &str,
    r: String,
    first: &str,
    of_first: String,
    second: &str,
    of_second: String,
)
    requires
        call_ensures(geo::clean_org_name, (name,), r),
        call_ensures(geo::clean_org_name, (first,), of_first),
        call_ensures(geo::clean_org_name, (second,), of_second),
    ensures
        name@.len() == 0 ==> r@.len() == 0,
        name@.len() == 1 && (geo::alphanumeric(name@[0]) || text::white_space(name@[0])) ==> r@
            == name@,
        name@.len() == 1 && !(geo::alphanumeric(name@[0]) || text::white_space(name@[0]))
            ==> r@.len() == 0,
        name@ == first@ + second@ ==> r@ == of_first@ + of_second@,
{
    let kept = |c: char| geo::kept_in_name(c);
    if name@.len() <= 1 {
        reveal(Seq::filter);
        if name@.len() == 1 {
            assert(name@.drop_last().filter(kept) == Seq::<char>::empty());
            assert(name@ == Seq::<char>::empty().push(name@[0]));
        }
    }
    if name@ == first@ + second@ {
        Seq::filter_distributes_over_add(first@, second@, kept);
    }
}

} // verus!
