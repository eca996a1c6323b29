//! From the lines of a proxy list to the output.

use crate::address::{self, IpAddress, Network};
use crate::blocklist::{self, AbuseList};
use crate::laws::lists;
use crate::laws::texts;
use crate::proxy::{
    self, GeoSources, LineError, Outcome, ProxyData, ProxyFacts, ProxyTarget, Rejection, ScanState,
    ScanView, BATCH_SIZE,
};
use crate::response;
use crate::text;
use vstd::prelude::*;

verus! {

/// A first line, and the lines that follow.
proof fn lemma_output_first(entries: Seq<Seq<char>>)
    requires
        entries.len() > 0,
    ensures
        proxy::output_of(entries) == entries[0] + seq!['\n'] + proxy::output_of(
            entries.drop_first(),
        ),
    decreases entries.len(),
{
    if entries.len() == 1 {
        assert(proxy::output_of(entries.drop_last()) == Seq::<char>::empty());
        assert(proxy::output_of(entries.drop_first()) == Seq::<char>::empty());
        assert(proxy::output_of(entries) == entries[0] + seq!['\n'] + Seq::<char>::empty());
    } else {
        lemma_output_first(entries.drop_last());
        assert(entries.drop_last().drop_first() == entries.drop_first().drop_last());
        assert(proxy::output_of(entries) == entries[0] + seq!['\n'] + proxy::output_of(
            entries.drop_first(),
        ));
    }
}

/// The output file reads back as the lines that were written to it, as long as none of them
/// holds the end of a line.
pub proof fn law_output_read_back(entries: Seq<Seq<char>>)
    requires
        forall|i: int|
            #![trigger entries[i]]
            0 <= i < entries.len() ==> !entries[i].contains('\n') && (entries[i].len() > 0
                ==> entries[i].last() != '\r'),
    ensures
        text::lines_of(proxy::output_of(entries)) == entries,
    decreases entries.len(),
{
    if entries.len() > 0 {
        let first = entries[0];
        let rest = proxy::output_of(entries.drop_first());
        let s = proxy::output_of(entries);
        lemma_output_first(entries);
        law_output_read_back(entries.drop_first());
        assert forall|i: int| 0 <= i < first.len() implies s[i] != '\n' by {
            assert(first.contains(first[i]));
        }
        text::lemma_first_position_is(s, '\n', first.len() as int);
        assert(s.take(first.len() as int) == first);
        assert(s.skip(first.len() as int + 1) == rest);
        assert(entries == seq![first] + entries.drop_first());
    }
}

/// Each line of a list that is not blank is kept, and no other; reading the kept lines again
/// keeps them all.
pub proof fn law_blank_lines_dropped(lines: Seq<Seq<char>>)
    ensures
        ({
            let kept = |line: Seq<char>| proxy::not_blank(line);
            let r = lines.filter(kept);
            &&& forall|line: Seq<char>| #[trigger]
                r.contains(line) <==> lines.contains(line) && proxy::not_blank(line)
            &&& r.filter(kept) == r
        }),
{
    let kept = |line: Seq<char>| proxy::not_blank(line);
    let r = lines.filter(kept);
    assert forall|i: int| 0 <= i < r.len() implies kept(#[trigger] r[i]) by {
        lines.lemma_filter_pred(kept, i);
    }
    texts::lemma_filter_all(r, kept);
    assert forall|line: Seq<char>| #[trigger]
        r.contains(line) <==> lines.contains(line) && proxy::not_blank(line) by {
        if r.contains(line) {
            lines.lemma_filter_contains_rev(kept, line);
            let i = choose|i: int| 0 <= i < r.len() && r[i] == line;
            assert(kept(r[i]));
        }
        if lines.contains(line) && proxy::not_blank(line) {
            let i = choose|i: int| 0 <= i < lines.len() && lines[i] == line;
            lines.lemma_filter_contains(kept, i);
        }
    }
}

/// A line that names a proxy is not blank: no proxy is lost with the blank lines of a list.
pub proof fn law_proxy_line_is_not_blank(line: Seq<char>, target: ProxyTarget)
    requires
        proxy::reads_line(line, Ok(target)),
    ensures
        proxy::not_blank(line),
{
    let i = text::first_position(line, ',') as int;
    text::lemma_first_position(line, ',');
    assert(text::split_on(line, ',').len() >= 4);
    assert(line[i] == ',');
    texts::law_trimmed_keeps_the_middle(line);
    let (a, b) = choose|a: int, b: int| texts::trims_to(line, a, b);
    assert(a <= i < b);
}

/// The line of a proxy in the output is a line of a proxy list, and names that proxy.
pub proof fn law_output_line_names_proxy(
    line: Seq<char>,
    target: ProxyTarget,
    proxy: ProxyFacts,
    again: Result<ProxyTarget, LineError>,
)
    requires
        proxy::reads_line(line, Ok(target)),
        proxy.ip == target.ip@,
        proxy.port == target.port,
        proxy::reads_line(proxy::csv_text(proxy), again),
    ensures
        again is Ok,
        again->Ok_0.ip@ == target.ip@,
        again->Ok_0.port == target.port,
{
    let port = text::decimal_text(proxy.port as nat);
    texts::law_split_loses_nothing(line, ',');
    texts::law_decimal_denotes(proxy.port as nat);
    texts::law_port_read_back(proxy.port);
    assert(!port.contains(',')) by {
        assert(forall|i: int| 0 <= i < port.len() ==> text::is_digit(#[trigger] port[i]));
    }
    let after_three = proxy.country_name + seq![','] + proxy.city_code + seq![',']
        + proxy.city_name + seq![','] + proxy.asn_number + seq![','] + proxy.org_name;
    let after_two = proxy.country_code + seq![','] + after_three;
    let after_one = port + seq![','] + after_two;
    assert(proxy::csv_text(proxy) == proxy.ip + seq![','] + after_one);
    texts::lemma_split_first(proxy.ip, ',', after_one);
    texts::lemma_split_first(port, ',', after_two);
    texts::lemma_split_count(proxy.country_code, ',', after_three);
    texts::lemma_split_count(
        proxy.country_name,
        ',',
        proxy.city_code + seq![','] + proxy.city_name + seq![','] + proxy.asn_number + seq![',']
            + proxy.org_name,
    );
    assert(after_three == proxy.country_name + seq![','] + (proxy.city_code + seq![',']
        + proxy.city_name + seq![','] + proxy.asn_number + seq![','] + proxy.org_name));
}

/// A scan that took in these live proxies.
pub open spec fn scan_of(proxies: Seq<ProxyFacts>) -> ScanView
    decreases proxies.len(),
{
    if proxies.len() == 0 {
        proxy::nothing_recorded()
    } else {
        proxy::recorded(scan_of(proxies.drop_last()), proxies.last())
    }
}

/// The batches that were complete while a scan took in these live proxies.
pub open spec fn batches_of(proxies: Seq<ProxyFacts>) -> Seq<Seq<ProxyFacts>>
    decreases proxies.len(),
{
    if proxies.len() == 0 {
        Seq::empty()
    } else {
        let before = batches_of(proxies.drop_last());
        match proxy::completed(scan_of(proxies.drop_last()), proxies.last()) {
            Some(batch) => before.push(batch),
            None => before,
        }
    }
}

/// Every live proxy has one line in the output, in order. The batches and what is left at the
/// end hold every live proxy once, in order; each batch is full, and what is left is not.
pub proof fn law_every_live_proxy_written_once(proxies: Seq<ProxyFacts>)
    ensures
        scan_of(proxies).active == proxies.map_values(|proxy: ProxyFacts| proxy::csv_text(proxy)),
        scan_of(proxies).batch.len() < BATCH_SIZE,
        forall|i: int|
            0 <= i < batches_of(proxies).len() ==> (#[trigger] batches_of(proxies)[i]).len()
                == BATCH_SIZE,
        batches_of(proxies).flatten() + scan_of(proxies).batch == proxies,
    decreases proxies.len(),
{
    let csv = |proxy: ProxyFacts| proxy::csv_text(proxy);
    let batches = batches_of(proxies);
    if proxies.len() == 0 {
        assert(scan_of(proxies).active == proxies.map_values(csv));
        assert(batches.flatten() + scan_of(proxies).batch == proxies);
    } else {
        let earlier = proxies.drop_last();
        let proxy = proxies.last();
        let state = scan_of(earlier);
        law_every_live_proxy_written_once(earlier);
        assert(proxies == earlier.push(proxy));
        assert(scan_of(proxies).active == proxies.map_values(csv));
        let batch = state.batch.push(proxy);
        if batch.len() >= BATCH_SIZE {
            assert(batches == batches_of(earlier).push(batch));
            batches_of(earlier).lemma_flatten_push(batch);
        }
        assert(batches.flatten() + scan_of(proxies).batch == proxies);
    }
}

/// A scan after several probes.
pub open spec fn after_probes(probes: Seq<Option<ProxyFacts>>) -> ScanView
    decreases probes.len(),
{
    if probes.len() == 0 {
        proxy::nothing_recorded()
    } else {
        proxy::after_probe(after_probes(probes.drop_last()), probes.last())
    }
}

/// The proxies that several probes kept, in order.
pub open spec fn kept_of(probes: Seq<Option<ProxyFacts>>) -> Seq<ProxyFacts>
    decreases probes.len(),
{
    if probes.len() == 0 {
        Seq::empty()
    } else {
        match probes.last() {
            Some(proxy) => kept_of(probes.drop_last()).push(proxy),
            None => kept_of(probes.drop_last()),
        }
    }
}

/// A scan holds the proxies that its probes kept; the others leave it as it was.
pub proof fn law_dropped_proxies_leave_no_trace(probes: Seq<Option<ProxyFacts>>)
    ensures
        after_probes(probes) == scan_of(kept_of(probes)),
    decreases probes.len(),
{
    if probes.len() > 0 {
        law_dropped_proxies_leave_no_trace(probes.drop_last());
        if let Some(proxy) = probes.last() {
            let kept = kept_of(probes.drop_last());
            assert(kept.push(proxy).drop_last() == kept);
        }
    }
}

/// The output file of a scan reads back as one line for each proxy that its probes kept, in
/// order, as long as no line holds the end of a line.
pub proof fn law_output_holds_the_kept_proxies(probes: Seq<Option<ProxyFacts>>)
    requires
        forall|i: int|
            #![trigger kept_of(probes)[i]]
            0 <= i < kept_of(probes).len() ==> {
                let line = proxy::csv_text(kept_of(probes)[i]);
                !line.contains('\n') && line.last() != '\r'
            },
    ensures
        text::lines_of(proxy::output_of(after_probes(probes).active)) == kept_of(probes).map_values(
            |proxy: ProxyFacts| proxy::csv_text(proxy),
        ),
{
    let kept = kept_of(probes);
    let lines = after_probes(probes).active;
    law_dropped_proxies_leave_no_trace(probes);
    law_every_live_proxy_written_once(kept);
    assert forall|i: int|
        #![trigger lines[i]]
        0 <= i < lines.len() implies !lines[i].contains('\n') && (lines[i].len() > 0
        ==> lines[i].last() != '\r') by {
        assert(lines[i] == proxy::csv_text(kept[i]));
    }
    law_output_read_back(lines);
}

/// A proxy is kept if and only if a reply came through it that reports an address other than
/// the one seen without a proxy, and its own address is one, is not on the abuse list, and is
/// in no network of the CIDR list.
pub proof fn law_kept_proxies(
    reply: Option<Map<Seq<char>, Option<Seq<char>>>>,
    original: Seq<char>,
    ip: Seq<char>,
    port: u16,
    sources: GeoSources,
    abuse: Set<IpAddress>,
    networks: Seq<Network>,
)
    ensures
        proxy::kept_proxy(reply, original, ip, port, sources, abuse, networks) is Some <==> {
            &&& reply is Some
            &&& response::reported_address(reply->0) is Some
            &&& response::reported_address(reply->0)->0 != original
            &&& address::ip_address(ip) is Some
            &&& !abuse.contains(address::ip_address(ip)->0)
            &&& forall|i: int|
                0 <= i < networks.len() ==> !(#[trigger] networks[i]).covers(
                    address::ip_address(ip)->0,
                )
        },
{
}

/// Longer lists never keep a proxy that shorter ones drop, and the order of the networks makes
/// no difference.
pub proof fn law_longer_lists_keep_less(
    reply: Option<Map<Seq<char>, Option<Seq<char>>>>,
    original: Seq<char>,
    ip: Seq<char>,
    port: u16,
    sources: GeoSources,
    abuse: Set<IpAddress>,
    networks: Seq<Network>,
    more_abuse: Set<IpAddress>,
    more_networks: Seq<Network>,
)
    requires
        abuse.subset_of(more_abuse),
        forall|i: int| 0 <= i < networks.len() ==> more_networks.contains(#[trigger] networks[i]),
        proxy::kept_proxy(reply, original, ip, port, sources, more_abuse, more_networks) is Some,
    ensures
        proxy::kept_proxy(reply, original, ip, port, sources, abuse, networks)
            == proxy::kept_proxy(reply, original, ip, port, sources, more_abuse, more_networks),
{
    let address = address::ip_address(ip)->0;
    if blocklist::in_some_network(address, networks) {
        let i = choose|i: int| 0 <= i < networks.len() && (#[trigger] networks[i]).covers(address);
        assert(more_networks.contains(networks[i]));
        let k = choose|k: int| 0 <= k < more_networks.len() && more_networks[k] == networks[i];
        assert(more_networks[k].covers(address));
    }
}

/// Empty lists drop no proxy.
pub proof fn law_empty_lists_drop_nothing(
    reported: Seq<char>,
    original: Seq<char>,
    ip: IpAddress,
)
    requires
        reported != original,
    ensures
        proxy::rejection(Some(reported), original, Some(ip), Set::empty(), Seq::empty()) is None,
{
}

/// A proxy whose address a line of the abuse list names, however it is spelled, is not kept.
pub proof fn law_listed_proxy_is_dropped(
    reply: Option<Map<Seq<char>, Option<Seq<char>>>>,
    original: Seq<char>,
    ip: Seq<char>,
    port: u16,
    sources: GeoSources,
    lines: Seq<Seq<char>>,
    at: int,
    networks: Seq<Network>,
)
    requires
        0 <= at < lines.len(),
        blocklist::listed_address(lines[at]) == address::ip_address(ip),
    ensures
        proxy::kept_proxy(
            reply,
            original,
            ip,
            port,
            sources,
            blocklist::present(blocklist::listed_addresses(lines)),
            networks,
        ) is None,
{
    let found = blocklist::listed_addresses(lines);
    assert(found[at] == address::ip_address(ip));
    if let Some(address) = address::ip_address(ip) {
        assert(blocklist::present(found).contains(address));
    }
}

proof fn lemma_denoted_holds(found: Seq<Option<Network>>, at: int)
    requires
        0 <= at < found.len(),
        found[at] is Some,
    ensures
        blocklist::denoted(found).contains(found[at]->0),
    decreases found.len(),
{
    let earlier = blocklist::denoted(found.drop_last());
    let all = blocklist::denoted(found);
    if at < found.len() - 1 {
        lemma_denoted_holds(found.drop_last(), at);
        let k = choose|k: int| 0 <= k < earlier.len() && earlier[k] == found[at]->0;
        assert(all[k] == found[at]->0);
    } else {
        assert(all[earlier.len() as int] == found[at]->0);
    }
}

/// A proxy whose address lies in the network that a line of the CIDR list denotes is not kept.
pub proof fn law_proxy_in_listed_network_is_dropped(
    reply: Option<Map<Seq<char>, Option<Seq<char>>>>,
    original: Seq<char>,
    ip: Seq<char>,
    port: u16,
    sources: GeoSources,
    abuse: Set<IpAddress>,
    lines: Seq<Seq<char>>,
    at: int,
)
    requires
        0 <= at < lines.len(),
        blocklist::listed_network(lines[at]) is Some,
        address::ip_address(ip) is Some,
        (blocklist::listed_network(lines[at])->0).covers(address::ip_address(ip)->0),
    ensures
        proxy::kept_proxy(
            reply,
            original,
            ip,
            port,
            sources,
            abuse,
            blocklist::denoted(blocklist::listed_networks(lines)),
        ) is None,
{
    let found = blocklist::listed_networks(lines);
    let networks = blocklist::denoted(found);
    lemma_denoted_holds(found, at);
    let k = choose|k: int| 0 <= k < networks.len() && networks[k] == found[at]->0;
    assert(networks[k].covers(address::ip_address(ip)->0));
}

/// A line is read by its fields, which hold no comma and have commas between them. With fewer than
/// four it is refused; with a second field that is no port it is refused with that field; else it
/// names the proxy whose address is the first field, all of it, and whose port is the second.
pub proof fn law_parse_proxy_line(
    line: &str,
    r: Result<ProxyTarget, LineError>,
    fields: Seq<Seq<char>>,
    port_field: &str,
    port: Option<u16>,
)
    requires
        call_ensures(proxy::parse_proxy_line, (line,), r),
        fields.len() >= 1,
        forall|i: int| 0 <= i < fields.len() ==> !(#[trigger] fields[i]).contains(','),
        line@ == texts::joined(fields, ','),
        fields.len() >= 4 ==> port_field@ == fields[1],
        call_ensures(text::parse_u16, (port_field,), port),
    ensures
        fields.len() < 4 ==> r is Err && r->Err_0 is TooFewFields,
        fields.len() >= 4 && port is None ==> r is Err && (r->Err_0 matches LineError::InvalidPort(
            field,
        ) && field@ == fields[1]),
        fields.len() >= 4 && port is Some ==> r is Ok && r->Ok_0.ip@ == fields[0] && r->Ok_0.port
            == port->0,
{
    texts::law_joined_pieces_split(fields, ',');
}

/// A line made of an address without commas, the decimal digits of a port, and two or more further
/// fields names exactly that address, whatever characters it holds, and that port.
pub proof fn law_proxy_line_names_its_proxy(
    line: &str,
    r: Result<ProxyTarget, LineError>,
    ip: Seq<char>,
    digits: Seq<char>,
    country: Seq<char>,
    rest: Seq<char>,
)
    requires
        call_ensures(proxy::parse_proxy_line, (line,), r),
        !ip.contains(','),
        texts::is_number(digits),
        texts::place_value(digits) <= 65535,
        line@ == ip + seq![','] + (digits + seq![','] + (country + seq![','] + rest)),
    ensures
        r is Ok,
        r->Ok_0.ip@ == ip,
        r->Ok_0.port == texts::place_value(digits),
{
    let last = country + seq![','] + rest;
    assert(!digits.contains(',')) by {
        assert(forall|i: int| 0 <= i < digits.len() ==> '0' <= #[trigger] digits[i] <= '9');
    }
    texts::lemma_split_first(ip, ',', digits + seq![','] + last);
    texts::lemma_split_first(digits, ',', last);
    texts::lemma_split_count(country, ',', rest);
    assert('0' <= digits[0] <= '9');
    assert(text::unsigned_part(digits) == digits);
    assert(text::all_digits(digits)) by {
        assert forall|i: int| 0 <= i < digits.len() implies text::is_digit(#[trigger] digits[i]) by {
            assert('0' <= digits[i] <= '9');
        }
    }
    texts::lemma_place_value(digits);
}

/// A line is blank if and only if it holds nothing but white space.
pub proof fn law_blank_line(line: Seq<char>)
    ensures
        proxy::not_blank(line) <==> exists|i: int|
            0 <= i < line.len() && !text::white_space(#[trigger] line[i]),
{
    texts::law_trimmed_keeps_the_middle(line);
    texts::law_trimmed_ends(line);
    let (a, b) = choose|a: int, b: int| texts::trims_to(line, a, b);
    if a < b {
        assert(text::trimmed(line)[0] == line[a]);
        assert(!text::white_space(line[a]));
    }
}

/// Reading a list keeps each line that holds more than white space as it is, and no other: of one
/// more line, that line after the others or nothing.
pub proof fn law_proxy_lines(
    lines: &Vec<String>,
    r: Vec<String>,
    next: String,
    longer: &Vec<String>,
    of_longer: Vec<String>,
)
    requires
        call_ensures(proxy::proxy_lines, (lines,), r),
        call_ensures(proxy::proxy_lines, (longer,), of_longer),
        longer@ == lines@.push(next),
    ensures
        lines@.len() == 0 ==> r@.len() == 0,
        texts::contents(of_longer@) == if exists|i: int|
            0 <= i < next@.len() && !text::white_space(#[trigger] next@[i]) {
            texts::contents(r@).push(next@)
        } else {
            texts::contents(r@)
        },
{
    let kept = |line: Seq<char>| proxy::not_blank(line);
    let all = text::texts(longer@);
    reveal(Seq::filter);
    law_blank_line(next@);
    assert(all.drop_last() == text::texts(lines@));
    assert(all.last() == next@);
    assert(texts::contents(r@) == text::texts(r@));
    assert(texts::contents(of_longer@) == text::texts(of_longer@));
    if lines@.len() == 0 {
        assert(text::texts(r@).len() == 0);
    }
}

/// Whether a proxy whose reply reports `reported` is to be kept.
pub open spec fn deserves_keeping(
    reported: Option<Seq<char>>,
    original: Seq<char>,
    ip: Option<IpAddress>,
    abuse: Set<IpAddress>,
    networks: Seq<Network>,
) -> bool {
    &&& reported is Some
    &&& reported->0 != original
    &&& ip is Some
    &&& !abuse.contains(ip->0)
    &&& forall|i: int|
        0 <= i < networks.len() ==> !lists::has_prefix(#[trigger] networks[i], ip->0)
}

proof fn lemma_deserves_keeping(
    reported: Option<Seq<char>>,
    original: Seq<char>,
    ip: Option<IpAddress>,
    abuse: Set<IpAddress>,
    networks: Seq<Network>,
)
    ensures
        proxy::rejection(reported, original, ip, abuse, networks) is None <==> deserves_keeping(
            reported,
            original,
            ip,
            abuse,
            networks,
        ),
        ip is Some ==> (blocklist::in_some_network(ip->0, networks) <==> exists|i: int|
            0 <= i < networks.len() && lists::has_prefix(#[trigger] networks[i], ip->0)),
{
    if let Some(address) = ip {
        assert forall|i: int| 0 <= i < networks.len() implies (#[trigger] networks[i]).covers(
            address,
        ) == lists::has_prefix(networks[i], address) by {
            lists::law_network_holds_its_prefix(networks[i], address);
        }
    }
}

/// A proxy is kept if and only if its reply reports an address, which is not the one seen without
/// a proxy, and its own address is one, is not on the abuse list and has the prefix of no listed
/// network. Else it is dropped for the first of these that fails.
pub proof fn law_screen(
    reported: &Option<String>,
    original: &str,
    ip: Option<IpAddress>,
    abuse: &AbuseList,
    networks: &[Network],
    r: Option<Rejection>,
)
    requires
        call_ensures(proxy::screen, (reported, original, ip, abuse, networks), r),
    ensures
        r == Some(Rejection::NoReportedAddress) <==> *reported is None,
        r == Some(Rejection::SameAddress) <==> *reported is Some && (*reported)->0@ == original@,
        *reported is Some && (*reported)->0@ != original@ ==> {
            let listed = exists|i: int|
                0 <= i < networks@.len() && lists::has_prefix(#[trigger] networks@[i], ip->0);
            &&& r == Some(Rejection::InvalidAddress) <==> ip is None
            &&& ip is Some ==> (r == Some(Rejection::AbusiveAddress) <==> abuse@.contains(ip->0))
            &&& ip is Some && !abuse@.contains(ip->0) ==> (r == Some(Rejection::BlockedNetwork)
                <==> listed)
            &&& ip is Some && !abuse@.contains(ip->0) ==> (r is None <==> !listed)
        },
{
    let text = match *reported {
        Some(s) => Some(s@),
        None => None,
    };
    lemma_deserves_keeping(text, original@, ip, abuse@, networks@);
}

/// A reply is judged by the address that it reports, the proxy's own address and the two lists,
/// and a proxy that is kept is described as it is without a judgement.
pub proof fn law_judge_proxy(
    target: &ProxyTarget,
    reply: &serde_json::Value,
    original: &str,
    sources: &GeoSources,
    abuse: &AbuseList,
    networks: &[Network],
    r: Result<ProxyData, Rejection>,
    reported: Option<String>,
    screened: Option<Rejection>,
    description: ProxyData,
)
    requires
        call_ensures(
            proxy::judge_proxy,
            (target, reply, original, sources, abuse, networks),
            r,
        ),
        call_ensures(response::reported_ip, (reply,), reported),
        call_ensures(
            proxy::screen,
            (&reported, original, address::ip_address(target.ip@), abuse, networks),
            screened,
        ),
        call_ensures(proxy::describe_proxy, (target, sources), description),
    ensures
        r is Err <==> screened is Some,
        r is Err ==> screened == Some(r->Err_0),
        r is Ok ==> {
            let proxy = r->Ok_0;
            &&& proxy.ip@ == description.ip@ && proxy.port == description.port
            &&& proxy.country_code@ == description.country_code@
            &&& proxy.country_name@ == description.country_name@
            &&& proxy.city_code@ == description.city_code@
            &&& proxy.city_name@ == description.city_name@
            &&& proxy.asn_number@ == description.asn_number@
            &&& proxy.org_name@ == description.org_name@
        },
{
    assert(r is Ok ==> r->Ok_0@ == description@);
}

/// The eight fields of a proxy.
pub open spec fn fields_of(proxy: ProxyData) -> Seq<Seq<char>> {
    seq![
        proxy.ip@,
        text::decimal_text(proxy.port as nat),
        proxy.country_code@,
        proxy.country_name@,
        proxy.city_code@,
        proxy.city_name@,
        proxy.asn_number@,
        proxy.org_name@,
    ]
}

proof fn lemma_joined_eight(fields: Seq<Seq<char>>)
    requires
        fields.len() == 8,
    ensures
        texts::joined(fields, ',') == fields[0] + seq![','] + fields[1] + seq![','] + fields[2]
            + seq![','] + fields[3] + seq![','] + fields[4] + seq![','] + fields[5] + seq![',']
            + fields[6] + seq![','] + fields[7],
{
    reveal_with_fuel(texts::joined, 9);
    assert(texts::joined(fields, ',') =~= fields[0] + seq![','] + fields[1] + seq![',']
        + fields[2] + seq![','] + fields[3] + seq![','] + fields[4] + seq![','] + fields[5]
        + seq![','] + fields[6] + seq![','] + fields[7]);
}

/// The line of a proxy is its eight fields, in order, with commas between them. Where no field
/// holds a comma, splitting the line gives them back.
pub proof fn law_csv_entry(proxy: &ProxyData, r: String)
    requires
        call_ensures(proxy::csv_entry, (proxy,), r),
    ensures
        r@ == texts::joined(fields_of(*proxy), ','),
        (forall|i: int| 0 <= i < 8 ==> !(#[trigger] fields_of(*proxy)[i]).contains(','))
            ==> text::split_on(r@, ',') == fields_of(*proxy),
{
    lemma_joined_eight(fields_of(*proxy));
    if forall|i: int| 0 <= i < 8 ==> !(#[trigger] fields_of(*proxy)[i]).contains(',') {
        texts::law_joined_pieces_split(fields_of(*proxy), ',');
    }
}

/// The output is each line followed by a line feed, in order.
pub proof fn law_output_text(entries: &Vec<String>, r: String)
    requires
        call_ensures(proxy::output_text, (entries,), r),
    ensures
        r@ == entries@.map_values(|entry: String| entry@.push('\n')).flatten(),
{
    let lines = text::texts(entries@);
    lemma_lines_flat(lines);
    assert(lines.map_values(|line: Seq<char>| line.push('\n')) == entries@.map_values(
        |entry: String| entry@.push('\n'),
    ));
}

/// Whether what is known of a proxy is what stands in its fields.
pub open spec fn holds_fields(facts: ProxyFacts, proxy: ProxyData) -> bool {
    &&& facts.ip == proxy.ip@ && facts.port == proxy.port
    &&& facts.country_code == proxy.country_code@ && facts.country_name == proxy.country_name@
    &&& facts.city_code == proxy.city_code@ && facts.city_name == proxy.city_name@
    &&& facts.asn_number == proxy.asn_number@ && facts.org_name == proxy.org_name@
}

/// Whether what is known of several proxies is what stands in their fields, one for one.
pub open spec fn hold_fields(facts: Seq<ProxyFacts>, proxies: Seq<ProxyData>) -> bool {
    facts.len() == proxies.len() && forall|i: int|
        0 <= i < facts.len() ==> holds_fields(#[trigger] facts[i], proxies[i])
}

/// A new scan holds no line and no proxy.
pub proof fn law_new_scan(r: ScanState)
    requires
        call_ensures(ScanState::new, (), r),
    ensures
        r.wf(),
        r@.active.len() == 0,
        r@.batch.len() == 0,
{
}

/// A live proxy adds its line after the others. It adds itself to the batch; with the fiftieth the
/// whole batch, in order, is handed out and a new one begins, and before that none is.
pub proof fn law_record(state: &mut ScanState, proxy: ProxyData, r: Option<Vec<ProxyData>>)
    requires
        old(state).wf(),
        call_ensures(ScanState::record, (state, proxy), r),
    ensures
        final(state).wf(),
        final(state)@.active == old(state)@.active.push(texts::joined(fields_of(proxy), ',')),
        r is Some <==> old(state)@.batch.len() == 49,
        r is Some ==> {
            &&& final(state)@.batch.len() == 0
            &&& r->0@.len() == 50
            &&& hold_fields(old(state)@.batch.push(proxy@), r->0@)
        },
        r is None ==> final(state)@.batch == old(state)@.batch.push(proxy@),
        holds_fields(proxy@, proxy),
{
    lemma_joined_eight(fields_of(proxy));
    if r is Some {
        let all = old(state)@.batch.push(proxy@);
        assert(all == proxy::all_facts(r->0@));
        assert forall|i: int| 0 <= i < all.len() implies holds_fields(
            #[trigger] all[i],
            r->0@[i],
        ) by {
            assert(all[i] == r->0@[i]@);
        }
    }
}

/// A scan ends with the output of all its lines, if there are any, and with the proxies that no
/// batch was handed out with.
pub proof fn law_finish(state: ScanState, r: (Option<String>, Vec<ProxyData>))
    requires
        call_ensures(ScanState::finish, (state,), r),
    ensures
        r.0 is None <==> state@.active.len() == 0,
        r.0 is Some ==> r.0->0@ == state@.active.map_values(
            |line: Seq<char>| line.push('\n'),
        ).flatten(),
        hold_fields(state@.batch, r.1@),
        state.wf() ==> r.1@.len() < 50,
{
    lemma_lines_flat(state@.active);
    assert(state@.batch == proxy::all_facts(r.1@));
    assert forall|i: int| 0 <= i < r.1@.len() implies holds_fields(
        #[trigger] state@.batch[i],
        r.1@[i],
    ) by {
        assert(state@.batch[i] == r.1@[i]@);
    }
}

proof fn lemma_lines_flat(lines: Seq<Seq<char>>)
    ensures
        proxy::output_of(lines) == lines.map_values(
            |line: Seq<char>| line.push('\n'),
        ).flatten(),
    decreases lines.len(),
{
    let ended = |line: Seq<char>| line.push('\n');
    if lines.len() > 0 {
        let earlier = lines.drop_last();
        lemma_lines_flat(earlier);
        assert(lines.map_values(ended) == earlier.map_values(ended).push(ended(lines.last())));
        earlier.map_values(ended).lemma_flatten_push(ended(lines.last()));
        assert(proxy::output_of(lines) =~= proxy::output_of(earlier) + ended(lines.last()));
    } else {
        assert(lines.map_values(ended) == Seq::<Seq<char>>::empty());
    }
}

/// A probe without a reply, or whose reply is judged against the proxy, leaves the scan as it is.
/// Any other adds the line of the proxy as it is described, and hands out a batch exactly where the
/// batch becomes fifty proxies long.
pub proof fn law_process_proxy(
    state: &mut ScanState,
    target: &ProxyTarget,
    reply: Option<&serde_json::Value>,
    original: &str,
    sources: &GeoSources,
    abuse: &AbuseList,
    networks: &[Network],
    r: Outcome,
    judged: Result<ProxyData, Rejection>,
)
    requires
        old(state).wf(),
        call_ensures(
            ScanState::process_proxy,
            (state, target, reply, original, sources, abuse, networks),
            r,
        ),
        reply is Some ==> call_ensures(
            proxy::judge_proxy,
            (target, reply->0, original, sources, abuse, networks),
            judged,
        ),
    ensures
        final(state).wf(),
        r is Live <==> reply is Some && judged is Ok,
        r is Dropped ==> final(state)@ == old(state)@,
        r matches Outcome::Live { entry, batch } ==> {
            let proxy = judged->Ok_0;
            &&& entry@ == texts::joined(fields_of(proxy), ',')
            &&& final(state)@.active == old(state)@.active.push(entry@)
            &&& batch is Some <==> old(state)@.batch.len() == 49
            &&& batch is Some ==> final(state)@.batch.len() == 0 && hold_fields(
                old(state)@.batch.push(proxy@),
                batch->0@,
            )
            &&& batch is None ==> final(state)@.batch == old(state)@.batch.push(proxy@)
            &&& holds_fields(proxy@, proxy)
        },
{
    if let Outcome::Live { entry, batch } = r {
        let proxy = judged->Ok_0;
        lemma_joined_eight(fields_of(proxy));
        if batch is Some {
            let all = old(state)@.batch.push(proxy@);
            assert(all == proxy::all_facts(batch->0@));
            assert forall|i: int| 0 <= i < all.len() implies holds_fields(
                #[trigger] all[i],
                batch->0@[i],
            ) by {
                assert(all[i] == batch->0@[i]@);
            }
        }
    }
}

} // verus!
