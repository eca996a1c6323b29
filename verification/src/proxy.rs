//! The proxies of a list: their lines, which of them are kept, and what is kept of them.

use crate::address::{self, IpAddress, Network};
use crate::blocklist::{self, AbuseList};
use crate::geo::{self, GeoDatabase};
use crate::response;
use crate::text;
use vstd::prelude::*;

verus! {

/// What is known of a live proxy.
#[derive(Debug, Clone)]
pub struct ProxyData {
    pub ip: String,
    pub port: u16,
    pub country_code: String,
    pub country_name: String,
    pub city_code: String,
    pub city_name: String,
    pub asn_number: String,
    pub org_name: String,
}

/// What is known of a live proxy, with its texts as sequences.
pub struct ProxyFacts {
    pub ip: Seq<char>,
    pub port: u16,
    pub country_code: Seq<char>,
    pub country_name: Seq<char>,
    pub city_code: Seq<char>,
    pub city_name: Seq<char>,
    pub asn_number: Seq<char>,
    pub org_name: Seq<char>,
}

impl View for ProxyData {
    type V = ProxyFacts;

    open spec fn view(&self) -> ProxyFacts {
        ProxyFacts {
            ip: self.ip@,
            port: self.port,
            country_code: self.country_code@,
            country_name: self.country_name@,
            city_code: self.city_code@,
            city_name: self.city_name@,
            asn_number: self.asn_number@,
            org_name: self.org_name@,
        }
    }
}

/// Whether a line holds more than white space.
pub open spec fn not_blank(line: Seq<char>) -> bool {
    text::trimmed(line).len() > 0
}

/// The lines of a proxy list that are not blank, in order.
pub fn proxy_lines(lines: &Vec<String>) -> (r: Vec<String>)
    ensures
        text::texts(r@) == text::texts(lines@).filter(|line: Seq<char>| not_blank(line)),
{
    let ghost all = text::texts(lines@);
    let ghost kept = |line: Seq<char>| not_blank(line);
    let mut out: Vec<String> = Vec::new();
    let mut i: usize = 0;
    assert(all.take(0).filter(kept) == Seq::<Seq<char>>::empty()) by {
        reveal(Seq::filter);
    }
    assert(text::texts(out@) == Seq::<Seq<char>>::empty());
    while i < lines.len()
        invariant
            i <= lines@.len(),
            all == text::texts(lines@),
            kept == (|line: Seq<char>| not_blank(line)),
            text::texts(out@) == all.take(i as int).filter(kept),
        decreases lines@.len() - i,
    {
        let ghost before = text::texts(out@);
        proof {
            reveal(Seq::filter);
            assert(all.take(i + 1).drop_last() == all.take(i as int));
            assert(all.take(i + 1).last() == lines@[i as int]@);
        }
        if !text::trim(lines[i].as_str()).as_str().is_empty() {
            out.push(lines[i].clone());
            assert(text::texts(out@) == before.push(lines@[i as int]@));
        }
        i = i + 1;
    }
    assert(all.take(i as int) == all);
    out
}

/// A proxy to be probed.
#[derive(Debug)]
pub struct ProxyTarget {
    pub ip: String,
    pub port: u16,
}

/// Why a line names no proxy.
#[derive(Debug)]
pub enum LineError {
    /// It has fewer than four fields.
    TooFewFields,
    /// Its second field, which this holds, is no port.
    InvalidPort(String),
}

/// Whether a reading of a line is right. A line is at least four fields between commas:
/// address, port, country and organisation. Only the first two are used.
pub open spec fn reads_line(line: Seq<char>, result: Result<ProxyTarget, LineError>) -> bool {
    let fields = text::split_on(line, ',');
    if fields.len() < 4 {
        result matches Err(LineError::TooFewFields)
    } else {
        match text::u16_value(fields[1]) {
            Some(port) => result matches Ok(target) && target.ip@ == fields[0] && target.port
                == port,
            None => result matches Err(LineError::InvalidPort(field)) && field@ == fields[1],
        }
    }
}

/// Reads a line of a proxy list.
pub fn parse_proxy_line(line: &str) -> (r: Result<ProxyTarget, LineError>)
    ensures
        reads_line(line@, r),
{
    let fields = text::split_text(line, ',');
    if fields.len() < 4 {
        return Err(LineError::TooFewFields);
    }
    assert(text::texts(fields@)[0] == fields@[0]@);
    assert(text::texts(fields@)[1] == fields@[1]@);
    match text::parse_u16(fields[1].as_str()) {
        Some(port) => Ok(ProxyTarget { ip: fields[0].clone(), port }),
        None => Err(LineError::InvalidPort(fields[1].clone())),
    }
}

/// Why a proxy that replied is not kept.
#[derive(Debug, Clone, Copy, PartialEq, Eq, Structural)]
pub enum Rejection {
    /// The reply reports no address.
    NoReportedAddress,
    /// The reply reports the address that is seen without a proxy.
    SameAddress,
    /// The line's address is none.
    InvalidAddress,
    /// The address is on the abuse list.
    AbusiveAddress,
    /// The address is in a network of the CIDR list.
    BlockedNetwork,
}

/// Why a proxy is not kept: the first reason that holds. `reported` is the address that its
/// reply reports, `original` the one that is seen without a proxy, and `ip` the proxy's own.
pub open spec fn rejection(
    reported: Option<Seq<char>>,
    original: Seq<char>,
    ip: Option<IpAddress>,
    abuse: Set<IpAddress>,
    networks: Seq<Network>,
) -> Option<Rejection> {
    if reported is None {
        Some(Rejection::NoReportedAddress)
    } else if reported == Some(original) {
        Some(Rejection::SameAddress)
    } else if ip is None {
        Some(Rejection::InvalidAddress)
    } else if abuse.contains(ip->0) {
        Some(Rejection::AbusiveAddress)
    } else if blocklist::in_some_network(ip->0, networks) {
        Some(Rejection::BlockedNetwork)
    } else {
        None
    }
}

/// Decides whether a proxy is kept; returns why not.
pub fn screen(
    reported: &Option<String>,
    original: &str,
    ip: Option<IpAddress>,
    abuse_ips: &AbuseList,
    firehol_cidrs: &[Network],
) -> (r: Option<Rejection>)
    ensures
        r == rejection(
            geo::optional_text(*reported),
            original@,
            ip,
            abuse_ips@,
            firehol_cidrs@,
        ),
{
    match reported {
        Some(reported) => {
            if text::same_text(reported.as_str(), original) {
                return Some(Rejection::SameAddress);
            }
        },
        None => {
            return Some(Rejection::NoReportedAddress);
        },
    }
    match ip {
        Some(ip) => {
            if abuse_ips.contains(ip) {
                Some(Rejection::AbusiveAddress)
            } else if blocklist::is_ip_in_cidr_list(ip, firehol_cidrs) {
                Some(Rejection::BlockedNetwork)
            } else {
                None
            }
        },
        None => Some(Rejection::InvalidAddress),
    }
}

/// The databases that describe an address; only that of countries must be there.
pub struct GeoSources {
    pub country: GeoDatabase,
    pub city: Option<GeoDatabase>,
    pub asn: Option<GeoDatabase>,
}

/// The bytes of an optional database.
pub open spec fn optional_bytes(database: Option<GeoDatabase>) -> Option<Seq<u8>> {
    match database {
        Some(database) => Some(database@),
        None => None,
    }
}

/// What is known of a proxy from the location and ASN texts of its address.
pub open spec fn facts(
    ip: Seq<char>,
    port: u16,
    geo: (Seq<char>, Seq<char>, Seq<char>, Seq<char>),
    asn: (Seq<char>, Seq<char>),
) -> ProxyFacts {
    ProxyFacts {
        ip,
        port,
        country_code: geo.0,
        country_name: geo.1,
        city_code: geo.2,
        city_name: geo.3,
        asn_number: asn.0,
        org_name: asn.1,
    }
}

/// What the databases say of a proxy; the ASN texts are empty without an ASN database.
pub open spec fn described(ip: Seq<char>, port: u16, sources: GeoSources) -> ProxyFacts {
    let address = address::ip_address(ip);
    facts(
        ip,
        port,
        geo::geo_info(sources.country@, optional_bytes(sources.city), address),
        match optional_bytes(sources.asn) {
            Some(database) => geo::asn_info(database, address),
            None => (Seq::empty(), Seq::empty()),
        },
    )
}

/// Looks a proxy up in the databases.
pub fn describe_proxy(target: &ProxyTarget, sources: &GeoSources) -> (r: ProxyData)
    ensures
        r@ == described(target.ip@, target.port, *sources),
{
    let city = match &sources.city {
        Some(database) => Some(database),
        None => None,
    };
    let (country_code, country_name, city_code, city_name) = geo::get_geo_info(
        &sources.country,
        city,
        target.ip.as_str(),
    );
    let (asn_number, org_name) = match &sources.asn {
        Some(database) => geo::get_asn_info(database, target.ip.as_str()),
        None => (String::new(), String::new()),
    };
    ProxyData {
        ip: target.ip.clone(),
        port: target.port,
        country_code,
        country_name,
        city_code,
        city_name,
        asn_number,
        org_name,
    }
}

/// Judges a proxy by its reply: what is known of it where it is kept, else why it is not.
pub fn judge_proxy(
    target: &ProxyTarget,
    reply: &serde_json::Value,
    original_ip: &str,
    sources: &GeoSources,
    abuse_ips: &AbuseList,
    firehol_cidrs: &[Network],
) -> (r: Result<ProxyData, Rejection>)
    ensures
        match rejection(
            response::reported_address(response::members(*reply)),
            original_ip@,
            address::ip_address(target.ip@),
            abuse_ips@,
            firehol_cidrs@,
        ) {
            Some(reason) => r == Err::<ProxyData, Rejection>(reason),
            None => r is Ok && r->Ok_0@ == described(target.ip@, target.port, *sources),
        },
{
    let reported = response::reported_ip(reply);
    let ip = address::parse_ip(target.ip.as_str());
    match screen(&reported, original_ip, ip, abuse_ips, firehol_cidrs) {
        Some(reason) => Err(reason),
        None => Ok(describe_proxy(target, sources)),
    }
}

/// The line of a proxy in the output: its fields between commas.
pub open spec fn csv_text(proxy: ProxyFacts) -> Seq<char> {
    proxy.ip + seq![','] + text::decimal_text(proxy.port as nat) + seq![','] + proxy.country_code
        + seq![','] + proxy.country_name + seq![','] + proxy.city_code + seq![','] + proxy.city_name
        + seq![','] + proxy.asn_number + seq![','] + proxy.org_name
}

/// Writes the line of a proxy in the output.
pub fn csv_entry(proxy: &ProxyData) -> (r: String)
    ensures
        r@ == csv_text(proxy@),
{
    let port = text::decimal(proxy.port as u32);
    let mut out = String::new();
    out.append(proxy.ip.as_str());
    out.push(',');
    out.append(port.as_str());
    out.push(',');
    out.append(proxy.country_code.as_str());
    out.push(',');
    out.append(proxy.country_name.as_str());
    out.push(',');
    out.append(proxy.city_code.as_str());
    out.push(',');
    out.append(proxy.city_name.as_str());
    out.push(',');
    out.append(proxy.asn_number.as_str());
    out.push(',');
    out.append(proxy.org_name.as_str());
    out
}

/// How many proxies are written to the database at once.
pub const BATCH_SIZE: usize = 50;

/// How many proxies are probed at once.
pub const MAX_CONCURRENT: usize = 175;

/// What is known of each of several proxies.
pub open spec fn all_facts(proxies: Seq<ProxyData>) -> Seq<ProxyFacts> {
    Seq::new(proxies.len(), |i: int| proxies[i]@)
}

/// The live proxies of a scan so far.
pub struct ScanState {
    active: Vec<String>,
    batch: Vec<ProxyData>,
    counter: usize,
}

/// The live proxies of a scan so far: the lines of all of them, and those that are not
/// written to the database yet.
pub struct ScanView {
    pub active: Seq<Seq<char>>,
    pub batch: Seq<ProxyFacts>,
}

impl View for ScanState {
    type V = ScanView;

    closed spec fn view(&self) -> ScanView {
        ScanView { active: text::texts(self.active@), batch: all_facts(self.batch@) }
    }
}

/// A scan without live proxies.
pub open spec fn nothing_recorded() -> ScanView {
    ScanView { active: Seq::empty(), batch: Seq::empty() }
}

/// A scan after one more live proxy.
pub open spec fn recorded(state: ScanView, proxy: ProxyFacts) -> ScanView {
    let batch = state.batch.push(proxy);
    ScanView {
        active: state.active.push(csv_text(proxy)),
        batch: if batch.len() >= BATCH_SIZE {
            Seq::empty()
        } else {
            batch
        },
    }
}

/// The batch that one more live proxy makes complete.
pub open spec fn completed(state: ScanView, proxy: ProxyFacts) -> Option<Seq<ProxyFacts>> {
    let batch = state.batch.push(proxy);
    if batch.len() >= BATCH_SIZE {
        Some(batch)
    } else {
        None
    }
}

/// What is known of the proxies of a batch that is to be written, where there is one.
pub open spec fn batch_facts(batch: Option<Vec<ProxyData>>) -> Option<Seq<ProxyFacts>> {
    match batch {
        Some(proxies) => Some(all_facts(proxies@)),
        None => None,
    }
}

/// What a reply says, where there was one.
pub open spec fn replied(reply: Option<&serde_json::Value>) -> Option<
    Map<Seq<char>, Option<Seq<char>>>,
> {
    match reply {
        Some(value) => Some(response::members(*value)),
        None => None,
    }
}

/// What is known of a proxy that is kept, after the reply that came through it.
pub open spec fn kept_proxy(
    reply: Option<Map<Seq<char>, Option<Seq<char>>>>,
    original: Seq<char>,
    ip: Seq<char>,
    port: u16,
    sources: GeoSources,
    abuse: Set<IpAddress>,
    networks: Seq<Network>,
) -> Option<ProxyFacts> {
    if reply is Some && rejection(
        response::reported_address(reply->0),
        original,
        address::ip_address(ip),
        abuse,
        networks,
    ) is None {
        Some(described(ip, port, sources))
    } else {
        None
    }
}

/// A scan after one more probe: it changes only where the proxy is kept.
pub open spec fn after_probe(state: ScanView, kept: Option<ProxyFacts>) -> ScanView {
    match kept {
        Some(proxy) => recorded(state, proxy),
        None => state,
    }
}

/// What came of probing a proxy.
pub enum Outcome {
    /// It is not kept.
    Dropped,
    /// It is live: its line in the output, and the batch that it made complete.
    Live { entry: String, batch: Option<Vec<ProxyData>> },
}

impl ScanState {
    /// The counter counts the batch.
    pub closed spec fn counted(self) -> bool {
        self.counter == self.batch@.len()
    }

    /// The counter counts the batch, which is not complete.
    pub open spec fn wf(self) -> bool {
        &&& self.counted()
        &&& self@.batch.len() < BATCH_SIZE
    }

    /// A scan without live proxies.
    pub fn new() -> (r: ScanState)
        ensures
            r.wf(),
            r@ == nothing_recorded(),
    {
        let r = ScanState { active: Vec::new(), batch: Vec::new(), counter: 0 };
        assert(r@.active == Seq::<Seq<char>>::empty());
        assert(r@.batch == Seq::<ProxyFacts>::empty());
        r
    }

    /// Takes in a live proxy. Returns the batch that is to be written, where it is complete.
    pub fn record(&mut self, proxy: ProxyData) -> (r: Option<Vec<ProxyData>>)
        requires
            old(self).wf(),
        ensures
            final(self).wf(),
            final(self)@ == recorded(old(self)@, proxy@),
            batch_facts(r) == completed(old(self)@, proxy@),
    {
        let entry = csv_entry(&proxy);
        self.active.push(entry);
        assert(text::texts(self.active@) == old(self)@.active.push(csv_text(proxy@)));
        self.batch.push(proxy);
        assert(all_facts(self.batch@) == old(self)@.batch.push(proxy@));
        self.counter = self.counter + 1;
        if self.counter >= BATCH_SIZE {
            let mut full: Vec<ProxyData> = Vec::new();
            std::mem::swap(&mut full, &mut self.batch);
            self.counter = 0;
            assert(all_facts(self.batch@) == Seq::<ProxyFacts>::empty());
            Some(full)
        } else {
            None
        }
    }

    /// Takes in what came of probing a proxy: its reply, or `None` where there was none. A
    /// proxy that is not kept leaves the scan as it is.
    pub fn process_proxy(
        &mut self,
        target: &ProxyTarget,
        reply: Option<&serde_json::Value>,
        original_ip: &str,
        sources: &GeoSources,
        abuse_ips: &AbuseList,
        firehol_cidrs: &[Network],
    ) -> (r: Outcome)
        requires
            old(self).wf(),
        ensures
            final(self).wf(),
            final(self)@ == after_probe(
                old(self)@,
                kept_proxy(
                    replied(reply),
                    original_ip@,
                    target.ip@,
                    target.port,
                    *sources,
                    abuse_ips@,
                    firehol_cidrs@,
                ),
            ),
            match kept_proxy(
                replied(reply),
                original_ip@,
                target.ip@,
                target.port,
                *sources,
                abuse_ips@,
                firehol_cidrs@,
            ) {
                Some(proxy) => r matches Outcome::Live { entry, batch } && entry@ == csv_text(proxy)
                    && batch_facts(batch) == completed(old(self)@, proxy),
                None => r is Dropped,
            },
    {
        match reply {
            Some(reply) => {
                match judge_proxy(target, reply, original_ip, sources, abuse_ips, firehol_cidrs) {
                    Ok(proxy) => {
                        let entry = csv_entry(&proxy);
                        let batch = self.record(proxy);
                        Outcome::Live { entry, batch }
                    },
                    Err(_) => Outcome::Dropped,
                }
            },
            None => Outcome::Dropped,
        }
    }

    /// Ends a scan: what the output file is to hold, unless no proxy is live, and the batch that
    /// is left to be written.
    pub fn finish(self) -> (r: (Option<String>, Vec<ProxyData>))
        ensures
            match r.0 {
                Some(output) => self@.active.len() > 0 && output@ == output_of(self@.active),
                None => self@.active.len() == 0,
            },
            all_facts(r.1@) == self@.batch,
            self.wf() ==> r.1@.len() < BATCH_SIZE,
    {
        assert(all_facts(self.batch@).len() == self.batch@.len());
        if self.active.len() == 0 {
            (None, self.batch)
        } else {
            (Some(output_text(&self.active)), self.batch)
        }
    }
}

/// The output file: each line, with its end.
pub open spec fn output_of(entries: Seq<Seq<char>>) -> Seq<char>
    decreases entries.len(),
{
    if entries.len() == 0 {
        Seq::empty()
    } else {
        output_of(entries.drop_last()) + entries.last() + seq!['\n']
    }
}

/// Writes the output file.
pub fn output_text(entries: &Vec<String>) -> (r: String)
    ensures
        r@ == output_of(text::texts(entries@)),
{
    let ghost all = text::texts(entries@);
    let mut out = String::new();
    let mut i: usize = 0;
    while i < entries.len()
        invariant
            i <= entries@.len(),
            all == text::texts(entries@),
            out@ == output_of(all.take(i as int)),
        decreases entries@.len() - i,
    {
        assert(all.take(i + 1).drop_last() == all.take(i as int));
        assert(all.take(i + 1).last() == entries@[i as int]@);
        out.append(entries[i].as_str());
        out.push('\n');
        i = i + 1;
    }
    assert(all.take(i as int) == all);
    out
}

} // verus!
