//! The request that a proxy is probed with, and what its reply says.

use crate::text;
use vstd::prelude::*;

verus! {

/// The host whose reply names the address that a request came from.
pub const IP_RESOLVER: &'static str = "www.cloudflare.com";

/// The path that is asked for there.
pub const PATH_RESOLVER: &'static str = "/cdn-cgi/trace";

/// How long one exchange may take.
pub const TIMEOUT_SECONDS: u64 = 9;

/// How a JSON value is held.
#[verifier::external_type_specification]
#[verifier::external_body]
pub struct ExValue(serde_json::Value);

/// How the members of a JSON object are held.
#[verifier::external_type_specification]
#[verifier::external_body]
#[verifier::reject_recursive_types(K)]
#[verifier::reject_recursive_types(V)]
pub struct ExMap<K, V>(serde_json::Map<K, V>);

/// The members of a JSON object by name: the text of one that is a string, `None` for one
/// that is not. A value that is no object has no members.
pub uninterp spec fn members(value: serde_json::Value) -> Map<Seq<char>, Option<Seq<char>>>;

/// No member.
pub open spec fn no_members() -> Map<Seq<char>, Option<Seq<char>>> {
    Map::empty()
}

/// The text of a JSON value that is a string.
pub uninterp spec fn string_value(value: serde_json::Value) -> Option<Seq<char>>;

/// The members in a map that a JSON object is made from, as in [`members`].
pub uninterp spec fn entries(map: serde_json::Map<String, serde_json::Value>) -> Map<
    Seq<char>,
    Option<Seq<char>>,
>;

/// The JSON value that a text denotes; `None` where it is no JSON.
pub uninterp spec fn json_value(text: Seq<char>) -> Option<serde_json::Value>;

/// The members of a JSON value, where there is one.
pub open spec fn optional_members(json: Option<serde_json::Value>) -> Option<
    Map<Seq<char>, Option<Seq<char>>>,
> {
    match json {
        Some(value) => Some(members(value)),
        None => None,
    }
}

/// The members of the JSON value that a text denotes; `None` where it is no JSON.
pub open spec fn json_members(text: Seq<char>) -> Option<Map<Seq<char>, Option<Seq<char>>>> {
    optional_members(json_value(text))
}

/// Bytes as text, with U+FFFD in place of what is not UTF-8.
pub uninterp spec fn lossy_text(bytes: Seq<u8>) -> Seq<char>;

/// `String::from_utf8_lossy`: the text is a function of the bytes alone, and that which they
/// encode where they are UTF-8.
#[verifier::external_body]
fn text_of_bytes(bytes: &[u8]) -> (r: String)
    ensures
        r@ == lossy_text(bytes@),
        vstd::utf8::valid_utf8(bytes@) ==> r@ == vstd::utf8::decode_utf8(bytes@),
{
    String::from_utf8_lossy(bytes).into_owned()
}

/// `serde_json::from_str`: whether the text is JSON, and which value it denotes, is a function
/// of the text alone.
#[verifier::external_body]
fn parse_json(text: &str) -> (r: Option<serde_json::Value>)
    ensures
        r == json_value(text@),
{
    serde_json::from_str(text).ok()
}

/// `serde_json::Value::get` with a name: that member of an object, where there is one.
#[verifier::external_body]
fn member<'a>(value: &'a serde_json::Value, name: &str) -> (r: Option<&'a serde_json::Value>)
    ensures
        r is Some <==> members(*value).contains_key(name@),
        r is Some ==> string_value(*r->0) == members(*value)[name@],
{
    value.get(name)
}

/// `serde_json::Value::as_str`: the text of a value that is a string.
#[verifier::external_body]
fn as_text<'a>(value: &'a serde_json::Value) -> (r: Option<&'a str>)
    ensures
        match r {
            Some(s) => string_value(*value) == Some(s@),
            None => string_value(*value) is None,
        },
{
    value.as_str()
}

/// `serde_json::Map::new`: no entry.
#[verifier::external_body]
fn no_entries() -> (r: serde_json::Map<String, serde_json::Value>)
    ensures
        entries(r) == no_members(),
{
    serde_json::Map::new()
}

/// `serde_json::Map::insert` of a string: it takes the place of an entry of that name.
#[verifier::external_body]
fn insert_text(map: &mut serde_json::Map<String, serde_json::Value>, name: String, text: String)
    ensures
        entries(*final(map)) == entries(*old(map)).insert(name@, Some(text@)),
{
    map.insert(name, serde_json::Value::String(text));
}

/// `serde_json::Map::is_empty`: whether there is no entry.
#[verifier::external_body]
fn has_no_entries(map: &serde_json::Map<String, serde_json::Value>) -> (r: bool)
    ensures
        r == (entries(*map) == no_members()),
{
    map.is_empty()
}

/// `serde_json::Value::Object`: the object whose members are the entries.
#[verifier::external_body]
fn object_of(map: serde_json::Map<String, serde_json::Value>) -> (r: serde_json::Value)
    ensures
        members(r) == entries(map),
{
    serde_json::Value::Object(map)
}

/// Why a reply says nothing.
#[derive(Debug, Clone, Copy, PartialEq, Eq, Structural)]
pub enum ResponseError {
    /// No blank line ends the headers.
    NoSeparator,
    /// The body is neither JSON nor a trace.
    InvalidFormat,
}

impl ResponseError {
    /// What to tell a user.
    pub fn message(&self) -> (r: &'static str)
        ensures
            r@ == match *self {
                ResponseError::NoSeparator => "Invalid HTTP response: No separator found"@,
                ResponseError::InvalidFormat => "Invalid response format"@,
            },
    {
        match *self {
            ResponseError::NoSeparator => "Invalid HTTP response: No separator found",
            ResponseError::InvalidFormat => "Invalid response format",
        }
    }
}

/// The end of a line and the blank line that ends the headers of a reply.
pub open spec fn blank_line() -> Seq<char> {
    seq!['\r', '\n', '\r', '\n']
}

/// What follows the first blank line of a reply.
pub open spec fn body_of(reply: Seq<char>) -> Option<Seq<char>>
    decreases reply.len(),
{
    if reply.len() < 4 {
        None
    } else if reply.take(4) == blank_line() {
        Some(reply.skip(4))
    } else {
        body_of(reply.drop_first())
    }
}

/// The text after the first blank line of a reply.
pub fn response_body(reply: &str) -> (r: Option<String>)
    ensures
        match r {
            Some(body) => body_of(reply@) == Some(body@),
            None => body_of(reply@) is None,
        },
{
    let chars = text::chars_of(reply);
    let len: usize = chars.len();
    let mut i: usize = 0;
    assert(chars@.skip(0) == chars@);
    while len - i >= 4
        invariant
            len == chars@.len(),
            i <= len,
            reply@ == chars@,
            body_of(chars@.skip(i as int)) == body_of(reply@),
        decreases len - i,
    {
        let ghost rest = chars@.skip(i as int);
        if chars[i] == '\r' && chars[i + 1] == '\n' && chars[i + 2] == '\r' && chars[i + 3] == '\n' {
            assert(rest.take(4) == blank_line());
            let body = text::string_of(&chars, i + 4, len);
            assert(body@ == rest.skip(4));
            return Some(body);
        }
        assert(rest.take(4)[0] == chars@[i as int]);
        assert(rest.take(4)[1] == chars@[i + 1]);
        assert(rest.take(4)[2] == chars@[i + 2]);
        assert(rest.take(4)[3] == chars@[i + 3]);
        assert(rest.drop_first() == chars@.skip(i + 1));
        i = i + 1;
    }
    None
}

/// The fields of a trace: each line with a `=` gives the name before the first one the text
/// after it, and a later line of the same name prevails.
pub open spec fn trace_members(lines: Seq<Seq<char>>) -> Map<Seq<char>, Option<Seq<char>>>
    decreases lines.len(),
{
    if lines.len() == 0 {
        Map::empty()
    } else {
        let before = trace_members(lines.drop_last());
        match text::split_at_first(lines.last(), '=') {
            Some((name, field)) => before.insert(name, Some(field)),
            None => before,
        }
    }
}

/// What a body says: the members of its JSON value, else the fields of a trace that has some.
/// `json` is what the body came to as JSON.
pub open spec fn body_members(
    json: Option<Map<Seq<char>, Option<Seq<char>>>>,
    body: Seq<char>,
) -> Option<Map<Seq<char>, Option<Seq<char>>>> {
    let trace = trace_members(text::lines_of(body));
    match json {
        Some(found) => Some(found),
        None => if trace == no_members() {
            None
        } else {
            Some(trace)
        },
    }
}

/// What a reply says, or why it says nothing.
pub open spec fn response_members(reply: Seq<char>) -> Result<
    Map<Seq<char>, Option<Seq<char>>>,
    ResponseError,
> {
    match body_of(reply) {
        Some(body) => match body_members(json_members(text::trimmed(body)), body) {
            Some(found) => Ok(found),
            None => Err(ResponseError::InvalidFormat),
        },
        None => Err(ResponseError::NoSeparator),
    }
}

/// Reads a body, given what it came to as JSON. A body that is JSON gives that very value.
pub fn read_body(json: Option<serde_json::Value>, body: &str) -> (r: Result<
    serde_json::Value,
    ResponseError,
>)
    ensures
        match r {
            Ok(value) => body_members(optional_members(json), body@) == Some(members(value)),
            Err(e) => body_members(optional_members(json), body@) is None && e
                == ResponseError::InvalidFormat,
        },
        json is Some ==> r == Ok::<serde_json::Value, ResponseError>(json->0),
{
    if let Some(value) = json {
        return Ok(value);
    }
    let lines = text::lines(body);
    let ghost all = text::texts(lines@);
    let mut map = no_entries();
    let mut i: usize = 0;
    assert(all.take(0) == Seq::<Seq<char>>::empty());
    while i < lines.len()
        invariant
            i <= lines@.len(),
            all == text::texts(lines@),
            entries(map) == trace_members(all.take(i as int)),
        decreases lines@.len() - i,
    {
        assert(all.take(i + 1).drop_last() == all.take(i as int));
        assert(all.take(i + 1).last() == lines@[i as int]@);
        if let Some((name, field)) = text::split_once(lines[i].as_str(), '=') {
            insert_text(&mut map, name, field);
        }
        i = i + 1;
    }
    assert(all.take(i as int) == all);
    if has_no_entries(&map) {
        return Err(ResponseError::InvalidFormat);
    }
    Ok(object_of(map))
}

/// Reads the bytes of a reply: headers, a blank line, and a body that is JSON or a trace. A
/// body that is JSON, but for white space around it, gives that very value.
pub fn parse_response(response: &[u8]) -> (r: Result<serde_json::Value, ResponseError>)
    ensures
        match r {
            Ok(value) => response_members(lossy_text(response@)) == Ok::<_, ResponseError>(
                members(value),
            ),
            Err(e) => response_members(lossy_text(response@)) == Err::<
                Map<Seq<char>, Option<Seq<char>>>,
                ResponseError,
            >(e),
        },
        body_of(lossy_text(response@)) matches Some(body) ==> (json_value(text::trimmed(body))
            matches Some(value) ==> r == Ok::<serde_json::Value, ResponseError>(value)),
        vstd::utf8::valid_utf8(response@) ==> lossy_text(response@) == vstd::utf8::decode_utf8(
            response@,
        ),
{
    let reply = text_of_bytes(response);
    match response_body(reply.as_str()) {
        Some(body) => {
            let json = parse_json(text::trim(body.as_str()).as_str());
            read_body(json, body.as_str())
        },
        None => Err(ResponseError::NoSeparator),
    }
}

/// The address that a reply reports: under the name that one of the known services uses. The
/// first of these names that is there decides.
pub open spec fn reported_address(found: Map<Seq<char>, Option<Seq<char>>>) -> Option<Seq<char>> {
    if found.contains_key("clientIp"@) {
        found["clientIp"@]
    } else if found.contains_key("ip"@) {
        found["ip"@]
    } else if found.contains_key("origin"@) {
        found["origin"@]
    } else {
        None
    }
}

/// The address that a reply reports.
pub fn reported_ip(data: &serde_json::Value) -> (r: Option<String>)
    ensures
        match r {
            Some(ip) => reported_address(members(*data)) == Some(ip@),
            None => reported_address(members(*data)) is None,
        },
{
    let found = match member(data, "clientIp") {
        Some(value) => Some(value),
        None => match member(data, "ip") {
            Some(value) => Some(value),
            None => member(data, "origin"),
        },
    };
    match found {
        Some(value) => match as_text(value) {
            Some(ip) => Some(ip.to_owned()),
            None => None,
        },
        None => None,
    }
}

/// Takes in what one read put into `buffer`: its first `n` bytes. Returns whether the reply
/// has ended, which a read of no bytes tells.
pub fn receive(response: &mut Vec<u8>, buffer: &[u8], n: usize) -> (r: bool)
    requires
        n <= buffer@.len(),
    ensures
        r == (n == 0),
        final(response)@ == old(response)@ + buffer@.take(n as int),
{
    let mut i: usize = 0;
    while i < n
        invariant
            i <= n <= buffer@.len(),
            response@ == old(response)@ + buffer@.take(i as int),
        decreases n - i,
    {
        response.push(buffer[i]);
        i = i + 1;
    }
    n == 0
}

/// The request for `path` at `host`.
pub open spec fn request_text(host: Seq<char>, path: Seq<char>) -> Seq<char> {
    "GET "@ + path + " HTTP/1.1\r\nHost: "@ + host
        + "\r\nUser-Agent: Mozilla/5.0 (Windows NT 10.0) AppleWebKit/537.36 (KHTML, like Gecko) Chrome/42.0.2311.135 Safari/537.36 Edge/12.10240\r\nConnection: close\r\n\r\n"@
}

/// Builds the request for `path` at `host`.
pub fn request_payload(host: &str, path: &str) -> (r: String)
    ensures
        r@ == request_text(host@, path@),
{
    let mut out = String::new();
    out.append("GET ");
    out.append(path);
    out.append(" HTTP/1.1\r\nHost: ");
    out.append(host);
    out.append(
        "\r\nUser-Agent: Mozilla/5.0 (Windows NT 10.0) AppleWebKit/537.36 (KHTML, like Gecko) Chrome/42.0.2311.135 Safari/537.36 Edge/12.10240\r\nConnection: close\r\n\r\n",
    );
    out
}

/// Where to connect: the proxy, with an address that holds a `:` in brackets; without a proxy
/// the host's TLS port.
pub open spec fn address_text(host: Seq<char>, proxy: Option<(Seq<char>, u16)>) -> Seq<char> {
    match proxy {
        Some((ip, port)) => if ip.contains(':') {
            seq!['['] + ip + seq![']', ':'] + text::decimal_text(port as nat)
        } else {
            ip + seq![':'] + text::decimal_text(port as nat)
        },
        None => host + ":443"@,
    }
}

/// Where to connect for a request to `host`, through a proxy if one is given.
pub fn connect_address(host: &str, proxy: Option<(&str, u16)>) -> (r: String)
    ensures
        r@ == address_text(
            host@,
            match proxy {
                Some((ip, port)) => Some((ip@, port)),
                None => None,
            },
        ),
{
    let mut out = String::new();
    match proxy {
        Some((ip, port)) => {
            if has_colon(ip) {
                out.push('[');
                out.append(ip);
                out.push(']');
            } else {
                out.append(ip);
            }
            out.push(':');
            let digits = text::decimal(port as u32);
            out.append(digits.as_str());
        },
        None => {
            out.append(host);
            out.append(":443");
        },
    }
    out
}

/// Whether a text holds a `:`.
fn has_colon(s: &str) -> (r: bool)
    ensures
        r == s@.contains(':'),
{
    let chars = text::chars_of(s);
    let mut i: usize = 0;
    while i < chars.len()
        invariant
            i <= chars@.len(),
            s@ == chars@,
            forall|k: int| 0 <= k < i ==> chars@[k] != ':',
        decreases chars@.len() - i,
    {
        if chars[i] == ':' {
            return true;
        }
        i = i + 1;
    }
    false
}

} // verus!
