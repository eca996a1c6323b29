//! Where to connect, and what a reply says.

use crate::laws::texts;
use crate::response::{self, ResponseError};
use crate::text;
use vstd::prelude::*;

verus! {

/// The bytes that several reads gathered, one after the other.
pub open spec fn gathered(reads: Seq<Seq<u8>>) -> Seq<u8>
    decreases reads.len(),
{
    if reads.len() == 0 {
        Seq::empty()
    } else {
        gathered(reads.drop_last()) + reads.last()
    }
}

/// A reply is all that was read, in whatever pieces it came.
pub proof fn law_pieces_make_no_difference(reads: Seq<Seq<u8>>)
    ensures
        gathered(reads) == reads.flatten(),
    decreases reads.len(),
{
    if reads.len() > 0 {
        law_pieces_make_no_difference(reads.drop_last());
        reads.drop_last().lemma_flatten_push(reads.last());
        assert(reads == reads.drop_last().push(reads.last()));
    }
}

/// Whether a blank line ends the headers at `i`.
pub open spec fn blank_at(reply: Seq<char>, i: int) -> bool {
    0 <= i <= reply.len() - 4 && reply.subrange(i, i + 4) == seq!['\r', '\n', '\r', '\n']
}

/// The body of a reply is what follows the first blank line; there is none if and only if there
/// is no blank line.
pub proof fn law_body_follows_first_blank_line(reply: Seq<char>)
    ensures
        response::body_of(reply) is None <==> forall|i: int| !blank_at(reply, i),
        response::body_of(reply) is Some ==> exists|i: int|
            {
                &&& #[trigger] blank_at(reply, i)
                &&& response::body_of(reply)->0 == reply.skip(i + 4)
                &&& forall|k: int| k < i ==> !blank_at(reply, k)
            },
    decreases reply.len(),
{
    if reply.len() >= 4 {
        assert(reply.take(4) == reply.subrange(0, 4));
        if reply.take(4) == response::blank_line() {
            assert(blank_at(reply, 0));
        } else {
            let rest = reply.drop_first();
            law_body_follows_first_blank_line(rest);
            assert forall|i: int| 1 <= i implies blank_at(reply, i) == blank_at(rest, i - 1) by {
                if i <= reply.len() - 4 {
                    assert(reply.subrange(i, i + 4) == rest.subrange(i - 1, i + 3));
                }
            }
            if response::body_of(rest) is Some {
                let i = choose|i: int|
                    {
                        &&& #[trigger] blank_at(rest, i)
                        &&& response::body_of(rest)->0 == rest.skip(i + 4)
                        &&& forall|k: int| k < i ==> !blank_at(rest, k)
                    };
                assert(blank_at(reply, i + 1) == blank_at(rest, i));
                assert(reply.skip(i + 5) == rest.skip(i + 4));
                assert forall|k: int| k < i + 1 implies !blank_at(reply, k) by {
                    if k >= 1 {
                        assert(blank_at(reply, k) == blank_at(rest, k - 1));
                    }
                }
            } else {
                assert forall|i: int| !blank_at(reply, i) by {
                    if i >= 1 {
                        assert(blank_at(reply, i) == blank_at(rest, i - 1));
                    }
                }
            }
        }
    }
}

proof fn lemma_blank_before(head: Seq<char>, tail: Seq<char>, i: int)
    requires
        i <= head.len() - 4,
    ensures
        blank_at(head + tail, i) == blank_at(head, i),
{
    if 0 <= i {
        assert((head + tail).subrange(i, i + 4) == head.subrange(i, i + 4));
    }
}

/// What is sent after headers and a blank line is the body, whatever it holds.
pub proof fn law_sent_body_is_read(headers: Seq<char>, body: Seq<char>)
    requires
        forall|i: int|
            0 <= i < headers.len() ==> !blank_at(headers + seq!['\r', '\n', '\r', '\n'], i),
    ensures
        response::body_of(headers + seq!['\r', '\n', '\r', '\n'] + body) == Some(body),
{
    let head = headers + response::blank_line();
    let reply = head + body;
    let n = headers.len() as int;
    assert(head.subrange(n, n + 4) == response::blank_line());
    assert(blank_at(head, n));
    lemma_blank_before(head, body, n);
    assert(reply.skip(n + 4) == body);
    law_body_follows_first_blank_line(reply);
    assert(response::body_of(reply) is Some);
    let i = choose|i: int|
        {
            &&& #[trigger] blank_at(reply, i)
            &&& response::body_of(reply)->0 == reply.skip(i + 4)
            &&& forall|k: int| k < i ==> !blank_at(reply, k)
        };
    assert(i <= n);
    lemma_blank_before(head, body, i);
    assert(i == n);
}

/// Whether no carriage return stands two places after another one, but for the last four places.
spec fn returns_apart(s: Seq<char>) -> bool {
    forall|i: int| 0 <= i < s.len() - 4 && #[trigger] s[i] == '\r' ==> s[i + 2] != '\r'
}

proof fn lemma_request_end()
    ensures
        ({
            let rest =
                "\r\nUser-Agent: Mozilla/5.0 (Windows NT 10.0) AppleWebKit/537.36 (KHTML, like Gecko) Chrome/42.0.2311.135 Safari/537.36 Edge/12.10240\r\nConnection: close\r\n\r\n"@;
            &&& rest.len() == 154
            &&& returns_apart(rest)
            &&& rest.skip(150) == seq!['\r', '\n', '\r', '\n']
        }),
{
    let rest =
        "\r\nUser-Agent: Mozilla/5.0 (Windows NT 10.0) AppleWebKit/537.36 (KHTML, like Gecko) Chrome/42.0.2311.135 Safari/537.36 Edge/12.10240\r\nConnection: close\r\n\r\n"@;
    reveal_strlit(
        "\r\nUser-Agent: Mozilla/5.0 (Windows NT 10.0) AppleWebKit/537.36 (KHTML, like Gecko) Chrome/42.0.2311.135 Safari/537.36 Edge/12.10240\r\nConnection: close\r\n\r\n",
    );
    assert(rest.skip(150) =~= seq!['\r', '\n', '\r', '\n']);
}

proof fn lemma_request_version()
    ensures
        " HTTP/1.1\r\nHost: "@.len() == 17,
        forall|i: int|
            0 <= i < 17 && #[trigger] " HTTP/1.1\r\nHost: "@[i] == '\r' ==> i == 9,
        " HTTP/1.1\r\nHost: "@[11] == 'H',
{
    reveal_strlit(" HTTP/1.1\r\nHost: ");
}

/// A request is one block of headers with nothing after it, for a host and a path that hold no
/// carriage return.
pub proof fn law_request_is_one_block(host: Seq<char>, path: Seq<char>)
    requires
        !host.contains('\r'),
        !path.contains('\r'),
    ensures
        response::body_of(response::request_text(host, path)) == Some(Seq::<char>::empty()),
{
    let verb = "GET "@;
    let version = " HTTP/1.1\r\nHost: "@;
    let rest =
        "\r\nUser-Agent: Mozilla/5.0 (Windows NT 10.0) AppleWebKit/537.36 (KHTML, like Gecko) Chrome/42.0.2311.135 Safari/537.36 Edge/12.10240\r\nConnection: close\r\n\r\n"@;
    reveal_strlit("GET ");
    lemma_request_version();
    lemma_request_end();
    let request = response::request_text(host, path);
    let headers = request.take(request.len() - 4);
    let blank = seq!['\r', '\n', '\r', '\n'];
    let version_at = verb.len() + path.len();
    let rest_at = version_at + version.len() + host.len();
    assert(request == verb + path + version + host + rest);
    assert(request.skip(request.len() - 4) =~= rest.skip(150));
    assert(headers + blank =~= request);
    assert forall|i: int| 0 <= i < headers.len() implies !blank_at(request, i) by {
        if blank_at(request, i) {
            assert(request.subrange(i, i + 4)[0] == request[i]);
            assert(request.subrange(i, i + 4)[2] == request[i + 2]);
            if i < verb.len() {
                assert(request[i] == verb[i]);
            } else if i < version_at {
                assert(request[i] == path[i - verb.len()]);
                assert(path.contains(path[i - verb.len()]));
            } else if i < version_at + version.len() {
                assert(request[i] == version[i - version_at]);
                assert(request[i + 2] == version[11]);
            } else if i < rest_at {
                assert(request[i] == host[i - version_at - version.len()]);
                assert(host.contains(host[i - version_at - version.len()]));
            } else {
                assert(request[i] == rest[i - rest_at]);
                assert(request[i + 2] == rest[i - rest_at + 2]);
            }
        }
    }
    law_sent_body_is_read(headers, Seq::empty());
    assert(headers + blank + Seq::<char>::empty() =~= request);
}

/// Whether a line of a trace gives this name a text.
pub open spec fn names(line: Seq<char>, name: Seq<char>) -> bool {
    text::split_at_first(line, '=') matches Some((before, _)) && before == name
}

/// A line made of a name, `=` and any text gives that name that text.
pub proof fn law_trace_line(name: Seq<char>, field: Seq<char>)
    requires
        !name.contains('='),
    ensures
        text::split_at_first(name + seq!['='] + field, '=') == Some((name, field)),
{
    let line = name + seq!['='] + field;
    let n = name.len() as int;
    assert forall|i: int| 0 <= i < n implies line[i] != '=' by {
        assert(name.contains(name[i]));
    }
    text::lemma_first_position_is(line, '=', n);
    assert(line.take(n) == name);
    assert(line.skip(n + 1) == field);
}

/// Whether the line at `i` is the last one that gives this name a text.
pub open spec fn last_to_name(lines: Seq<Seq<char>>, name: Seq<char>, i: int) -> bool {
    &&& 0 <= i < lines.len()
    &&& names(lines[i], name)
    &&& forall|k: int| i < k < lines.len() ==> !names(#[trigger] lines[k], name)
}

proof fn lemma_trace_names(lines: Seq<Seq<char>>, name: Seq<char>)
    ensures
        response::trace_members(lines).contains_key(name) <==> exists|i: int|
            0 <= i < lines.len() && names(#[trigger] lines[i], name),
    decreases lines.len(),
{
    if lines.len() > 0 {
        let earlier = lines.drop_last();
        let last = lines.len() - 1;
        lemma_trace_names(earlier, name);
        if !names(lines[last], name) {
            if exists|i: int| 0 <= i < lines.len() && names(#[trigger] lines[i], name) {
                let i = choose|i: int| 0 <= i < lines.len() && names(#[trigger] lines[i], name);
                assert(names(earlier[i], name));
            }
            if exists|i: int| 0 <= i < earlier.len() && names(#[trigger] earlier[i], name) {
                let i = choose|i: int| 0 <= i < earlier.len() && names(#[trigger] earlier[i], name);
                assert(names(lines[i], name));
            }
        }
    }
}

proof fn lemma_trace_text(lines: Seq<Seq<char>>, name: Seq<char>, i: int)
    requires
        last_to_name(lines, name, i),
    ensures
        response::trace_members(lines)[name] == Some((text::split_at_first(lines[i], '=')->0).1),
    decreases lines.len(),
{
    let earlier = lines.drop_last();
    let last = lines.len() - 1;
    if i < last {
        assert(!names(lines[last], name));
        assert forall|k: int| i < k < earlier.len() implies !names(#[trigger] earlier[k], name) by {
            assert(!names(lines[k], name));
        }
        assert(earlier[i] == lines[i]);
        lemma_trace_text(earlier, name, i);
    }
}

/// A trace has a name if and only if a line gives it a text, and the last such line prevails.
pub proof fn law_last_trace_line_prevails(lines: Seq<Seq<char>>, name: Seq<char>)
    ensures
        response::trace_members(lines).contains_key(name) <==> exists|i: int|
            0 <= i < lines.len() && names(#[trigger] lines[i], name),
        forall|i: int| #[trigger]
            last_to_name(lines, name, i) ==> response::trace_members(lines)[name] == Some(
                (text::split_at_first(lines[i], '=')->0).1,
            ),
{
    lemma_trace_names(lines, name);
    assert forall|i: int| #[trigger] last_to_name(lines, name, i) implies response::trace_members(
        lines,
    )[name] == Some((text::split_at_first(lines[i], '=')->0).1) by {
        lemma_trace_text(lines, name, i);
    }
}

/// A reply whose body is a trace reports the address of its last `ip` line, where no line is
/// named `clientIp`.
pub proof fn law_trace_reports_its_address(
    reply: Seq<char>,
    body: Seq<char>,
    address: Seq<char>,
    at: int,
)
    requires
        response::body_of(reply) == Some(body),
        response::json_members(text::trimmed(body)) is None,
        0 <= at < text::lines_of(body).len(),
        text::lines_of(body)[at] == "ip"@ + seq!['='] + address,
        forall|k: int|
            at < k < text::lines_of(body).len() ==> !names(
                #[trigger] text::lines_of(body)[k],
                "ip"@,
            ),
        forall|k: int|
            0 <= k < text::lines_of(body).len() ==> !names(
                #[trigger] text::lines_of(body)[k],
                "clientIp"@,
            ),
    ensures
        response::response_members(reply) is Ok,
        response::reported_address(response::response_members(reply)->Ok_0) == Some(address),
{
    reveal_strlit("ip");
    let lines = text::lines_of(body);
    let trace = response::trace_members(lines);
    assert(!"ip"@.contains('='));
    law_trace_line("ip"@, address);
    assert(names(lines[at], "ip"@));
    law_last_trace_line_prevails(lines, "ip"@);
    law_last_trace_line_prevails(lines, "clientIp"@);
    assert(trace.contains_key("ip"@));
    assert(last_to_name(lines, "ip"@, at));
    assert(trace != response::no_members());
}

/// A body that is neither JSON nor holds a `=` says nothing.
pub proof fn law_body_without_fields_is_refused(reply: Seq<char>, body: Seq<char>)
    requires
        response::body_of(reply) == Some(body),
        response::json_members(text::trimmed(body)) is None,
        !body.contains('='),
    ensures
        response::response_members(reply) == Err::<
            Map<Seq<char>, Option<Seq<char>>>,
            ResponseError,
        >(ResponseError::InvalidFormat),
{
    lemma_lines_hold_nothing_new(body, '=');
    lemma_no_fields(text::lines_of(body));
}

proof fn lemma_no_fields(lines: Seq<Seq<char>>)
    requires
        forall|i: int| 0 <= i < lines.len() ==> !(#[trigger] lines[i]).contains('='),
    ensures
        response::trace_members(lines) == response::no_members(),
    decreases lines.len(),
{
    if lines.len() > 0 {
        lemma_no_fields(lines.drop_last());
        let line = lines[lines.len() - 1];
        text::lemma_first_position(line, '=');
        if text::first_position(line, '=') < line.len() {
            assert(line.contains(line[text::first_position(line, '=') as int]));
        }
    }
}

proof fn lemma_lines_hold_nothing_new(s: Seq<char>, c: char)
    requires
        !s.contains(c),
    ensures
        forall|i: int|
            0 <= i < text::lines_of(s).len() ==> !(#[trigger] text::lines_of(s)[i]).contains(c),
    decreases s.len(),
{
    if s.len() > 0 {
        let n = text::first_position(s, '\n') as int;
        text::lemma_first_position(s, '\n');
        let lines = text::lines_of(s);
        if n < s.len() {
            let rest = s.skip(n + 1);
            assert forall|k: int| 0 <= k < rest.len() implies rest[k] != c by {
                assert(s.contains(s[n + 1 + k]));
            }
            lemma_lines_hold_nothing_new(rest, c);
            assert forall|i: int| 0 <= i < lines.len() implies !(#[trigger] lines[i]).contains(
                c,
            ) by {
                if i == 0 {
                    assert forall|k: int| 0 <= k < lines[0].len() implies lines[0][k] != c by {
                        assert(s.contains(s[k]));
                    }
                } else {
                    assert(lines[i] == text::lines_of(rest)[i - 1]);
                }
            }
        }
    }
}

/// The address part of where to connect.
spec fn host_part(ip: Seq<char>) -> Seq<char> {
    if ip.contains(':') {
        seq!['['] + ip + seq![']']
    } else {
        ip
    }
}

proof fn lemma_host_part(ip: Seq<char>)
    ensures
        host_part(ip).contains(':') <==> ip.contains(':'),
        ip.contains(':') ==> host_part(ip).subrange(1, host_part(ip).len() - 1) == ip,
{
    if ip.contains(':') {
        let i = choose|i: int| 0 <= i < ip.len() && ip[i] == ':';
        assert(host_part(ip)[i + 1] == ':');
        assert(host_part(ip).subrange(1, host_part(ip).len() - 1) == ip);
    }
}

proof fn lemma_address_parts(host: Seq<char>, ip: Seq<char>, port: u16)
    ensures
        response::address_text(host, Some((ip, port))) == host_part(ip) + seq![':']
            + text::decimal_text(port as nat),
        forall|i: int|
            0 <= i < text::decimal_text(port as nat).len() ==> #[trigger] text::decimal_text(
                port as nat,
            )[i] != ':',
{
    let digits = text::decimal_text(port as nat);
    texts::law_decimal_denotes(port as nat);
    assert forall|i: int| 0 <= i < digits.len() implies #[trigger] digits[i] != ':' by {
        assert(text::is_digit(digits[i]));
    }
    assert(response::address_text(host, Some((ip, port))) == host_part(ip) + seq![':'] + digits);
}

proof fn lemma_last_colon(a: Seq<char>, after_a: Seq<char>, b: Seq<char>, after_b: Seq<char>)
    requires
        a + seq![':'] + after_a == b + seq![':'] + after_b,
        forall|i: int| 0 <= i < after_a.len() ==> after_a[i] != ':',
        a.len() <= b.len(),
    ensures
        a == b,
        after_a == after_b,
{
    let all = a + seq![':'] + after_a;
    assert(all.len() == b.len() + 1 + after_b.len());
    assert(all[b.len() as int] == ':');
    if a.len() < b.len() {
        assert(all[b.len() as int] == after_a[b.len() - a.len() - 1]);
    }
    assert(a == all.take(a.len() as int));
    assert(b == all.take(a.len() as int));
    assert(after_a == all.skip(a.len() as int + 1));
    assert(after_b == all.skip(a.len() as int + 1));
}

/// Two proxies with another address or another port are connected to at different places.
pub proof fn law_proxies_are_told_apart(
    host: Seq<char>,
    ip: Seq<char>,
    port: u16,
    other_ip: Seq<char>,
    other_port: u16,
)
    requires
        response::address_text(host, Some((ip, port))) == response::address_text(
            host,
            Some((other_ip, other_port)),
        ),
    ensures
        ip == other_ip,
        port == other_port,
{
    let digits = text::decimal_text(port as nat);
    let other_digits = text::decimal_text(other_port as nat);
    lemma_address_parts(host, ip, port);
    lemma_address_parts(host, other_ip, other_port);
    if host_part(ip).len() <= host_part(other_ip).len() {
        lemma_last_colon(host_part(ip), digits, host_part(other_ip), other_digits);
    } else {
        lemma_last_colon(host_part(other_ip), other_digits, host_part(ip), digits);
    }
    texts::law_decimal_denotes(port as nat);
    texts::law_decimal_denotes(other_port as nat);
    lemma_host_part(ip);
    lemma_host_part(other_ip);
}

/// What follows the first blank line of a reply is its body; a reply without a blank line has
/// none.
pub proof fn law_response_body(reply: &str, r: Option<String>)
    requires
        call_ensures(response::response_body, (reply,), r),
    ensures
        r is None <==> forall|i: int| !blank_at(reply@, i),
        r is Some ==> exists|i: int|
            {
                &&& #[trigger] blank_at(reply@, i)
                &&& r->0@ == reply@.skip(i + 4)
                &&& forall|k: int| k < i ==> !blank_at(reply@, k)
            },
{
    law_body_follows_first_blank_line(reply@);
}

/// A reply reports the text of its member `clientIp`; where it has none, that of `ip`; where it
/// has neither, that of `origin`. Of the first that is there, a member that is no text reports
/// nothing.
pub proof fn law_reported_ip(data: &serde_json::Value, r: Option<String>)
    requires
        call_ensures(response::reported_ip, (data,), r),
    ensures
        ({
            let found = response::members(*data);
            let reports = |name: Seq<char>|
                match found[name] {
                    Some(text) => r is Some && r->0@ == text,
                    None => r is None,
                };
            &&& found.contains_key("clientIp"@) ==> reports("clientIp"@)
            &&& !found.contains_key("clientIp"@) && found.contains_key("ip"@) ==> reports("ip"@)
            &&& !found.contains_key("clientIp"@) && !found.contains_key("ip"@)
                && found.contains_key("origin"@) ==> reports("origin"@)
            &&& !found.contains_key("clientIp"@) && !found.contains_key("ip"@)
                && !found.contains_key("origin"@) ==> r is None
        }),
{
}

/// A reply with a text under `clientIp` reports it whatever else is there, and a reply with a
/// text under `origin` reports it where neither other name is there.
pub proof fn law_reported_address(found: Map<Seq<char>, Option<Seq<char>>>, address: Seq<char>)
    ensures
        response::reported_address(found.insert("clientIp"@, Some(address))) == Some(address),
        response::reported_address(
            found.remove("clientIp"@).insert("ip"@, Some(address)),
        ) == Some(address),
        response::reported_address(
            found.remove("clientIp"@).remove("ip"@).insert("origin"@, Some(address)),
        ) == Some(address),
        response::reported_address(
            found.remove("clientIp"@).remove("ip"@).remove("origin"@),
        ) is None,
{
    reveal_strlit("clientIp");
    reveal_strlit("ip");
    reveal_strlit("origin");
    assert("clientIp"@.len() == 8 && "ip"@.len() == 2 && "origin"@.len() == 6);
}

/// Whether a line of a trace gives this name this text: the name has no `=`.
pub open spec fn gives(line: Seq<char>, name: Seq<char>, field: Seq<char>) -> bool {
    !name.contains('=') && line == name + seq!['='] + field
}

proof fn lemma_gives(line: Seq<char>, name: Seq<char>, field: Seq<char>)
    ensures
        gives(line, name, field) <==> text::split_at_first(line, '=') == Some((name, field)),
{
    let i = text::first_position(line, '=') as int;
    text::lemma_first_position(line, '=');
    if gives(line, name, field) {
        law_trace_line(name, field);
    }
    if text::split_at_first(line, '=') == Some((name, field)) {
        assert(line == line.take(i) + seq!['='] + line.skip(i + 1));
    }
}

proof fn lemma_has_fields(lines: Seq<Seq<char>>)
    ensures
        response::trace_members(lines) == response::no_members() <==> forall|i: int|
            0 <= i < lines.len() ==> !(#[trigger] lines[i]).contains('='),
{
    if forall|i: int| 0 <= i < lines.len() ==> !(#[trigger] lines[i]).contains('=') {
        lemma_no_fields(lines);
    } else {
        let i = choose|i: int| 0 <= i < lines.len() && (#[trigger] lines[i]).contains('=');
        let line = lines[i];
        let k = choose|k: int| 0 <= k < line.len() && line[k] == '=';
        text::lemma_first_position(line, '=');
        let name = (text::split_at_first(line, '=')->0).0;
        assert(names(lines[i], name));
        law_last_trace_line_prevails(lines, name);
        assert(response::trace_members(lines).contains_key(name));
    }
}

/// What the bytes of a reply come to. Without a blank line they are refused. A body that is JSON,
/// but for white space around it, gives that value. Another body is read line by line: it is
/// refused if and only if no line holds a `=`, and else each name that some line gives a text has
/// the text of the last such line, and there are no other names.
pub proof fn law_parse_response(
    bytes: &[u8],
    r: Result<serde_json::Value, ResponseError>,
    name: Seq<char>,
)
    requires
        call_ensures(response::parse_response, (bytes,), r),
    ensures
        ({
            let reply = response::lossy_text(bytes@);
            match response::body_of(reply) {
                None => r == Err::<serde_json::Value, ResponseError>(ResponseError::NoSeparator),
                Some(body) => match response::json_value(text::trimmed(body)) {
                    Some(value) => r == Ok::<serde_json::Value, ResponseError>(value),
                    None => trace_is_read(text::lines_of(body), r, name),
                },
            }
        }),
{
    let reply = response::lossy_text(bytes@);
    if response::body_of(reply) is Some {
        let body = response::body_of(reply)->0;
        if response::json_value(text::trimmed(body)) is None {
            lemma_trace_is_read(text::lines_of(body), r, name);
        }
    }
}

/// Whether this is the right reading of the lines of a trace, as far as a name is concerned.
pub open spec fn trace_is_read(
    lines: Seq<Seq<char>>,
    r: Result<serde_json::Value, ResponseError>,
    name: Seq<char>,
) -> bool {
    &&& r is Err <==> forall|i: int|
        0 <= i < lines.len() ==> !(#[trigger] lines[i]).contains('=')
    &&& r is Err ==> r == Err::<serde_json::Value, ResponseError>(ResponseError::InvalidFormat)
    &&& r is Ok ==> (response::members(r->Ok_0).contains_key(name) <==> exists|i: int, field: Seq<char>|
        0 <= i < lines.len() && #[trigger] gives(lines[i], name, field))
    &&& r is Ok ==> forall|i: int, field: Seq<char>|
        {
            &&& 0 <= i < lines.len()
            &&& #[trigger] gives(lines[i], name, field)
            &&& forall|k: int, other: Seq<char>|
                i < k < lines.len() ==> !(#[trigger] gives(lines[k], name, other))
        } ==> response::members(r->Ok_0)[name] == Some(field)
}

proof fn lemma_trace_is_read(
    lines: Seq<Seq<char>>,
    r: Result<serde_json::Value, ResponseError>,
    name: Seq<char>,
)
    requires
        match r {
            Ok(value) => response::trace_members(lines) == response::members(value)
                && response::trace_members(lines) != response::no_members(),
            Err(e) => response::trace_members(lines) == response::no_members() && e
                == ResponseError::InvalidFormat,
        },
    ensures
        trace_is_read(lines, r, name),
{
    lemma_has_fields(lines);
    law_last_trace_line_prevails(lines, name);
    if r is Ok {
        let found = response::trace_members(lines);
        if found.contains_key(name) {
            let i = choose|i: int| 0 <= i < lines.len() && names(#[trigger] lines[i], name);
            let field = (text::split_at_first(lines[i], '=')->0).1;
            lemma_gives(lines[i], name, field);
            assert(gives(lines[i], name, field));
        }
        if exists|i: int, field: Seq<char>|
            0 <= i < lines.len() && #[trigger] gives(lines[i], name, field) {
            let (i, field) = choose|i: int, field: Seq<char>|
                0 <= i < lines.len() && #[trigger] gives(lines[i], name, field);
            lemma_gives(lines[i], name, field);
            assert(names(lines[i], name));
        }
        assert forall|i: int, field: Seq<char>|
            {
                &&& 0 <= i < lines.len()
                &&& #[trigger] gives(lines[i], name, field)
                &&& forall|k: int, other: Seq<char>|
                    i < k < lines.len() ==> !(#[trigger] gives(lines[k], name, other))
            } implies found[name] == Some(field) by {
            lemma_gives(lines[i], name, field);
            assert(names(lines[i], name));
            assert forall|k: int| i < k < lines.len() implies !names(#[trigger] lines[k], name) by {
                if names(lines[k], name) {
                    let other = (text::split_at_first(lines[k], '=')->0).1;
                    lemma_gives(lines[k], name, other);
                    assert(gives(lines[k], name, other));
                }
            }
            assert(last_to_name(lines, name, i));
        }
    }
}

/// Reading a body gives the JSON value where there is one, and else reads the lines of a trace.
pub proof fn law_read_body(
    json: Option<serde_json::Value>,
    body: &str,
    r: Result<serde_json::Value, ResponseError>,
    name: Seq<char>,
)
    requires
        call_ensures(response::read_body, (json, body), r),
    ensures
        match json {
            Some(value) => r == Ok::<serde_json::Value, ResponseError>(value),
            None => trace_is_read(text::lines_of(body@), r, name),
        },
{
    if json is None {
        lemma_trace_is_read(text::lines_of(body@), r, name);
    }
}

/// One read adds its bytes, in order, to what was gathered before; a read of none is the end.
pub proof fn law_receive(response: &mut Vec<u8>, buffer: &[u8], n: usize, r: bool)
    requires
        n <= buffer@.len(),
        call_ensures(response::receive, (response, buffer, n), r),
    ensures
        final(response)@.len() == old(response)@.len() + n,
        forall|i: int|
            0 <= i < old(response)@.len() ==> #[trigger] final(response)@[i] == old(response)@[i],
        forall|i: int|
            0 <= i < n ==> final(response)@[old(response)@.len() + i] == #[trigger] buffer@[i],
        r <==> n == 0,
{
}

/// Where to connect: without a proxy, port 443 of the host; with one, its address, which stands in
/// brackets if and only if it holds a `:`, then a `:` and the decimal digits of its port.
pub proof fn law_connect_address(host: &str, proxy: Option<(&str, u16)>, r: String)
    requires
        call_ensures(response::connect_address, (host, proxy), r),
    ensures
        match proxy {
            None => r@ == host@ + seq![':', '4', '4', '3'],
            Some((ip, port)) => exists|digits: Seq<char>|
                {
                    &&& #[trigger] texts::is_number(digits)
                    &&& texts::place_value(digits) == port
                    &&& digits.len() > 1 ==> digits[0] != '0'
                    &&& r@ == if ip@.contains(':') {
                        seq!['['] + ip@ + seq![']', ':'] + digits
                    } else {
                        ip@ + seq![':'] + digits
                    }
                },
        },
{
    reveal_strlit(":443");
    match proxy {
        None => {
            assert(":443"@ =~= seq![':', '4', '4', '3']);
        },
        Some((ip, port)) => {
            texts::law_decimal_text(port as nat);
            assert(texts::is_number(text::decimal_text(port as nat)));
        },
    }
}

/// The lines of a request: the path that is asked for, the host, the client, that the connection
/// is to be closed, and a blank line.
pub proof fn law_request_lines(host: &str, path: &str, r: String)
    requires
        call_ensures(response::request_payload, (host, path), r),
    ensures
        r@ == "GET "@ + path@ + " HTTP/1.1\r\n"@ + "Host: "@ + host@ + "\r\n"@
            + "User-Agent: Mozilla/5.0 (Windows NT 10.0) AppleWebKit/537.36 (KHTML, like Gecko) Chrome/42.0.2311.135 Safari/537.36 Edge/12.10240\r\n"@
            + "Connection: close\r\n"@ + "\r\n"@,
{
    let rest =
        "\r\nUser-Agent: Mozilla/5.0 (Windows NT 10.0) AppleWebKit/537.36 (KHTML, like Gecko) Chrome/42.0.2311.135 Safari/537.36 Edge/12.10240\r\nConnection: close\r\n\r\n"@;
    reveal_strlit(
        "\r\nUser-Agent: Mozilla/5.0 (Windows NT 10.0) AppleWebKit/537.36 (KHTML, like Gecko) Chrome/42.0.2311.135 Safari/537.36 Edge/12.10240\r\nConnection: close\r\n\r\n",
    );
    reveal_strlit(
        "User-Agent: Mozilla/5.0 (Windows NT 10.0) AppleWebKit/537.36 (KHTML, like Gecko) Chrome/42.0.2311.135 Safari/537.36 Edge/12.10240\r\n",
    );
    reveal_strlit(" HTTP/1.1\r\nHost: ");
    reveal_strlit(" HTTP/1.1\r\n");
    reveal_strlit("Host: ");
    reveal_strlit("\r\n");
    reveal_strlit("Connection: close\r\n");
    assert(" HTTP/1.1\r\nHost: "@ =~= " HTTP/1.1\r\n"@ + "Host: "@);
    assert(rest =~= "\r\n"@
        + "User-Agent: Mozilla/5.0 (Windows NT 10.0) AppleWebKit/537.36 (KHTML, like Gecko) Chrome/42.0.2311.135 Safari/537.36 Edge/12.10240\r\n"@
        + "Connection: close\r\n"@ + "\r\n"@);
    assert(r@ =~= "GET "@ + path@ + (" HTTP/1.1\r\n"@ + "Host: "@) + host@ + ("\r\n"@
        + "User-Agent: Mozilla/5.0 (Windows NT 10.0) AppleWebKit/537.36 (KHTML, like Gecko) Chrome/42.0.2311.135 Safari/537.36 Edge/12.10240\r\n"@
        + "Connection: close\r\n"@ + "\r\n"@));
}

} // verus!
