use proxy_scanner::response::{
    connect_address, parse_response, read_body, receive, reported_ip, request_payload,
    response_body, ResponseError, IP_RESOLVER, PATH_RESOLVER, TIMEOUT_SECONDS,
};

fn reply_ip(reply: &str) -> Option<String> {
    reported_ip(&parse_response(reply.as_bytes()).unwrap())
}

#[test]
fn the_request_is_the_one_expected() {
    assert_eq!(
        request_payload(IP_RESOLVER, PATH_RESOLVER),
        "GET /cdn-cgi/trace HTTP/1.1\r\n\
         Host: www.cloudflare.com\r\n\
         User-Agent: Mozilla/5.0 (Windows NT 10.0) AppleWebKit/537.36 \
         (KHTML, like Gecko) Chrome/42.0.2311.135 Safari/537.36 Edge/12.10240\r\n\
         Connection: close\r\n\r\n"
    );
    assert_eq!(TIMEOUT_SECONDS, 9);
}

#[test]
fn addresses_with_colons_stand_in_brackets() {
    assert_eq!(connect_address("h", Some(("1.2.3.4", 443))), "1.2.3.4:443");
    assert_eq!(
        connect_address("h", Some(("2001:db8::1", 8443))),
        "[2001:db8::1]:8443"
    );
    assert_eq!(connect_address("h", Some(("", 0))), ":0");
    assert_eq!(
        connect_address("www.cloudflare.com", None),
        "www.cloudflare.com:443"
    );
}

#[test]
fn proxies_are_told_apart() {
    let proxies = [
        ("1.2.3.4", 80),
        ("1.2.3.4", 8),
        ("1.2.3.48", 0),
        ("::1", 80),
        ("[::1", 80),
        ("[x]", 80),
    ];
    for (i, a) in proxies.iter().enumerate() {
        for (k, b) in proxies.iter().enumerate() {
            let same = connect_address("h", Some(*a)) == connect_address("h", Some(*b));
            assert_eq!(same, i == k);
        }
    }
}

#[test]
fn the_body_follows_the_first_blank_line() {
    assert_eq!(
        response_body("HTTP/1.1 200 OK\r\nA: b\r\n\r\nx\r\n\r\ny"),
        Some("x\r\n\r\ny".to_string())
    );
    assert_eq!(response_body("\r\n\r\n"), Some(String::new()));
    assert_eq!(response_body("\r\n\r\r\n\r\nx"), Some("x".to_string()));
    assert_eq!(response_body("\r\n\r"), None);
    assert_eq!(response_body("a\n\nb"), None);
    assert_eq!(response_body(""), None);
}

#[test]
fn a_trace_reports_its_ip_line() {
    let reply = "HTTP/1.1 200 OK\r\nServer: cloudflare\r\n\r\n\
                 fl=1\nh=www.cloudflare.com\nip=203.0.113.9\nts=1.5\nuag=a=b\nwarp=off\n";
    assert_eq!(reply_ip(reply), Some("203.0.113.9".to_string()));
    let value = parse_response(reply.as_bytes()).unwrap();
    assert_eq!(value.get("uag").and_then(|v| v.as_str()), Some("a=b"));
    assert_eq!(value.as_object().map(|o| o.len()), Some(6));
}

#[test]
fn the_last_line_of_a_name_prevails() {
    assert_eq!(
        reply_ip("\r\n\r\nip=1.1.1.1\r\nx\r\nip=2.2.2.2\r\n"),
        Some("2.2.2.2".to_string())
    );
}

#[test]
fn json_bodies_are_read() {
    assert_eq!(
        reply_ip("H: x\r\n\r\n  {\"clientIp\": \"198.51.100.7\", \"ip\": \"1.1.1.1\"}\r\n"),
        Some("198.51.100.7".to_string())
    );
    assert_eq!(
        reply_ip("\r\n\r\n{\"origin\": \"192.0.2.1\"}"),
        Some("192.0.2.1".to_string())
    );
    assert_eq!(
        reply_ip("\r\n\r\n{\"origin\": \"192.0.2.1\", \"ip\": \"192.0.2.2\"}"),
        Some("192.0.2.2".to_string())
    );
}

#[test]
fn the_first_known_name_decides_even_without_a_text() {
    assert_eq!(
        reply_ip("\r\n\r\n{\"clientIp\": 5, \"ip\": \"192.0.2.2\"}"),
        None
    );
    assert_eq!(reply_ip("\r\n\r\n{\"address\": \"192.0.2.2\"}"), None);
    assert_eq!(reply_ip("\r\n\r\n[\"ip\"]"), None);
    assert_eq!(reply_ip("\r\n\r\n\"ip\""), None);
}

#[test]
fn json_is_tried_before_a_trace() {
    // The body is JSON, so its `=` is not looked at.
    assert_eq!(reply_ip("\r\n\r\n\"ip=1.1.1.1\""), None);
    // The body is no JSON as a whole.
    assert_eq!(
        reply_ip("\r\n\r\n{\nip=1.1.1.1\n"),
        Some("1.1.1.1".to_string())
    );
}

#[test]
fn unusable_replies_are_refused() {
    assert_eq!(
        parse_response(b"HTTP/1.1 200 OK\r\n").err(),
        Some(ResponseError::NoSeparator)
    );
    assert_eq!(
        parse_response(b"HTTP/1.1 200 OK\r\n\r\nno fields here\n").err(),
        Some(ResponseError::InvalidFormat)
    );
    assert_eq!(
        parse_response(b"\r\n\r\n").err(),
        Some(ResponseError::InvalidFormat)
    );
    assert_eq!(
        ResponseError::NoSeparator.message(),
        "Invalid HTTP response: No separator found"
    );
    assert_eq!(
        ResponseError::InvalidFormat.message(),
        "Invalid response format"
    );
}

#[test]
fn bytes_that_are_no_text_are_replaced() {
    let value = parse_response(b"\xff\r\n\r\nname=a\xc3\nip=1.1.1.1").unwrap();
    assert_eq!(
        value.get("name").and_then(|v| v.as_str()),
        Some("a\u{fffd}")
    );
    let value = parse_response("\r\n\r\nname=é中".as_bytes()).unwrap();
    assert_eq!(value.get("name").and_then(|v| v.as_str()), Some("é中"));
}

#[test]
fn a_body_is_read_after_json_was_tried() {
    let json = serde_json::from_str("{\"a\": 1}").ok();
    let value = read_body(json, "b=2").unwrap();
    assert!(value.get("a").is_some());
    assert!(value.get("b").is_none());
    let value = read_body(None, "=x\nb=2").unwrap();
    assert_eq!(value.get("").and_then(|v| v.as_str()), Some("x"));
    assert_eq!(value.get("b").and_then(|v| v.as_str()), Some("2"));
    assert_eq!(
        read_body(None, "b").err(),
        Some(ResponseError::InvalidFormat)
    );
}

#[test]
fn a_reply_is_gathered_from_reads() {
    let mut response = Vec::new();
    let mut buffer = [0u8; 8];
    buffer[..5].copy_from_slice(b"\r\n\r\ni");
    assert!(!receive(&mut response, &buffer, 5));
    buffer[..4].copy_from_slice(b"p=a\n");
    assert!(!receive(&mut response, &buffer, 4));
    assert!(receive(&mut response, &buffer, 0));
    assert_eq!(response, b"\r\n\r\nip=a\n");
    assert_eq!(
        reported_ip(&parse_response(&response).unwrap()),
        Some("a".to_string())
    );
}

#[test]
fn a_json_body_gives_that_very_value() {
    for text in [
        "{\"ip\": \"1.1.1.1\", \"n\": [1, 2.5, null], \"o\": {\"a\": \"b=c\"}}",
        "[\"a=b\", true]",
        "\"a=b\"",
        "-12",
        "null",
    ] {
        let value: serde_json::Value = serde_json::from_str(text).unwrap();
        let reply = format!("HTTP/1.1 200 OK\r\n\r\n \n{}\r\n", text);
        assert_eq!(parse_response(reply.as_bytes()), Ok(value.clone()));
        assert_eq!(read_body(Some(value.clone()), "a=b"), Ok(value));
    }
}

#[test]
fn a_request_is_one_block_of_headers() {
    for (host, path) in [(IP_RESOLVER, PATH_RESOLVER), ("", ""), ("h\n\n", "/\n")] {
        assert_eq!(
            response_body(&request_payload(host, path)),
            Some(String::new())
        );
    }
}
