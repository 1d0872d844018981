use relay_proxy::sniff::{parse_head, Method, Sniffer, HEAD_CAP};

#[test]
fn connect_line_gives_tunnel_target() {
    let req = parse_head(b"CONNECT example.com:443 HTTP/1.1\r\nHost: example.com:443\r\n\r\n").unwrap();
    assert_eq!(req.method(), Method::Connect);
    assert_eq!(req.target(), "example.com:443");
    assert_eq!(req.url(), "https://example.com:443");
}

#[test]
fn get_line_with_host_gives_absolute_url() {
    let req = parse_head(b"GET /p?x=1 HTTP/1.1\r\nHost: example.com\r\n\r\n").unwrap();
    assert_eq!(req.method(), Method::Get);
    assert_eq!(req.target(), "http://example.com/p?x=1");
    assert_eq!(req.url(), "http://example.com/p?x=1");
}

#[test]
fn post_line_and_lower_case_host() {
    let req = parse_head(b"POST /form HTTP/1.1\nhOsT:   shop.test  \n\n").unwrap();
    assert_eq!(req.method(), Method::Post);
    assert_eq!(req.target(), "http://shop.test/form");
}

#[test]
fn unknown_verb_gives_nothing() {
    assert!(parse_head(b"FOO /x HTTP/1.1\r\nHost: example.com\r\n\r\n").is_none());
}

#[test]
fn verb_without_target_gives_nothing() {
    assert!(parse_head(b"GET\r\n\r\n").is_none());
    assert!(parse_head(b"\r\n").is_none());
}

#[test]
fn missing_host_falls_back_to_unknown() {
    let req = parse_head(b"GET /a HTTP/1.1\r\nAccept: */*\r\n\r\n").unwrap();
    assert_eq!(req.target(), "http://unknown/a");
}

#[test]
fn last_duplicate_header_wins() {
    let req = parse_head(b"GET /a HTTP/1.1\r\nHost: first.test\r\nX-Tag: a:b\r\nHOST: second.test\r\n\r\n").unwrap();
    assert_eq!(req.target(), "http://second.test/a");
    assert_eq!(req.header("host"), Some("second.test".to_string()));
    assert_eq!(req.header("x-tag"), Some("a:b".to_string()));
    assert_eq!(req.header("cookie"), None);
}

#[test]
fn invalid_utf8_gives_nothing() {
    assert!(parse_head(b"GET /\xff HTTP/1.1\r\nHost: a.test\r\n\r\n").is_none());
}

#[test]
fn sniffer_waits_for_blank_line_across_chunks() {
    let mut s = Sniffer::new();
    assert!(s.feed(b"GET /p?x=1 HT").is_none());
    assert!(!s.finished());
    assert!(s.feed(b"TP/1.1\r\nHost: exam").is_none());
    assert!(s.feed(b"ple.com\r\n\r").is_none());
    let req = s.feed(b"\nbody bytes \xff\xfe").unwrap();
    assert!(s.finished());
    assert_eq!(req.target(), "http://example.com/p?x=1");
    assert!(s.feed(b"GET /other HTTP/1.1\r\nHost: b.test\r\n\r\n").is_none());
}

#[test]
fn sniffer_same_result_for_every_split() {
    let data: &[u8] = b"CONNECT example.com:443 HTTP/1.1\r\nHost: example.com:443\r\n\r\nrest";
    for cut in 0..data.len() {
        let mut s = Sniffer::new();
        let a = s.feed(&data[..cut]);
        let b = s.feed(&data[cut..]);
        let got = a.or(b).unwrap();
        assert_eq!(got.target(), "example.com:443");
    }
}

#[test]
fn sniffer_unknown_verb_settles_with_nothing() {
    let mut s = Sniffer::new();
    assert!(s.feed(b"FOO /x HTTP/1.1\r\n\r\n").is_none());
    assert!(s.finished());
}

#[test]
fn sniffer_gives_up_at_the_cap() {
    let mut s = Sniffer::new();
    let filler = vec![b'a'; HEAD_CAP - 1];
    assert!(s.feed(&filler).is_none());
    assert!(!s.finished());
    assert!(s.feed(b"\n\n").is_none());
    assert!(s.finished());
    assert!(s.feed(b"GET / HTTP/1.1\r\nHost: a\r\n\r\n").is_none());
}
