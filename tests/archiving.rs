use relay_proxy::archive::{
    access_line, archive_record, discover, discovery_for, fetch_report, render_content,
    scrape_page, FetchOutcome, PageParts, Report,
};
use relay_proxy::sniff::parse_head;

fn s(x: &str) -> String {
    x.to_string()
}

#[test]
fn access_line_format() {
    assert_eq!(access_line("2024-01-02 03:04:05", "http://a.test/"), "2024-01-02 03:04:05 - http://a.test/\n");
}

#[test]
fn archive_record_format() {
    assert_eq!(
        archive_record("http://a.test/", "2024-01-02 03:04:05", "P: hi\n"),
        "====================\nURL: http://a.test/\nTimestamp: 2024-01-02 03:04:05\n====================\n\nP: hi\n\n\n\n"
    );
}

#[test]
fn render_content_format() {
    let parts = PageParts {
        headings: vec![vec![s("  Title ")], vec![], vec![s("Sub")]],
        paragraphs: vec![s("one"), s("\ttwo\n")],
        links: vec![(s(" home "), Some(s("/"))), (s("none"), None)],
        tables: vec![vec![vec![s(" a "), s("b")], vec![s("c")], vec![]]],
    };
    assert_eq!(
        render_content(&parts),
        "H1: Title\nH3: Sub\nP: one\nP: two\nLINK: home (/)\nTABLE:\n  a | b\n  c\n  \n"
    );
}

#[test]
fn scrape_page_extracts_structure() {
    let html = "<html><body><h2> Second </h2><h1>First</h1><p> Para </p>\
                <a href=\"/x\">Go</a><a>nohref</a>\
                <table><tr><td>1</td><td> 2 </td></tr></table></body></html>";
    assert_eq!(
        scrape_page(html),
        "H1: First\nH2: Second\nP: Para\nLINK: Go (/x)\nTABLE:\n  1 | 2\n"
    );
}

#[test]
fn failed_fetch_gives_one_error_report() {
    let r = fetch_report("http://down.test/", "t", &FetchOutcome::Failed(s("connection refused")));
    assert_eq!(r, Report::Error(s("Failed to fetch URL: connection refused")));
}

#[test]
fn fetched_page_gives_archive_record() {
    let r = fetch_report("http://a.test/", "t", &FetchOutcome::Page(s("<p>x</p>")));
    assert_eq!(r, Report::Archive(s("====================\nURL: http://a.test/\nTimestamp: t\n====================\n\nP: x\n\n\n\n")));
}

#[test]
fn fetches_in_any_order_give_one_record_each() {
    let urls: Vec<String> = (0..5).map(|i| format!("http://site{}.test/", i)).collect();
    let order = [3usize, 0, 4, 1, 2];
    let mut archive = String::new();
    for &i in order.iter() {
        match fetch_report(&urls[i], "t", &FetchOutcome::Page(format!("<p>page {}</p>", i))) {
            Report::Archive(rec) => archive.push_str(&rec),
            Report::Error(_) => panic!("unexpected error"),
        }
    }
    let banner = "====================\nURL: ";
    let pieces: Vec<&str> = archive.split(banner).filter(|p| !p.is_empty()).collect();
    assert_eq!(pieces.len(), 5);
    for (k, piece) in pieces.iter().enumerate() {
        let i = order[k];
        assert!(piece.starts_with(&urls[i]));
        assert!(piece.contains(&format!("P: page {}\n", i)));
    }
}

#[test]
fn discovery_for_parsed_and_unparsed_urls() {
    let d = discovery_for("http://a.test/x", "ts", true);
    assert_eq!(d.log_line, "ts - http://a.test/x\n");
    assert_eq!(d.fetch_url, Some(s("http://a.test/x")));
    let d = discovery_for("http://bad host/x", "ts", false);
    assert_eq!(d.fetch_url, None);
}

#[test]
fn discover_checks_the_url() {
    let req = parse_head(b"CONNECT example.com:443 HTTP/1.1\r\n\r\n").unwrap();
    let d = discover(&req);
    assert_eq!(d.log_line, format!("{} - https://example.com:443\n", d.timestamp));
    assert_eq!(d.fetch_url, Some(s("https://example.com:443")));
    let bad = parse_head(b"GET /x HTTP/1.1\r\nHost: bad host\r\n\r\n").unwrap();
    let d = discover(&bad);
    assert_eq!(d.log_line, format!("{} - http://bad host/x\n", d.timestamp));
    assert_eq!(d.fetch_url, None);
}
