use search_filter::extract::{default_exclusions, extract, extract_all, extract_with, ResultRecord};
use search_filter::query::{decode_payload, results_from_fetch, DecodeError};
use search_filter::text::{contains_sub, eq_str, has_prefix, parse_u64_str, trim_str};
use search_filter::urlenc::build_search_url;

fn one_container(href: &str, excerpt: &str) -> String {
    format!(
        "<html><body><div class=\"relsrch\"><div class=\"compTitle\"><a href=\"{}\">t</a></div><span class=\"fc-falcon\">{}</span></div></body></html>",
        href, excerpt
    )
}

#[test]
fn no_containers_yields_empty() {
    let html = "<html><body><div class=\"other\">nothing here</div></body></html>";
    let records = extract(html, 10);
    assert_eq!(records.len(), 0);
}

#[test]
fn zero_budget_yields_empty() {
    let mut html = String::new();
    html.push_str("<html><body>");
    for i in 0..50 {
        html.push_str(&one_container(&format!("http://example.com/{}", i), "text"));
    }
    html.push_str("</body></html>");
    let records = extract(&html, 0);
    assert_eq!(records.len(), 0);
}

#[test]
fn round_trip_trims_excerpt() {
    let html = one_container("http://example.com/a", "  hello world  ");
    let records = extract(&html, 10);
    assert_eq!(records.len(), 1);
    assert_eq!(records[0].url, "http://example.com/a");
    assert_eq!(records[0].resume, "hello world");
}

#[test]
fn rejected_containers_emit_no_record() {
    let mut html = String::new();
    html.push_str("<html><body>");
    // no anchor at all: link is empty
    html.push_str("<div class=\"relsrch\"><span class=\"fc-falcon\">a</span></div>");
    // empty href
    html.push_str(&one_container("", "b"));
    // unrecognized scheme
    html.push_str(&one_container("ftp://example.com/c", "c"));
    // excluded substring
    html.push_str(&one_container("http://yahoo.example.com/d", "d"));
    // two good ones, order must be kept
    html.push_str(&one_container("http://example.com/e", "e"));
    html.push_str(&one_container("https://example.com/f", "f"));
    html.push_str("</body></html>");
    let records = extract(&html, 10);
    assert_eq!(records.len(), 2);
    assert_eq!(records[0].url, "http://example.com/e");
    assert_eq!(records[0].resume, "e");
    assert_eq!(records[1].url, "https://example.com/f");
    assert_eq!(records[1].resume, "f");
}

#[test]
fn generous_budget_processes_all_containers() {
    let mut html = String::new();
    html.push_str("<html><body>");
    for i in 0..40 {
        html.push_str(&one_container(&format!("http://example.com/{}", i), "x"));
    }
    html.push_str("</body></html>");
    let records = extract(&html, 10);
    assert_eq!(records.len(), 40);
    for (i, r) in records.iter().enumerate() {
        assert_eq!(r.url, format!("http://example.com/{}", i));
    }
}

#[test]
fn untimed_walk_keeps_exactly_the_good_containers() {
    let mut html = String::new();
    html.push_str("<html><body>");
    html.push_str(&one_container("http://example.com/a", " a "));
    html.push_str(&one_container("ftp://example.com/b", "b"));
    html.push_str(&one_container("http://www.yahoo.com/c", "c"));
    html.push_str(&one_container("https://example.com/d", "d"));
    html.push_str("</body></html>");
    let records = extract_all(&html, &default_exclusions());
    assert_eq!(records.len(), 2);
    assert_eq!(records[0].url, "http://example.com/a");
    assert_eq!(records[0].resume, "a");
    assert_eq!(records[1].url, "https://example.com/d");
}

#[test]
fn missing_excerpt_becomes_empty_string() {
    let html = "<html><body><div class=\"relsrch\"><div class=\"compTitle\"><a href=\"http://example.com/a\">t</a></div></div></body></html>";
    let records = extract(html, 10);
    assert_eq!(records.len(), 1);
    assert_eq!(records[0].resume, "");
}

#[test]
fn custom_exclusions_filter_links() {
    let html = one_container("http://tracker.example.com/a", "a");
    let excluded = vec!["tracker".to_string()];
    let records = extract_with(&html, 10, &excluded);
    assert_eq!(records.len(), 0);
    let records = extract_with(&html, 10, &default_exclusions());
    assert_eq!(records.len(), 1);
}

#[test]
fn default_exclusions_hold_the_engine_name() {
    let ex = default_exclusions();
    assert_eq!(ex, vec!["yahoo".to_string()]);
}

#[test]
fn search_url_percent_encodes_utf8() {
    let url = build_search_url("café");
    assert_eq!(url, "https://fr.search.yahoo.com/search?p=caf%C3%A9");
}

#[test]
fn search_url_encodes_space_as_plus() {
    let url = build_search_url("hello world");
    assert_eq!(url, "https://fr.search.yahoo.com/search?p=hello+world");
}

#[test]
fn failed_fetch_yields_empty_result_set() {
    let records: Vec<ResultRecord> = results_from_fetch(None, 10);
    assert_eq!(records.len(), 0);
}

#[test]
fn fetched_body_is_extracted() {
    let html = one_container("http://example.com/a", "hi");
    let records = results_from_fetch(Some(html), 10);
    assert_eq!(records.len(), 1);
    assert_eq!(records[0].url, "http://example.com/a");
    assert_eq!(records[0].resume, "hi");
}

#[test]
fn structured_payload_decodes() {
    let q = decode_payload("{\"value\": \"rust\", \"timeout\": \"5\"}").unwrap();
    assert_eq!(q.search_text, "rust");
    assert_eq!(q.timeout_secs, 5);
}

#[test]
fn structured_payload_defaults_timeout() {
    let q = decode_payload("{\"value\": \"rust\"}").unwrap();
    assert_eq!(q.search_text, "rust");
    assert_eq!(q.timeout_secs, 10);
}

#[test]
fn legacy_single_entry_payload_decodes() {
    let q = decode_payload("{\"q\": \"rust\"}").unwrap();
    assert_eq!(q.search_text, "rust");
    assert_eq!(q.timeout_secs, 10);
}

#[test]
fn malformed_payload_is_rejected() {
    assert_eq!(decode_payload("not json").unwrap_err(), DecodeError::MalformedPayload);
    assert_eq!(decode_payload("[1, 2]").unwrap_err(), DecodeError::MalformedPayload);
    assert_eq!(
        decode_payload("{\"value\": 3}").unwrap_err(),
        DecodeError::MalformedPayload
    );
}

#[test]
fn bad_timeout_is_rejected() {
    assert_eq!(
        decode_payload("{\"value\": \"x\", \"timeout\": \"abc\"}").unwrap_err(),
        DecodeError::InvalidTimeout
    );
    assert_eq!(
        decode_payload("{\"value\": \"x\", \"timeout\": \"\"}").unwrap_err(),
        DecodeError::InvalidTimeout
    );
    assert_eq!(
        decode_payload("{\"value\": \"x\", \"timeout\": \"99999999999999999999\"}").unwrap_err(),
        DecodeError::InvalidTimeout
    );
}

#[test]
fn multi_entry_payload_without_value_is_empty_text() {
    let q = decode_payload("{\"a\": \"1\", \"b\": \"2\"}").unwrap();
    assert_eq!(q.search_text, "");
}

#[test]
fn trim_handles_edges() {
    assert_eq!(trim_str("  hello world  "), "hello world");
    assert_eq!(trim_str(""), "");
    assert_eq!(trim_str(" \t\n "), "");
    assert_eq!(trim_str("x"), "x");
    assert_eq!(trim_str("\u{a0}caf\u{e9}\u{2028}"), "caf\u{e9}");
}

#[test]
fn parse_u64_accepts_digits_and_rejects_the_rest() {
    assert_eq!(parse_u64_str("0"), Some(0));
    assert_eq!(parse_u64_str("10"), Some(10));
    assert_eq!(parse_u64_str("+7"), Some(7));
    assert_eq!(parse_u64_str("18446744073709551615"), Some(u64::MAX));
    assert_eq!(parse_u64_str("18446744073709551616"), None);
    assert_eq!(parse_u64_str(""), None);
    assert_eq!(parse_u64_str("+"), None);
    assert_eq!(parse_u64_str("-1"), None);
    assert_eq!(parse_u64_str("1a"), None);
}

#[test]
fn string_helpers_agree_with_std() {
    assert!(has_prefix("http://x", "http"));
    assert!(!has_prefix("htt", "http"));
    assert!(contains_sub("http://yahoo.com", "yahoo"));
    assert!(!contains_sub("http://example.com", "yahoo"));
    assert!(contains_sub("abc", ""));
    assert!(eq_str("caf\u{e9}", "caf\u{e9}"));
    assert!(!eq_str("a", "b"));
}
