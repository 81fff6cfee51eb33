use http_tui::curl::{parse_curl_to_request, parse_curl_tokens, remove_quotes, tokenize_curl_command, url_decode};

fn strings(v: &[&str]) -> Vec<String> {
    v.iter().map(|s| s.to_string()).collect()
}

#[test]
fn remove_quotes_strips_double_quotes() {
    assert_eq!(remove_quotes("\"hello\""), "hello");
}

#[test]
fn remove_quotes_strips_single_quotes_and_unescapes() {
    assert_eq!(remove_quotes("'it\\'s \\\"x\\\" a\\\\b'"), "it's \"x\" a\\b");
}

#[test]
fn remove_quotes_keeps_unquoted_and_short_text() {
    assert_eq!(remove_quotes("plain"), "plain");
    assert_eq!(remove_quotes("'"), "'");
    assert_eq!(remove_quotes("'mixed\""), "'mixed\"");
    assert_eq!(remove_quotes("''"), "");
}

#[test]
fn url_decode_decodes_percent_pairs() {
    assert_eq!(url_decode("a%20b"), "a b");
    assert_eq!(url_decode("%41%42c"), "ABc");
}

#[test]
fn url_decode_keeps_bad_pairs_and_drops_after_short_percent() {
    assert_eq!(url_decode("%zz1"), "%zz1");
    assert_eq!(url_decode("ab%4"), "ab%");
    assert_eq!(url_decode("x%"), "x%");
}

#[test]
fn url_decode_reads_bytes_as_latin1_and_plus_prefix() {
    assert_eq!(url_decode("%C3%A9"), "\u{c3}\u{a9}");
    assert_eq!(url_decode("%+5"), "\u{5}");
}

#[test]
fn tokenize_splits_on_spaces_outside_quotes() {
    assert_eq!(
        tokenize_curl_command("curl -X POST 'http://example.com/a b'"),
        strings(&["curl", "-X", "POST", "'http://example.com/a b'"])
    );
}

#[test]
fn tokenize_joins_continued_lines() {
    assert_eq!(
        tokenize_curl_command("curl -X GET 'http://x.io' \\\n  -H 'A: b'"),
        strings(&["curl", "-X", "GET", "'http://x.io'", "-H", "'A: b'"])
    );
}

#[test]
fn tokenize_adds_curl_prefix() {
    assert_eq!(tokenize_curl_command("  http://x.io  "), strings(&["curl", "http://x.io"]));
}

#[test]
fn tokenize_drops_escaping_backslash_outside_quotes() {
    assert_eq!(tokenize_curl_command("curl a\\ b"), strings(&["curl", "a", "b"]));
}

#[test]
fn parse_reads_method_url_headers_and_body() {
    let req = parse_curl_to_request(
        "curl -X PUT 'https://api.example.com/items' -H 'Content-Type: application/json' -H 'X-Key:  v ' -d '{\"a\":1}'",
    )
    .unwrap();
    assert_eq!(req.method, "PUT");
    assert_eq!(req.url, "https://api.example.com/items");
    assert_eq!(req.body, "{\"a\":1}");
    assert_eq!(req.content_type, "application/json");
    assert_eq!(req.headers.get(&"Content-Type".to_string()), Some(&"application/json".to_string()));
    assert_eq!(req.headers.get(&"X-Key".to_string()), Some(&"v".to_string()));
    assert_eq!(req.headers.len(), 2);
}

#[test]
fn parse_splits_query_parameters() {
    let req = parse_curl_to_request("curl 'http://h.io/p?a=1&b=x%20y&c&a=2'").unwrap();
    assert_eq!(req.url, "http://h.io/p");
    assert_eq!(req.query_params.get(&"a".to_string()), Some(&"2".to_string()));
    assert_eq!(req.query_params.get(&"b".to_string()), Some(&"x y".to_string()));
    assert_eq!(req.query_params.get(&"c".to_string()), None);
    assert_eq!(req.query_params.len(), 2);
}

#[test]
fn parse_data_turns_get_into_post_with_form_type() {
    let req = parse_curl_to_request("curl http://h.io -d 'x=1'").unwrap();
    assert_eq!(req.method, "POST");
    assert_eq!(req.body, "x=1");
    assert_eq!(req.content_type, "application/x-www-form-urlencoded");
    assert_eq!(
        req.headers.get(&"Content-Type".to_string()),
        Some(&"application/x-www-form-urlencoded".to_string())
    );
}

#[test]
fn parse_json_sets_json_type() {
    let req = parse_curl_to_request("curl http://h.io --json '{}'").unwrap();
    assert_eq!(req.method, "POST");
    assert_eq!(req.body, "{}");
    assert_eq!(req.content_type, "application/json");
}

#[test]
fn parse_form_sets_multipart_type() {
    let req = parse_curl_to_request("curl -X PATCH http://h.io -F 'f=@a.txt'").unwrap();
    assert_eq!(req.method, "PATCH");
    assert_eq!(req.content_type, "multipart/form-data");
    assert_eq!(req.body, "");
}

#[test]
fn parse_keeps_explicit_method_with_data() {
    let req = parse_curl_to_request("curl -X DELETE http://h.io --data-raw 'q'").unwrap();
    assert_eq!(req.method, "DELETE");
}

#[test]
fn parse_header_without_colon_is_skipped() {
    let req = parse_curl_to_request("curl http://h.io -H 'NoColon'").unwrap();
    assert_eq!(req.headers.len(), 0);
}

#[test]
fn parse_lowercase_content_type_header_sets_type() {
    let req = parse_curl_to_request("curl http://h.io -H 'content-type: text/plain' -d 'x'").unwrap();
    assert_eq!(req.content_type, "text/plain");
    assert_eq!(req.headers.len(), 1);
}

#[test]
fn parse_refuses_other_commands() {
    match parse_curl_tokens(strings(&["wget", "http://h.io"])) {
        Err(e) => assert_eq!(e, "Not a curl command"),
        Ok(_) => panic!("a wget command parsed"),
    }
    match parse_curl_tokens(Vec::new()) {
        Err(e) => assert_eq!(e, "Not a curl command"),
        Ok(_) => panic!("an empty command parsed"),
    }
}

#[test]
fn parse_trailing_flag_without_value_is_ignored() {
    let req = parse_curl_to_request("curl http://h.io -X").unwrap();
    assert_eq!(req.method, "GET");
    assert_eq!(req.url, "http://h.io");
}
