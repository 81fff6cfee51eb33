use http_tui::http::{plan_request, request_headers, response_from_error, response_from_reply, Method};
use http_tui::layout::{app_columns, name_area, request_tabs, response_tabs, status_text};

#[test]
fn methods_are_read_without_regard_to_case() {
    assert_eq!(plan_request("post", "http://h", "", "").method, Method::Post);
    assert_eq!(plan_request("Put", "http://h", "", "").method, Method::Put);
    assert_eq!(plan_request("DELETE", "http://h", "", "").method, Method::Delete);
    assert_eq!(plan_request("patch", "http://h", "", "").method, Method::Patch);
    assert_eq!(plan_request("GET", "http://h", "", "").method, Method::Get);
    assert_eq!(plan_request("OPTIONS", "http://h", "", "").method, Method::Get);
}

#[test]
fn only_post_put_and_patch_carry_a_body() {
    assert_eq!(plan_request("POST", "u", "data", "").body, Some("data".to_string()));
    assert_eq!(plan_request("PUT", "u", "data", "").body, Some("data".to_string()));
    assert_eq!(plan_request("PATCH", "u", "data", "").body, Some("data".to_string()));
    assert_eq!(plan_request("GET", "u", "data", "").body, None);
    assert_eq!(plan_request("DELETE", "u", "data", "").body, None);
    assert_eq!(plan_request("POST", "u", "", "").body, None);
}

#[test]
fn header_lines_are_split_at_the_first_colon() {
    let h = request_headers("Accept: text/html\nbroken line\n  X-A :  b:c \r\n");
    assert_eq!(
        h,
        vec![("Accept".to_string(), "text/html".to_string()), ("X-A".to_string(), "b:c".to_string())]
    );
    assert!(request_headers("").is_empty());
}

#[test]
fn the_plan_keeps_url_and_headers() {
    let p = plan_request("get", "http://h.io/x", "", "A: 1");
    assert_eq!(p.url, "http://h.io/x");
    assert_eq!(p.headers, vec![("A".to_string(), "1".to_string())]);
}

#[test]
fn a_json_reply_is_pretty_printed() {
    let headers = vec![
        ("content-type".to_string(), Some("application/json".to_string())),
        ("x-bin".to_string(), None),
    ];
    let r = response_from_reply(200, 37, &headers, Ok("{\"b\":1,\"a\":[true]}".to_string()));
    assert_eq!(r.status, Some("200".to_string()));
    assert_eq!(r.response_time, Some(37));
    assert_eq!(r.body, "{\n  \"a\": [\n    true\n  ],\n  \"b\": 1\n}");
    assert_eq!(r.headers, "content-type: application/json\nx-bin: \n");
}

#[test]
fn a_text_reply_is_kept() {
    let r = response_from_reply(404, 5, &Vec::new(), Ok("not found".to_string()));
    assert_eq!(r.status, Some("404".to_string()));
    assert_eq!(r.body, "not found");
    assert_eq!(r.headers, "");
}

#[test]
fn an_unreadable_body_shows_the_error() {
    let r = response_from_reply(500, 1, &Vec::new(), Err("connection reset".to_string()));
    assert_eq!(r.body, "Error reading response body: connection reset");
}

#[test]
fn a_failed_request_shows_the_error() {
    let r = response_from_error(12, "dns error");
    assert_eq!(r.status, Some("Error".to_string()));
    assert_eq!(r.response_time, Some(12));
    assert_eq!(r.body, "Request failed: dns error");
    assert_eq!(r.headers, "");
}

#[test]
fn column_widths() {
    assert_eq!(app_columns(false, false), (0, 100, 0));
    assert_eq!(app_columns(true, false), (18, 82, 0));
    assert_eq!(app_columns(false, true), (0, 50, 50));
    assert_eq!(app_columns(true, true), (18, 41, 41));
}

#[test]
fn tabs_highlight_the_selected_one() {
    let t = request_tabs(1);
    let labels: Vec<&str> = t.iter().map(|x| x.label.as_str()).collect();
    assert_eq!(labels, vec!["Params", "Headers", "Body"]);
    assert_eq!(t.iter().map(|x| x.selected).collect::<Vec<_>>(), vec![false, true, false]);
    let t = response_tabs(2);
    let labels: Vec<&str> = t.iter().map(|x| x.label.as_str()).collect();
    assert_eq!(labels, vec!["Response", "Headers", "Cookies"]);
    assert!(t[2].selected && !t[0].selected);
}

#[test]
fn status_line_shows_spinner_or_status_and_time() {
    assert_eq!(status_text(true, 3, &Some("200".to_string()), Some(5)), "⠸");
    assert_eq!(status_text(false, 0, &Some("200".to_string()), Some(153)), "200  153ms");
    assert_eq!(status_text(false, 0, &None, Some(7)), "7ms");
    assert_eq!(status_text(false, 0, &Some("Error".to_string()), None), "Error");
    assert_eq!(status_text(false, 0, &None, None), "");
}

#[test]
fn the_name_is_centred_and_at_least_twenty_wide() {
    assert_eq!(name_area(10, 100, 5), (50, 20));
    assert_eq!(name_area(0, 100, 30), (35, 30));
    assert_eq!(name_area(4, 15, 5), (4, 15));
}
