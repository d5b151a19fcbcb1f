use fixture_server::query::dedup_last_wins;
use fixture_server::query::split_url;
use fixture_server::server::{parse_method, recognize, Method, Route};
use fixture_server::text::{dec_chars, find_first, str_eq_nocase};
use fixture_server::upload::extract_boundary;

fn pairs(ps: &[(&str, &str)]) -> Vec<(String, String)> {
    ps.iter().map(|(a, b)| (a.to_string(), b.to_string())).collect()
}

#[test]
fn split_url_separates_path_and_query() {
    let (p, q) = split_url("/get/json?a=1&b=2");
    assert_eq!(p, "/get/json");
    assert_eq!(q, "a=1&b=2");
    let (p, q) = split_url("/get/text");
    assert_eq!(p, "/get/text");
    assert_eq!(q, "");
    let (p, q) = split_url("/x??y");
    assert_eq!(p, "/x");
    assert_eq!(q, "?y");
}

#[test]
fn dedup_keeps_first_position_last_value() {
    let d = dedup_last_wins(&pairs(&[("a", "1"), ("b", "2"), ("a", "3")]));
    assert_eq!(d, pairs(&[("a", "3"), ("b", "2")]));
    let d = dedup_last_wins(&pairs(&[]));
    assert_eq!(d, pairs(&[]));
}

#[test]
fn boundary_is_text_after_marker() {
    assert_eq!(
        extract_boundary("multipart/form-data; boundary=abc123"),
        Some("abc123".to_string())
    );
    assert_eq!(extract_boundary("text/plain"), None);
    assert_eq!(
        extract_boundary("x; boundary=abboundary=cd"),
        Some("ab".to_string())
    );
}

#[test]
fn methods_parse_exactly() {
    assert_eq!(parse_method("GET"), Method::Get);
    assert_eq!(parse_method("POST"), Method::Post);
    assert_eq!(parse_method("OPTIONS"), Method::Options);
    assert_eq!(parse_method("PATCH"), Method::Other);
    assert_eq!(parse_method("get"), Method::Other);
}

#[test]
fn routes_match_exact_paths_only() {
    assert_eq!(recognize(&Method::Get, "/get/text"), Some(Route::GetText));
    assert_eq!(recognize(&Method::Get, "/get/text/"), None);
    assert_eq!(recognize(&Method::Get, "/post/json"), None);
    assert_eq!(recognize(&Method::Post, "/post/json"), Some(Route::PostJson));
    assert_eq!(recognize(&Method::Other, "/get/text"), None);
}

#[test]
fn find_first_returns_leftmost_match() {
    assert_eq!(find_first("hello world", "o"), Some(4));
    assert_eq!(find_first("hello", "lo"), Some(3));
    assert_eq!(find_first("hello", "z"), None);
    assert_eq!(find_first("", "z"), None);
}

#[test]
fn decimal_rendering_is_exact() {
    assert_eq!(dec_chars(0).into_iter().collect::<String>(), "0");
    assert_eq!(dec_chars(7).into_iter().collect::<String>(), "7");
    assert_eq!(dec_chars(1234567890).into_iter().collect::<String>(), "1234567890");
}

#[test]
fn header_names_match_any_ascii_case() {
    assert!(str_eq_nocase("Content-Type", "content-type"));
    assert!(str_eq_nocase("CONTENT-TYPE", "Content-Type"));
    assert!(!str_eq_nocase("Content-Type", "Content-Typ"));
}
