use fixture_server::server::handle_request;
use fixture_server::server::Reply;

fn request(method: &str, url: &str, headers: Vec<(&str, &str)>, body: &[u8]) -> Reply {
    let hs: Vec<(String, String)> = headers
        .into_iter()
        .map(|(n, v)| (n.to_string(), v.to_string()))
        .collect();
    let b: Vec<u8> = body.to_vec();
    handle_request(method, url, &hs, &b)
}

fn has_header(r: &fixture_server::response::HttpResponse, name: &str, value: &str) -> bool {
    r.headers.iter().any(|(n, v)| n == name && v == value)
}

fn has_cors(r: &fixture_server::response::HttpResponse) -> bool {
    has_header(r, "Access-Control-Allow-Origin", "*")
}

#[test]
fn get_text_is_hello() {
    let r = request("GET", "/get/text", vec![], b"");
    assert_eq!(r.response.status, 200);
    assert_eq!(r.response.body, "Hello");
    assert!(has_header(&r.response, "Content-Type", "text/plain"));
    assert!(has_cors(&r.response));
    assert_eq!(r.delay_seconds, 0);
}

#[test]
fn get_text_ignores_query_and_body() {
    let r = request("GET", "/get/text?x=1&y=2", vec![("X-Extra", "yes")], b"ignored");
    assert_eq!(r.response.status, 200);
    assert_eq!(r.response.body, "Hello");
    assert!(has_cors(&r.response));
}

#[test]
fn get_json_echoes_args() {
    let r = request("GET", "/get/json?x=y", vec![], b"");
    assert_eq!(r.response.status, 200);
    assert_eq!(r.response.body, "{\"success\":true,\"args\":{\"x\":\"y\"}}");
    assert!(has_header(&r.response, "Content-Type", "application/json"));
    assert!(has_cors(&r.response));
}

#[test]
fn get_json_empty_query() {
    let r = request("GET", "/get/json", vec![], b"");
    assert_eq!(r.response.body, "{\"success\":true,\"args\":{}}");
}

#[test]
fn get_json_last_duplicate_wins() {
    let r = request("GET", "/get/json?a=1&b=2&a=3", vec![], b"");
    assert_eq!(
        r.response.body,
        "{\"success\":true,\"args\":{\"a\":\"3\",\"b\":\"2\"}}"
    );
}

#[test]
fn get_json_percent_decoding() {
    let r = request("GET", "/get/json?%23first=%25try%25&plus=a+b", vec![], b"");
    assert_eq!(
        r.response.body,
        "{\"success\":true,\"args\":{\"#first\":\"%try%\",\"plus\":\"a b\"}}"
    );
}

#[test]
fn get_json_escapes_values() {
    let r = request("GET", "/get/json?q=%22quoted%22%09tab", vec![], b"");
    assert_eq!(
        r.response.body,
        "{\"success\":true,\"args\":{\"q\":\"\\\"quoted\\\"\\ttab\"}}"
    );
}

#[test]
fn redirect_points_at_get_text() {
    let r = request("GET", "/redirect", vec![], b"");
    assert_eq!(r.response.status, 302);
    assert_eq!(r.response.body, "");
    assert!(has_header(&r.response, "Location", "/get/text"));
    assert!(has_cors(&r.response));
}

#[test]
fn redirect_for_any_input() {
    let r = request("GET", "/redirect?whatever=1", vec![("A", "b")], b"body");
    assert_eq!(r.response.status, 302);
    assert!(has_header(&r.response, "Location", "/get/text"));
}

#[test]
fn delayed_reply_is_marked_delayed() {
    let r = request("GET", "/delayed", vec![], b"");
    assert_eq!(r.delay_seconds, 10);
    assert_eq!(r.response.status, 200);
    assert_eq!(r.response.body, "This is a delayed response after 10 seconds");
    assert!(has_cors(&r.response));
}

#[test]
fn download_is_attachment() {
    let r = request("GET", "/download", vec![], b"");
    assert_eq!(r.response.status, 200);
    assert_eq!(r.response.body, "Hello, this is the content of the text file.");
    assert!(has_header(
        &r.response,
        "Content-Disposition",
        "attachment; filename=\"example.txt\""
    ));
    assert!(has_cors(&r.response));
}

#[test]
fn error_is_canned_500() {
    let r = request("GET", "/error", vec![], b"");
    assert_eq!(r.response.status, 500);
    assert_eq!(
        r.response.body,
        "{\"code\":500,\"message\":\"Internal Server Error\"}"
    );
    assert!(has_cors(&r.response));
}

#[test]
fn post_json_echoes_query_and_data() {
    let r = request("POST", "/post/json?x=y", vec![], b"{\"a\":1}");
    assert_eq!(r.response.status, 200);
    assert_eq!(
        r.response.body,
        "{\"success\":true,\"args\":{\"x\":\"y\"},\"data\":{\"a\":1}}"
    );
    assert!(has_cors(&r.response));
}

#[test]
fn post_json_normalizes_body() {
    let r = request("POST", "/post/json", vec![], b"  { \"a\" :  1 }  ");
    assert_eq!(
        r.response.body,
        "{\"success\":true,\"args\":{},\"data\":{\"a\":1}}"
    );
}

#[test]
fn post_json_malformed_is_rejected() {
    let r = request("POST", "/post/json", vec![], b"{oops");
    assert_eq!(r.response.status, 400);
    assert_eq!(r.response.body, "{\"success\":false}");
    assert!(has_cors(&r.response));
}

#[test]
fn post_json_non_utf8_is_rejected() {
    let r = request("POST", "/post/json", vec![], &[0xff, 0xfe]);
    assert_eq!(r.response.status, 400);
    assert_eq!(r.response.body, "{\"success\":false}");
}

#[test]
fn post_form_decodes_pairs() {
    let r = request("POST", "/post/form", vec![], b"a=1&b=2");
    assert_eq!(r.response.status, 200);
    assert_eq!(
        r.response.body,
        "{\"success\":true,\"args\":{},\"data\":{\"a\":\"1\",\"b\":\"2\"}}"
    );
    assert!(has_cors(&r.response));
}

#[test]
fn post_form_last_duplicate_wins() {
    let r = request("POST", "/post/form?k=v", vec![], b"a=1&a=2");
    assert_eq!(
        r.response.body,
        "{\"success\":true,\"args\":{\"k\":\"v\"},\"data\":{\"a\":\"2\"}}"
    );
}

#[test]
fn upload_without_boundary_fails() {
    let r = request("POST", "/upload", vec![], b"anything");
    assert_eq!(r.response.status, 200);
    assert_eq!(r.response.body, "{\"success\":false}");
    assert!(has_cors(&r.response));
}

#[test]
fn upload_content_type_without_boundary_fails() {
    let r = request("POST", "/upload", vec![("Content-Type", "text/plain")], b"x");
    assert_eq!(r.response.body, "{\"success\":false}");
}

#[test]
fn upload_text_field_round_trips() {
    let body = b"--X\r\nContent-Disposition: form-data; name=\"foo\"\r\n\r\nbar\r\n--X--\r\n";
    let r = request(
        "POST",
        "/upload",
        vec![("Content-Type", "multipart/form-data; boundary=X")],
        body,
    );
    assert_eq!(r.response.status, 200);
    assert_eq!(
        r.response.body,
        "{\"success\":true,\"args\":{},\"data\":{\"foo\":\"bar\"}}"
    );
    assert!(has_cors(&r.response));
}

#[test]
fn upload_binary_field_reports_byte_count() {
    let mut body: Vec<u8> = Vec::new();
    body.extend_from_slice(b"--X\r\nContent-Disposition: form-data; name=\"blob\"\r\n\r\n");
    body.extend_from_slice(&[0xff, 0xfe, 0xfd]);
    body.extend_from_slice(b"\r\n--X--\r\n");
    let r = request(
        "POST",
        "/upload",
        vec![("Content-Type", "multipart/form-data; boundary=X")],
        &body,
    );
    assert_eq!(
        r.response.body,
        "{\"success\":true,\"args\":{},\"data\":{\"blob\":\"(binary data: 3 bytes)\"}}"
    );
}

#[test]
fn upload_header_name_case_insensitive() {
    let body = b"--X\r\nContent-Disposition: form-data; name=\"foo\"\r\n\r\nbar\r\n--X--\r\n";
    let r = request(
        "POST",
        "/upload",
        vec![("content-type", "multipart/form-data; boundary=X")],
        body,
    );
    assert_eq!(
        r.response.body,
        "{\"success\":true,\"args\":{},\"data\":{\"foo\":\"bar\"}}"
    );
}

#[test]
fn post_form_invalid_utf8_uses_replacement() {
    let r = request("POST", "/post/form", vec![], &[0xff, b'=', b'1']);
    assert_eq!(
        r.response.body,
        "{\"success\":true,\"args\":{},\"data\":{\"\u{fffd}\":\"1\"}}"
    );
}

#[test]
fn unregistered_path_is_404() {
    let r = request("GET", "/nonexistent", vec![], b"");
    assert_eq!(r.response.status, 404);
    assert_eq!(r.response.body, "404 Not Found");
    assert!(has_cors(&r.response));
}

#[test]
fn method_mismatch_is_404() {
    let r = request("POST", "/get/text", vec![], b"");
    assert_eq!(r.response.status, 404);
    let r = request("GET", "/upload", vec![], b"");
    assert_eq!(r.response.status, 404);
}

#[test]
fn unknown_method_is_404() {
    let r = request("PUT", "/get/text", vec![], b"");
    assert_eq!(r.response.status, 404);
    assert_eq!(r.response.body, "404 Not Found");
    assert!(has_cors(&r.response));
}

#[test]
fn options_is_preflight_on_any_path() {
    for url in ["/get/text", "/nonexistent", "/upload?q=1"] {
        let r = request("OPTIONS", url, vec![], b"");
        assert_eq!(r.response.status, 200);
        assert_eq!(r.response.body, "Hello from TinyHTTP with CORS!");
        assert!(has_header(
            &r.response,
            "Access-Control-Allow-Methods",
            "GET, POST, PUT, DELETE"
        ));
        assert!(has_header(
            &r.response,
            "Access-Control-Allow-Headers",
            "Content-Type"
        ));
        assert!(has_cors(&r.response));
    }
}

#[test]
fn every_response_carries_cors() {
    let cases: Vec<Reply> = vec![
        request("GET", "/get/text", vec![], b""),
        request("GET", "/get/json?a=b", vec![], b""),
        request("GET", "/redirect", vec![], b""),
        request("GET", "/delayed", vec![], b""),
        request("GET", "/download", vec![], b""),
        request("GET", "/error", vec![], b""),
        request("POST", "/post/json", vec![], b"1"),
        request("POST", "/post/json", vec![], b"not json"),
        request("POST", "/post/form", vec![], b"a=1"),
        request("POST", "/upload", vec![], b""),
        request("GET", "/nope", vec![], b""),
        request("DELETE", "/get/text", vec![], b""),
        request("OPTIONS", "/get/text", vec![], b""),
    ];
    for r in &cases {
        assert!(has_cors(&r.response));
    }
}
