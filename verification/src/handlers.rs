//! One function per endpoint: each consumes the parsed pieces of a request
//! and builds the exact response the endpoint owes.

use vstd::prelude::*;
use vstd::string::*;
use crate::jsontext::json_object;
use crate::jsontext::json_object_chars;
use crate::query::{dedup_last_wins, last_wins};
use crate::response::{
    create_file_response, create_json_response, create_text_response, is_file_response,
    is_json_response, is_text_response, HttpResponse,
};
use crate::text::{chars_of, seq_eq_nocase, str_eq_nocase, string_from_chars};
use crate::upload::{boundary_of, extract_boundary, upload_field_pairs, upload_pairs_of};

verus! {

/// The body of `/get/json`: success flag and the echoed query arguments.
pub open spec fn get_json_body(args: Seq<(Seq<char>, Seq<char>)>) -> Seq<char> {
    "{\"success\":true,\"args\":"@ + json_object(args) + "}"@
}

/// The body of the echoing POST endpoints: success flag, the echoed query
/// arguments, and the request's data rendered as JSON.
pub open spec fn post_body(args: Seq<(Seq<char>, Seq<char>)>, data: Seq<char>) -> Seq<char> {
    "{\"success\":true,\"args\":"@ + json_object(args) + ",\"data\":"@ + data + "}"@
}

/// The body reported when a request's payload cannot be used.
pub open spec fn failure_body() -> Seq<char> {
    "{\"success\":false}"@
}

/// The body of `/error`.
pub open spec fn error_body() -> Seq<char> {
    "{\"code\":500,\"message\":\"Internal Server Error\"}"@
}

/// What serde_json makes of a text: `None` where the text is not well-formed
/// JSON, else the parsed value written back out.
pub uninterp spec fn json_norm_of(s: Seq<char>) -> Option<Seq<char>>;

/// Relies on serde_json: `from_str` accepts exactly the well-formed JSON
/// texts, `to_string` writes the parsed value back out, and the composition
/// depends on the input text alone.
#[verifier::external_body]
fn normalize_json(s: &str) -> (r: Option<String>)
    ensures
        (r is Some) == (json_norm_of(s@) is Some),
        r matches Some(t) ==> json_norm_of(s@) == Some(t@),
{
    match serde_json::from_str::<serde_json::Value>(s) {
        Ok(v) => Some(v.to_string()),
        Err(_) => None,
    }
}

/// The value of the first header whose name matches `name` up to ASCII case,
/// scanning from position `i`.
pub open spec fn header_lookup_from(
    hs: Seq<(Seq<char>, Seq<char>)>,
    name: Seq<char>,
    i: int,
) -> Option<Seq<char>>
    decreases hs.len() - i,
{
    if i < 0 || i >= hs.len() {
        None
    } else if seq_eq_nocase(hs[i].0, name) {
        Some(hs[i].1)
    } else {
        header_lookup_from(hs, name, i + 1)
    }
}

/// The value of the first header whose name matches `name` up to ASCII case.
pub open spec fn header_lookup(hs: Seq<(Seq<char>, Seq<char>)>, name: Seq<char>) -> Option<
    Seq<char>,
> {
    header_lookup_from(hs, name, 0)
}

/// Finds a header by name, up to ASCII case.
pub fn find_header(headers: &Vec<(String, String)>, name: &str) -> (r: Option<String>)
    ensures
        match r {
            Some(v) => header_lookup(headers.deep_view(), name@) == Some(v@),
            None => header_lookup(headers.deep_view(), name@) is None,
        },
{
    let ghost hv = headers.deep_view();
    let mut i: usize = 0;
    while i < headers.len()
        invariant
            i <= headers.len(),
            hv == headers.deep_view(),
            hv.len() == headers.len(),
            forall|j: int|
                0 <= j < headers.len() ==> #[trigger] hv[j] == (headers@[j].0@, headers@[j].1@),
            header_lookup(hv, name@) == header_lookup_from(hv, name@, i as int),
        decreases headers.len() - i,
    {
        if str_eq_nocase(headers[i].0.as_str(), name) {
            return Some(headers[i].1.clone());
        }
        i = i + 1;
    }
    None
}

fn append_str(out: &mut Vec<char>, s: &str)
    ensures
        final(out)@ == old(out)@ + s@,
{
    let mut tmp = chars_of(s);
    out.append(&mut tmp);
}

/// `/get/text`: the fixed greeting.
pub fn handle_get_text() -> (r: HttpResponse)
    ensures
        is_text_response(r, 200, "Hello"@),
{
    create_text_response("Hello")
}

/// `/get/json`: echoes the query arguments.
pub fn handle_get_json(args: &Vec<(String, String)>) -> (r: HttpResponse)
    ensures
        is_json_response(r, 200, get_json_body(args.deep_view())),
{
    let mut out: Vec<char> = Vec::new();
    append_str(&mut out, "{\"success\":true,\"args\":");
    let mut obj = json_object_chars(args);
    out.append(&mut obj);
    append_str(&mut out, "}");
    let body = string_from_chars(&out);
    proof {
        assert(body@ =~= get_json_body(args.deep_view()));
    }
    create_json_response(body.as_str())
}

/// `/redirect`: an empty 302 pointing at `/get/text`.
pub fn handle_redirect() -> (r: HttpResponse)
    ensures
        r.status == 302,
        r.body@ == Seq::<char>::empty(),
        r.headers_view() == seq![
            ("Location"@, "/get/text"@),
            crate::response::cors_pair(),
        ],
        r.has_cors_header(),
{
    let mut r = HttpResponse { status: 302, headers: Vec::new(), body: String::new() };
    let loc = String::from_str("Location");
    let target = String::from_str("/get/text");
    r.headers.push((loc, target));
    crate::response::add_cors_headers(&mut r);
    proof {
        assert(r.headers_view() =~= seq![
            ("Location"@, "/get/text"@),
            crate::response::cors_pair(),
        ]);
    }
    r
}

/// `/delayed`: the text served once the delay has elapsed.
pub fn handle_delayed() -> (r: HttpResponse)
    ensures
        is_text_response(r, 200, "This is a delayed response after 10 seconds"@),
{
    create_text_response("This is a delayed response after 10 seconds")
}

/// `/download`: the fixed file as an attachment.
pub fn handle_download() -> (r: HttpResponse)
    ensures
        is_file_response(r),
{
    create_file_response()
}

/// `/error`: a canned 500.
pub fn handle_internal_error() -> (r: HttpResponse)
    ensures
        is_json_response(r, 500, error_body()),
{
    let mut r = create_json_response("{\"code\":500,\"message\":\"Internal Server Error\"}");
    r.status = 500;
    r
}

/// `/post/json`: echoes the query arguments and the body's JSON value; a
/// body that is not UTF-8 text or not well-formed JSON earns a 400.
pub fn handle_post_json(args: &Vec<(String, String)>, body: &Vec<u8>) -> (r: HttpResponse)
    ensures
        !vstd::utf8::valid_utf8(body@) ==> is_json_response(r, 400, failure_body()),
        vstd::utf8::valid_utf8(body@) ==> match json_norm_of(vstd::utf8::decode_utf8(body@)) {
            Some(data) => is_json_response(r, 200, post_body(args.deep_view(), data)),
            None => is_json_response(r, 400, failure_body()),
        },
        r.has_cors_header(),
{
    let text = match crate::upload::utf8_text(body) {
        Some(t) => t,
        None => {
            let mut r = create_json_response("{\"success\":false}");
            r.status = 400;
            return r;
        },
    };
    match normalize_json(text.as_str()) {
        Some(data) => {
            let mut out: Vec<char> = Vec::new();
            append_str(&mut out, "{\"success\":true,\"args\":");
            let mut obj = json_object_chars(args);
            out.append(&mut obj);
            append_str(&mut out, ",\"data\":");
            append_str(&mut out, data.as_str());
            append_str(&mut out, "}");
            let body_text = string_from_chars(&out);
            proof {
                assert(body_text@ =~= post_body(
                    args.deep_view(),
                    json_norm_of(vstd::utf8::decode_utf8(body@)).unwrap(),
                ));
            }
            create_json_response(body_text.as_str())
        },
        None => {
            let mut r = create_json_response("{\"success\":false}");
            r.status = 400;
            r
        },
    }
}

/// `/post/form`: echoes the query arguments and the body decoded as a form,
/// duplicate keys resolved by the last occurrence.
pub fn handle_post_form(args: &Vec<(String, String)>, body: &Vec<u8>) -> (r: HttpResponse)
    ensures
        is_json_response(
            r,
            200,
            post_body(
                args.deep_view(),
                json_object(
                    last_wins(crate::query::form_pairs_of(crate::query::lossy_of(body@))),
                ),
            ),
        ),
        r.has_cors_header(),
{
    let text = crate::query::utf8_lossy(body);
    let pairs = crate::query::parse_form_pairs(text.as_str());
    let data = dedup_last_wins(&pairs);
    let mut out: Vec<char> = Vec::new();
    append_str(&mut out, "{\"success\":true,\"args\":");
    let mut obj = json_object_chars(args);
    out.append(&mut obj);
    append_str(&mut out, ",\"data\":");
    let mut dataobj = json_object_chars(&data);
    out.append(&mut dataobj);
    append_str(&mut out, "}");
    let body_text = string_from_chars(&out);
    proof {
        assert(body_text@ =~= post_body(
            args.deep_view(),
            json_object(last_wins(crate::query::form_pairs_of(crate::query::lossy_of(body@)))),
        ));
    }
    create_json_response(body_text.as_str())
}

/// The boundary a request's headers name, if any: the first `Content-Type`
/// header is read, and the boundary is pulled out of its value.
pub open spec fn upload_boundary(hs: Seq<(Seq<char>, Seq<char>)>) -> Option<Seq<char>> {
    match header_lookup(hs, "Content-Type"@) {
        Some(ct) => boundary_of(ct),
        None => None,
    }
}

/// `/upload`: with a boundary, echoes each part's name and rendered value;
/// without one, reports failure.
pub fn handle_upload(
    args: &Vec<(String, String)>,
    headers: &Vec<(String, String)>,
    body: &Vec<u8>,
) -> (r: HttpResponse)
    ensures
        match upload_boundary(headers.deep_view()) {
            Some(b) => is_json_response(
                r,
                200,
                post_body(args.deep_view(), json_object(last_wins(upload_pairs_of(body@, b)))),
            ),
            None => is_json_response(r, 200, failure_body()),
        },
        r.has_cors_header(),
{
    let boundary = match find_header(headers, "Content-Type") {
        Some(ct) => extract_boundary(ct.as_str()),
        None => None,
    };
    match boundary {
        Some(b) => {
            let pairs = upload_field_pairs(body, b.as_str());
            let data = dedup_last_wins(&pairs);
            let mut out: Vec<char> = Vec::new();
            append_str(&mut out, "{\"success\":true,\"args\":");
            let mut obj = json_object_chars(args);
            out.append(&mut obj);
            append_str(&mut out, ",\"data\":");
            let mut dataobj = json_object_chars(&data);
            out.append(&mut dataobj);
            append_str(&mut out, "}");
            let body_text = string_from_chars(&out);
            proof {
                assert(body_text@ =~= post_body(
                    args.deep_view(),
                    json_object(
                        last_wins(
                            upload_pairs_of(
                                body@,
                                upload_boundary(headers.deep_view()).unwrap(),
                            ),
                        ),
                    ),
                ));
            }
            create_json_response(body_text.as_str())
        },
        None => create_json_response("{\"success\":false}"),
    }
}

} // verus!
