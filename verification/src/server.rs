//! The request router: which handler a method and path select, and the one
//! entry point that takes a raw request apart and builds its reply.

use vstd::prelude::*;
use crate::handlers::{
    get_json_body, handle_delayed, handle_download, handle_get_json, handle_get_text,
    handle_internal_error, handle_post_form, handle_post_json, handle_redirect, handle_upload,
    json_norm_of, post_body, upload_boundary, failure_body, error_body,
};
use crate::jsontext::json_object;
use crate::query::{
    dedup_last_wins, form_pairs_of, last_wins, lossy_of, parse_form_pairs, path_of, query_of,
    split_url,
};
use crate::response::{
    is_file_response, is_json_response, is_preflight_response, is_text_response,
    not_found_response, preflight_response, HttpResponse,
};
use crate::text::str_eq;
use crate::upload::upload_pairs_of;

verus! {

/// How long `/delayed` waits before its response is written, in seconds.
pub const DELAY_SECONDS: u64 = 10;

/// The request methods the service distinguishes.
#[derive(PartialEq, Eq, Structural, Clone, Copy, Debug)]
pub enum Method {
    Get,
    Post,
    Options,
    Other,
}

/// The registered endpoints.
#[derive(PartialEq, Eq, Structural, Clone, Copy, Debug)]
pub enum Route {
    GetText,
    GetJson,
    Redirect,
    Delayed,
    Download,
    InternalError,
    PostJson,
    PostForm,
    Upload,
}

/// The method a request line names.
pub open spec fn method_of(s: Seq<char>) -> Method {
    if s == "GET"@ {
        Method::Get
    } else if s == "POST"@ {
        Method::Post
    } else if s == "OPTIONS"@ {
        Method::Options
    } else {
        Method::Other
    }
}

/// Reads a method name.
pub fn parse_method(s: &str) -> (m: Method)
    ensures
        m == method_of(s@),
{
    if str_eq(s, "GET") {
        Method::Get
    } else if str_eq(s, "POST") {
        Method::Post
    } else if str_eq(s, "OPTIONS") {
        Method::Options
    } else {
        Method::Other
    }
}

/// The route table: which endpoint a method and an exact path select.
/// Methods other than GET and POST select nothing.
pub open spec fn route_of(m: Method, path: Seq<char>) -> Option<Route> {
    if m is Get {
        if path == "/get/text"@ {
            Some(Route::GetText)
        } else if path == "/get/json"@ {
            Some(Route::GetJson)
        } else if path == "/redirect"@ {
            Some(Route::Redirect)
        } else if path == "/delayed"@ {
            Some(Route::Delayed)
        } else if path == "/download"@ {
            Some(Route::Download)
        } else if path == "/error"@ {
            Some(Route::InternalError)
        } else {
            None
        }
    } else if m is Post {
        if path == "/post/json"@ {
            Some(Route::PostJson)
        } else if path == "/post/form"@ {
            Some(Route::PostForm)
        } else if path == "/upload"@ {
            Some(Route::Upload)
        } else {
            None
        }
    } else {
        None
    }
}

/// Looks a path up in the table selected by the method.
pub fn recognize(m: &Method, path: &str) -> (r: Option<Route>)
    ensures
        r == route_of(*m, path@),
{
    match m {
        Method::Get => {
            if str_eq(path, "/get/text") {
                Some(Route::GetText)
            } else if str_eq(path, "/get/json") {
                Some(Route::GetJson)
            } else if str_eq(path, "/redirect") {
                Some(Route::Redirect)
            } else if str_eq(path, "/delayed") {
                Some(Route::Delayed)
            } else if str_eq(path, "/download") {
                Some(Route::Download)
            } else if str_eq(path, "/error") {
                Some(Route::InternalError)
            } else {
                None
            }
        },
        Method::Post => {
            if str_eq(path, "/post/json") {
                Some(Route::PostJson)
            } else if str_eq(path, "/post/form") {
                Some(Route::PostForm)
            } else if str_eq(path, "/upload") {
                Some(Route::Upload)
            } else {
                None
            }
        },
        _ => None,
    }
}

/// One request's reply: the response to write, and how many seconds to wait
/// before writing it.
pub struct Reply {
    pub response: HttpResponse,
    pub delay_seconds: u64,
}

/// What the service owes for a request: the fixed preflight response to any
/// OPTIONS request; each endpoint's exact response under its method and
/// path; a 404 for everything else. Every reply carries the CORS header, and
/// only `/delayed` is delayed.
pub open spec fn reply_correct(
    method: Seq<char>,
    url: Seq<char>,
    headers: Seq<(Seq<char>, Seq<char>)>,
    body: Seq<u8>,
    r: Reply,
) -> bool {
    let m = method_of(method);
    let route = route_of(m, path_of(url));
    let args = last_wins(form_pairs_of(query_of(url)));
    &&& r.response.has_cors_header()
    &&& r.delay_seconds == (if route == Some(Route::Delayed) && !(m is Options) {
        DELAY_SECONDS as int
    } else {
        0
    })
    &&& m is Options ==> is_preflight_response(r.response)
    &&& !(m is Options) ==> {
        &&& route is None ==> is_text_response(r.response, 404, "404 Not Found"@)
        &&& route == Some(Route::GetText) ==> is_text_response(r.response, 200, "Hello"@)
        &&& route == Some(Route::GetJson) ==> is_json_response(
            r.response,
            200,
            get_json_body(args),
        )
        &&& route == Some(Route::Redirect) ==> {
            &&& r.response.status == 302
            &&& r.response.body@ == Seq::<char>::empty()
            &&& r.response.headers_view() == seq![
                ("Location"@, "/get/text"@),
                crate::response::cors_pair(),
            ]
        }
        &&& route == Some(Route::Delayed) ==> is_text_response(
            r.response,
            200,
            "This is a delayed response after 10 seconds"@,
        )
        &&& route == Some(Route::Download) ==> is_file_response(r.response)
        &&& route == Some(Route::InternalError) ==> is_json_response(
            r.response,
            500,
            error_body(),
        )
        &&& route == Some(Route::PostJson) ==> {
            if vstd::utf8::valid_utf8(body) {
                match json_norm_of(vstd::utf8::decode_utf8(body)) {
                    Some(data) => is_json_response(r.response, 200, post_body(args, data)),
                    None => is_json_response(r.response, 400, failure_body()),
                }
            } else {
                is_json_response(r.response, 400, failure_body())
            }
        }
        &&& route == Some(Route::PostForm) ==> is_json_response(
            r.response,
            200,
            post_body(args, json_object(last_wins(form_pairs_of(lossy_of(body))))),
        )
        &&& route == Some(Route::Upload) ==> match upload_boundary(headers) {
            Some(b) => is_json_response(
                r.response,
                200,
                post_body(args, json_object(last_wins(upload_pairs_of(body, b)))),
            ),
            None => is_json_response(r.response, 200, failure_body()),
        }
    }
}

/// Takes one request apart — method, URL, headers, body — and builds the
/// reply the service owes for it.
pub fn handle_request(
    method: &str,
    url: &str,
    headers: &Vec<(String, String)>,
    body: &Vec<u8>,
) -> (r: Reply)
    ensures
        reply_correct(method@, url@, headers.deep_view(), body@, r),
{
    let m = parse_method(method);
    if matches!(m, Method::Options) {
        return Reply { response: preflight_response(), delay_seconds: 0 };
    }
    let (path, query) = split_url(url);
    match recognize(&m, path.as_str()) {
        None => Reply { response: not_found_response(), delay_seconds: 0 },
        Some(route) => {
            let pairs = parse_form_pairs(query.as_str());
            let args = dedup_last_wins(&pairs);
            match route {
                Route::GetText => Reply { response: handle_get_text(), delay_seconds: 0 },
                Route::GetJson => Reply { response: handle_get_json(&args), delay_seconds: 0 },
                Route::Redirect => Reply { response: handle_redirect(), delay_seconds: 0 },
                Route::Delayed => Reply {
                    response: handle_delayed(),
                    delay_seconds: DELAY_SECONDS,
                },
                Route::Download => Reply { response: handle_download(), delay_seconds: 0 },
                Route::InternalError => Reply {
                    response: handle_internal_error(),
                    delay_seconds: 0,
                },
                Route::PostJson => Reply {
                    response: handle_post_json(&args, body),
                    delay_seconds: 0,
                },
                Route::PostForm => Reply {
                    response: handle_post_form(&args, body),
                    delay_seconds: 0,
                },
                Route::Upload => Reply {
                    response: handle_upload(&args, headers, body),
                    delay_seconds: 0,
                },
            }
        },
    }
}

} // verus!

