//! The outgoing-response model: a status code, a header list and a text body,
//! together with the builders every endpoint shares.

use vstd::prelude::*;
use vstd::string::*;

verus! {

/// An outgoing HTTP response: status code, headers in the order they are
/// written on the wire, and the body text.
pub struct HttpResponse {
    pub status: u16,
    pub headers: Vec<(String, String)>,
    pub body: String,
}

impl HttpResponse {
    /// The headers as a sequence of (name, value) character sequences.
    pub open spec fn headers_view(&self) -> Seq<(Seq<char>, Seq<char>)> {
        self.headers@.map_values(|h: (String, String)| (h.0@, h.1@))
    }

    /// The response carries a header with exactly this name and value.
    pub open spec fn has_header(&self, name: Seq<char>, value: Seq<char>) -> bool {
        exists|i: int|
            0 <= i < self.headers_view().len() && self.headers_view()[i] == (name, value)
    }

    /// Every response the service builds carries the permissive CORS header.
    pub open spec fn has_cors_header(&self) -> bool {
        self.has_header("Access-Control-Allow-Origin"@, "*"@)
    }
}

/// The `Access-Control-Allow-Origin: *` header pair.
pub open spec fn cors_pair() -> (Seq<char>, Seq<char>) {
    ("Access-Control-Allow-Origin"@, "*"@)
}

/// The headers of a plain-text response.
pub open spec fn text_headers() -> Seq<(Seq<char>, Seq<char>)> {
    seq![("Content-Type"@, "text/plain"@), cors_pair()]
}

/// The headers of a JSON response.
pub open spec fn json_headers() -> Seq<(Seq<char>, Seq<char>)> {
    seq![("Content-Type"@, "application/json"@), cors_pair()]
}

/// The headers of the download response: text content offered as an
/// attachment.
pub open spec fn file_headers() -> Seq<(Seq<char>, Seq<char>)> {
    seq![
        ("Content-Type"@, "text/plain"@),
        ("Content-Disposition"@, "attachment; filename=\"example.txt\""@),
        cors_pair(),
    ]
}

/// The headers of the CORS preflight response.
pub open spec fn preflight_headers() -> Seq<(Seq<char>, Seq<char>)> {
    seq![
        ("Access-Control-Allow-Methods"@, "GET, POST, PUT, DELETE"@),
        ("Access-Control-Allow-Headers"@, "Content-Type"@),
        cors_pair(),
    ]
}

/// A plain-text response with this status and body.
pub open spec fn is_text_response(r: HttpResponse, status: int, body: Seq<char>) -> bool {
    &&& r.status == status
    &&& r.body@ == body
    &&& r.headers_view() == text_headers()
}

/// A JSON response with this status and body.
pub open spec fn is_json_response(r: HttpResponse, status: int, body: Seq<char>) -> bool {
    &&& r.status == status
    &&& r.body@ == body
    &&& r.headers_view() == json_headers()
}

/// The fixed text the download endpoint serves.
pub open spec fn file_text() -> Seq<char> {
    "Hello, this is the content of the text file."@
}

/// The download response: the fixed file text, offered as an attachment.
pub open spec fn is_file_response(r: HttpResponse) -> bool {
    &&& r.status == 200
    &&& r.body@ == file_text()
    &&& r.headers_view() == file_headers()
}

/// The fixed CORS preflight response.
pub open spec fn is_preflight_response(r: HttpResponse) -> bool {
    &&& r.status == 200
    &&& r.body@ == "Hello from TinyHTTP with CORS!"@
    &&& r.headers_view() == preflight_headers()
}

/// Appends the `Access-Control-Allow-Origin: *` header.
pub fn add_cors_headers(response: &mut HttpResponse)
    ensures
        final(response).status == old(response).status,
        final(response).body == old(response).body,
        final(response).headers_view() == old(response).headers_view().push(cors_pair()),
        final(response).has_cors_header(),
{
    let name = String::from_str("Access-Control-Allow-Origin");
    let value = String::from_str("*");
    response.headers.push((name, value));
    proof {
        assert(response.headers_view() =~= old(response).headers_view().push(cors_pair()));
        let hv = response.headers_view();
        assert(hv[hv.len() - 1] == cors_pair());
    }
}

fn push_header(response: &mut HttpResponse, name: &str, value: &str)
    ensures
        final(response).status == old(response).status,
        final(response).body == old(response).body,
        final(response).headers_view() == old(response).headers_view().push((name@, value@)),
{
    let n = String::from_str(name);
    let v = String::from_str(value);
    response.headers.push((n, v));
    proof {
        assert(response.headers_view() =~= old(response).headers_view().push((name@, value@)));
    }
}

/// A 200 text response: `Content-Type: text/plain`, then the CORS header.
pub fn create_text_response(body: &str) -> (r: HttpResponse)
    ensures
        is_text_response(r, 200, body@),
        r.has_cors_header(),
{
    let mut r = HttpResponse { status: 200, headers: Vec::new(), body: String::from_str(body) };
    push_header(&mut r, "Content-Type", "text/plain");
    add_cors_headers(&mut r);
    proof {
        assert(r.headers_view() =~= text_headers());
    }
    r
}

/// A 200 JSON response: `Content-Type: application/json`, then the CORS
/// header.
pub fn create_json_response(body: &str) -> (r: HttpResponse)
    ensures
        is_json_response(r, 200, body@),
        r.has_cors_header(),
{
    let mut r = HttpResponse { status: 200, headers: Vec::new(), body: String::from_str(body) };
    push_header(&mut r, "Content-Type", "application/json");
    add_cors_headers(&mut r);
    proof {
        assert(r.headers_view() =~= json_headers());
    }
    r
}

/// The download response: fixed text content named as an attachment.
pub fn create_file_response() -> (r: HttpResponse)
    ensures
        is_file_response(r),
        r.has_cors_header(),
{
    let mut r = HttpResponse {
        status: 200,
        headers: Vec::new(),
        body: String::from_str("Hello, this is the content of the text file."),
    };
    push_header(&mut r, "Content-Type", "text/plain");
    push_header(&mut r, "Content-Disposition", "attachment; filename=\"example.txt\"");
    add_cors_headers(&mut r);
    proof {
        assert(r.headers_view() =~= file_headers());
    }
    r
}

/// The fixed response to a CORS preflight request.
pub fn preflight_response() -> (r: HttpResponse)
    ensures
        is_preflight_response(r),
        r.has_cors_header(),
{
    let mut r = HttpResponse {
        status: 200,
        headers: Vec::new(),
        body: String::from_str("Hello from TinyHTTP with CORS!"),
    };
    push_header(&mut r, "Access-Control-Allow-Methods", "GET, POST, PUT, DELETE");
    push_header(&mut r, "Access-Control-Allow-Headers", "Content-Type");
    add_cors_headers(&mut r);
    proof {
        assert(r.headers_view() =~= preflight_headers());
    }
    r
}

/// The response to any unroutable request.
pub fn not_found_response() -> (r: HttpResponse)
    ensures
        is_text_response(r, 404, "404 Not Found"@),
        r.has_cors_header(),
{
    let mut r = create_text_response("404 Not Found");
    r.status = 404;
    proof {
        assert(r.headers_view()[1] == cors_pair());
    }
    r
}

} // verus!
