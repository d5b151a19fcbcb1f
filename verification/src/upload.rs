//! The upload endpoint's parsing work: pulling the boundary out of a
//! `Content-Type` value, reading the multipart body, and rendering each
//! part as text or as a byte-count placeholder.

use vstd::prelude::*;
use vstd::string::*;
use std::io::Read;
use crate::text::{chars_of, dec_chars, dec_str, find_first, first_occurrence, string_from_chars};

verus! {

/// The marker that introduces the boundary in a `Content-Type` value.
pub open spec fn boundary_needle() -> Seq<char> {
    seq!['b', 'o', 'u', 'n', 'd', 'a', 'r', 'y', '=']
}

/// The boundary named by a `Content-Type` value: the text between the first
/// `boundary=` and the next `boundary=` if any, else to the end; `None` when
/// no `boundary=` occurs.
pub open spec fn boundary_of(ct: Seq<char>) -> Option<Seq<char>> {
    if first_occurrence(ct, boundary_needle()) < 0 {
        None
    } else {
        let rest = ct.skip(first_occurrence(ct, boundary_needle()) + 9);
        if first_occurrence(rest, boundary_needle()) < 0 {
            Some(rest)
        } else {
            Some(rest.take(first_occurrence(rest, boundary_needle())))
        }
    }
}

/// Finds the boundary in a `Content-Type` value.
pub fn extract_boundary(ct: &str) -> (r: Option<String>)
    ensures
        match r {
            Some(b) => boundary_of(ct@) == Some(b@),
            None => boundary_of(ct@) is None,
        },
{
    proof {
        reveal_strlit("boundary=");
        assert("boundary="@ =~= boundary_needle());
    }
    let n: usize = ct.unicode_len();
    match find_first(ct, "boundary=") {
        None => None,
        Some(i) => {
            let rest = ct.substring_char(i + 9, n);
            match find_first(rest, "boundary=") {
                None => Some(rest.to_owned()),
                Some(j) => Some(rest.substring_char(0, j).to_owned()),
            }
        },
    }
}

/// The parts of a multipart body under the given boundary: each part's field
/// name and raw bytes, in order, up to the first part that does not parse.
pub uninterp spec fn multipart_fields_of(data: Seq<u8>, boundary: Seq<char>) -> Seq<
    (Seq<char>, Seq<u8>),
>;

/// Relies on multipart's server-side reader (`Multipart::with_body` and
/// `read_entry`): yields each part's field name and bytes in order, stopping
/// at the first part that does not parse, a function of the body bytes and
/// the boundary alone.
#[verifier::external_body]
fn read_multipart_fields(data: &Vec<u8>, boundary: &str) -> (r: Vec<(String, Vec<u8>)>)
    ensures
        r.deep_view() == multipart_fields_of(data@, boundary@),
{
    let cursor = std::io::Cursor::new(data.clone());
    let mut mp = multipart::server::Multipart::with_body(cursor, boundary);
    let mut out: Vec<(String, Vec<u8>)> = Vec::new();
    while let Ok(Some(mut field)) = mp.read_entry() {
        let mut bytes = Vec::new();
        if field.data.read_to_end(&mut bytes).is_err() {
            break ;
        }
        out.push((field.headers.name.to_string(), bytes));
    }
    out
}

/// Relies on std's `str::from_utf8`: succeeds exactly on valid UTF-8 and
/// decodes it.
#[verifier::external_body]
pub(crate) fn utf8_text(b: &Vec<u8>) -> (r: Option<String>)
    ensures
        (r is Some) == vstd::utf8::valid_utf8(b@),
        r matches Some(s) ==> s@ == vstd::utf8::decode_utf8(b@),
{
    match std::str::from_utf8(b.as_slice()) {
        Ok(s) => Some(s.to_owned()),
        Err(_) => None,
    }
}

/// What one uploaded part contributes to the response: its text when its
/// bytes are valid UTF-8, otherwise a placeholder naming the byte count.
pub open spec fn field_value_of(bytes: Seq<u8>) -> Seq<char> {
    if vstd::utf8::valid_utf8(bytes) {
        vstd::utf8::decode_utf8(bytes)
    } else {
        "(binary data: "@ + dec_str(bytes.len() as int) + " bytes)"@
    }
}

/// Renders one part's bytes as the value the response will carry.
pub fn render_field_value(bytes: &Vec<u8>) -> (r: String)
    ensures
        r@ == field_value_of(bytes@),
{
    match utf8_text(bytes) {
        Some(s) => s,
        None => {
            let mut out = chars_of("(binary data: ");
            let mut digits = dec_chars(bytes.len() as u64);
            out.append(&mut digits);
            let mut tail = chars_of(" bytes)");
            out.append(&mut tail);
            proof {
                assert(out@ =~= field_value_of(bytes@));
            }
            string_from_chars(&out)
        },
    }
}

/// Each part's name beside its rendered value.
pub open spec fn render_fields(fs: Seq<(Seq<char>, Seq<u8>)>) -> Seq<(Seq<char>, Seq<char>)> {
    Seq::new(fs.len(), |i: int| (fs[i].0, field_value_of(fs[i].1)))
}

/// The (field name, rendered value) pairs of a multipart body.
pub open spec fn upload_pairs_of(data: Seq<u8>, boundary: Seq<char>) -> Seq<
    (Seq<char>, Seq<char>),
> {
    render_fields(multipart_fields_of(data, boundary))
}

/// Reads the multipart body and renders each part's value.
pub fn upload_field_pairs(data: &Vec<u8>, boundary: &str) -> (r: Vec<(String, String)>)
    ensures
        r.deep_view() == upload_pairs_of(data@, boundary@),
{
    let fields = read_multipart_fields(data, boundary);
    let ghost fs = fields.deep_view();
    let mut r: Vec<(String, String)> = Vec::new();
    let mut i: usize = 0;
    while i < fields.len()
        invariant
            i <= fields.len(),
            fs == fields.deep_view(),
            fs.len() == fields.len(),
            fs == multipart_fields_of(data@, boundary@),
            forall|j: int|
                0 <= j < fields.len() ==> #[trigger] fs[j] == (fields@[j].0@, fields@[j].1@),
            r@.len() == i,
            forall|m: int|
                0 <= m < i ==> #[trigger] r@[m].deep_view() == (fs[m].0, field_value_of(fs[m].1)),
        decreases fields.len() - i,
    {
        let name = fields[i].0.clone();
        let value = render_field_value(&fields[i].1);
        let ghost gname = name@;
        let ghost gvalue = value@;
        r.push((name, value));
        proof {
            assert(r@[i as int].deep_view() == (gname, gvalue));
        }
        i = i + 1;
    }
    proof {
        assert(r.deep_view() =~= upload_pairs_of(data@, boundary@));
    }
    r
}

} // verus!
