use vstd::prelude::*;
use crate::json::{json_parse, parse_json};

verus! {

/// A response body, read as JSON where it can be.
#[derive(Debug)]
pub enum BodyValue {
    /// The body was empty or whitespace only.
    Null,
    /// The body was one JSON value.
    Json(serde_json::Value),
    /// The body was not JSON; its text is kept as a string.
    Text(String),
}

/// What is written for one response.
#[derive(Debug)]
pub enum Output {
    /// The body alone.
    Body(BodyValue),
    /// Status, headers (name and value) and body together.
    Raw { status: u16, headers: Vec<(String, String)>, body: BodyValue },
}

/// The characters with the Unicode `White_Space` property.
pub open spec fn is_white_space(c: char) -> bool {
    ('\t' <= c && c <= '\r') || c == ' ' || c == '\u{85}' || c == '\u{a0}' || c == '\u{1680}'
        || ('\u{2000}' <= c && c <= '\u{200a}') || c == '\u{2028}' || c == '\u{2029}' || c
        == '\u{202f}' || c == '\u{205f}' || c == '\u{3000}'
}

/// Whether `c` is Unicode white space.
pub fn white_space(c: char) -> (r: bool)
    ensures
        r == is_white_space(c),
{
    ('\t' <= c && c <= '\r') || c == ' ' || c == '\u{85}' || c == '\u{a0}' || c == '\u{1680}'
        || ('\u{2000}' <= c && c <= '\u{200a}') || c == '\u{2028}' || c == '\u{2029}' || c
        == '\u{202f}' || c == '\u{205f}' || c == '\u{3000}'
}

pub open spec fn is_blank(s: Seq<char>) -> bool {
    forall|k: int| 0 <= k < s.len() ==> is_white_space(#[trigger] s[k])
}

/// Whether `s` is empty or white space only.
pub fn blank(s: &str) -> (r: bool)
    ensures
        r == is_blank(s@),
{
    let n = s.unicode_len();
    let mut i: usize = 0;
    while i < n
        invariant
            n == s@.len(),
            i <= n,
            forall|k: int| 0 <= k < i ==> is_white_space(#[trigger] s@[k]),
        decreases n - i,
    {
        if !white_space(s.get_char(i)) {
            return false;
        }
        i += 1;
    }
    true
}

/// Whether `b` is the body value that the text `text` gives.
pub open spec fn body_value_is(b: BodyValue, text: Seq<char>) -> bool {
    if is_blank(text) {
        b is Null
    } else {
        match json_parse(text) {
            Some(v) => b == BodyValue::Json(v),
            None => b is Text && b->Text_0@ == text,
        }
    }
}

/// Reads a response body: null when blank, else its JSON value, else its text.
pub fn parse_body_value(text: &str) -> (r: BodyValue)
    ensures
        body_value_is(r, text@),
{
    if blank(text) {
        return BodyValue::Null;
    }
    match parse_json(text) {
        Ok(v) => BodyValue::Json(v),
        Err(_) => BodyValue::Text(String::from_str(text)),
    }
}

/// Header values as text, where a value that is not text is empty.
pub open spec fn header_pairs(h: Seq<(String, Option<String>)>) -> Seq<(Seq<char>, Seq<char>)> {
    h.map_values(
        |e: (String, Option<String>)|
            (
                e.0@,
                match e.1 {
                    Some(v) => v@,
                    None => Seq::empty(),
                },
            ),
    )
}

/// Names and values of headers; a value that is not text becomes empty.
pub fn headers_to_pairs(headers: &Vec<(String, Option<String>)>) -> (r: Vec<(String, String)>)
    ensures
        crate::request::pairs_view(r@) == header_pairs(headers@),
{
    let mut out: Vec<(String, String)> = Vec::new();
    let mut i: usize = 0;
    while i < headers.len()
        invariant
            i <= headers@.len(),
            crate::request::pairs_view(out@) == header_pairs(headers@.subrange(0, i as int)),
        decreases headers@.len() - i,
    {
        let value = match &headers[i].1 {
            Some(v) => v.clone(),
            None => String::new(),
        };
        let ghost before = out@;
        out.push((headers[i].0.clone(), value));
        assert(out@ == before.push((headers@[i as int].0, value)));
        assert(headers@.subrange(0, i + 1) =~= headers@.subrange(0, i as int).push(headers@[i as int]));
        assert(crate::request::pairs_view(out@) =~= crate::request::pairs_view(before).push(
            (headers@[i as int].0@, value@),
        ));
        assert(header_pairs(headers@.subrange(0, i + 1)) =~= header_pairs(
            headers@.subrange(0, i as int),
        ).push((headers@[i as int].0@, value@)));
        i += 1;
    }
    assert(headers@.subrange(0, headers@.len() as int) =~= headers@);
    out
}

/// Whether a status code is of the success class, 200 to 299.
pub fn is_success(status: u16) -> (r: bool)
    ensures
        r == (200 <= status && status <= 299),
{
    200 <= status && status <= 299
}

/// The output for one response and whether the command succeeded: the body
/// alone, or with `raw` the status and headers too; success is a 2xx status.
pub fn render_response(
    status: u16,
    headers: &Vec<(String, Option<String>)>,
    text: &str,
    raw: bool,
) -> (r: (Output, bool))
    ensures
        r.1 == (200 <= status && status <= 299),
        !raw ==> r.0 is Body && body_value_is(r.0->Body_0, text@),
        raw ==> r.0 is Raw && r.0->status == status && crate::request::pairs_view(r.0->headers@)
            == header_pairs(headers@) && body_value_is(r.0->Raw_body, text@),
{
    let body = parse_body_value(text);
    let out = if raw {
        Output::Raw { status, headers: headers_to_pairs(headers), body }
    } else {
        Output::Body(body)
    };
    (out, is_success(status))
}

} // verus!
