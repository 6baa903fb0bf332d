use vstd::prelude::*;
use crate::json::{json_parse, parse_json};
use crate::request::CliError;

verus! {

/// Where the text of a request body comes from.
#[derive(Clone, Debug)]
pub enum BodySource {
    /// The argument is the JSON text itself.
    Inline(String),
    /// The argument named a file (after `@`) that holds the JSON text.
    File(String),
}

pub enum BodySourceSpec {
    Inline(Seq<char>),
    File(Seq<char>),
}

pub open spec fn body_source_of(arg: Seq<char>) -> BodySourceSpec {
    if arg.len() > 0 && arg[0] == '@' {
        BodySourceSpec::File(arg.subrange(1, arg.len() as int))
    } else {
        BodySourceSpec::Inline(arg)
    }
}

pub open spec fn source_is(s: BodySource, t: BodySourceSpec) -> bool {
    match (s, t) {
        (BodySource::Inline(a), BodySourceSpec::Inline(b)) => a@ == b,
        (BodySource::File(a), BodySourceSpec::File(b)) => a@ == b,
        _ => false,
    }
}

/// Reads a `--body` argument: `@path` names a file, anything else is inline JSON.
pub fn body_source(arg: &str) -> (r: BodySource)
    ensures
        source_is(r, body_source_of(arg@)),
{
    let n = arg.unicode_len();
    if n > 0 && arg.get_char(0) == '@' {
        BodySource::File(String::from_str(arg.substring_char(1, n)))
    } else {
        BodySource::Inline(String::from_str(arg))
    }
}

/// The request body that a JSON text gives, or `None` where it is not JSON.
pub open spec fn body_of_text(raw: Seq<char>) -> Option<serde_json::Value> {
    json_parse(raw)
}

/// Parses the text of a request body as JSON.
pub fn parse_body_text(raw: &str) -> (r: Result<serde_json::Value, CliError>)
    ensures
        match r {
            Ok(v) => body_of_text(raw@) == Some(v),
            Err(e) => body_of_text(raw@) is None && e is InvalidBody,
        },
        raw@.len() > 0 && raw@[0] == '@' ==> r is Err,
{
    match parse_json(raw) {
        Ok(v) => Ok(v),
        Err(_) => Err(CliError::InvalidBody),
    }
}

/// A body given inline and a body read from a file that holds the same text
/// are the same body: the argument `@path` is read as that file, any argument
/// not starting with `@` as the text itself, and the body depends on the text
/// alone.
pub proof fn law_inline_and_file_bodies_agree(
    inline: Seq<char>,
    path: Seq<char>,
    contents: Seq<char>,
)
    requires
        inline == contents,
        inline.len() == 0 || inline[0] != '@',
    ensures
        body_source_of(inline) == BodySourceSpec::Inline(inline),
        body_source_of(seq!['@'] + path) == BodySourceSpec::File(path),
        body_of_text(inline) == body_of_text(contents),
{
    assert((seq!['@'] + path).subrange(1, path.len() + 1int) =~= path);
}

} // verus!
