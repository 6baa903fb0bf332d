use vstd::prelude::*;
use crate::request::CliError;

verus! {

/// The base URL: the flag's value, else the environment's, else the tree's default.
pub fn resolve_base_url(flag: Option<String>, env: Option<String>, default: &String) -> (r: String)
    ensures
        r@ == match (flag, env) {
            (Some(f), _) => f@,
            (None, Some(e)) => e@,
            (None, None) => default@,
        },
{
    match flag {
        Some(f) => f,
        None => match env {
            Some(e) => e,
            None => default.clone(),
        },
    }
}

/// The API key: the flag's value, else the environment's; there is no default.
pub fn resolve_api_key(flag: Option<String>, env: Option<String>) -> (r: Result<String, CliError>)
    ensures
        match (flag, env) {
            (Some(f), _) => r is Ok && r->Ok_0@ == f@,
            (None, Some(e)) => r is Ok && r->Ok_0@ == e@,
            (None, None) => r is Err && r->Err_0 is MissingApiKey,
        },
{
    match flag {
        Some(f) => Ok(f),
        None => match env {
            Some(e) => Ok(e),
            None => Err(CliError::MissingApiKey),
        },
    }
}

/// `s` without the slashes at its end.
pub open spec fn trim_trailing_slashes(s: Seq<char>) -> Seq<char>
    decreases s.len(),
{
    if s.len() > 0 && s.last() == '/' {
        trim_trailing_slashes(s.drop_last())
    } else {
        s
    }
}

/// The URL of a request: the base URL without its trailing slashes, then the path.
pub fn request_url(base: &str, path: &str) -> (r: String)
    ensures
        r@ == trim_trailing_slashes(base@) + path@,
{
    let mut end = base.unicode_len();
    assert(base@.subrange(0, end as int) =~= base@);
    while end > 0 && base.get_char(end - 1) == '/'
        invariant
            end <= base@.len(),
            trim_trailing_slashes(base@) == trim_trailing_slashes(base@.subrange(0, end as int)),
        decreases end,
    {
        assert(base@.subrange(0, end as int).drop_last() =~= base@.subrange(0, end - 1));
        end -= 1;
    }
    let mut url = String::from_str(base.substring_char(0, end));
    url.append(path);
    url
}

} // verus!
