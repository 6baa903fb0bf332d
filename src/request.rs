use vstd::prelude::*;
use crate::schema::{Operation, ParamDef, is_path_param, is_query_param};
use crate::text::{
    replace_all, replace_all_exec, contains_char, str_equal, lemma_replace_absent,
    lemma_replace_skip_prefix, lemma_replace_single,
};

verus! {

/// Why a command could not be turned into a request.
#[derive(Clone, Debug)]
pub enum CliError {
    /// No API key from the flag or the environment.
    MissingApiKey,
    /// The resource or operation is not in the command tree.
    UnknownCommand { resource: String, op: String },
    /// A path parameter had no value; carries its flag.
    MissingArgument { flag: String },
    /// A placeholder was left in the path after substitution; carries the path.
    UnresolvedPath { path: String },
    /// The request body is not valid JSON.
    InvalidBody,
}

/// Pairs of strings as pairs of character sequences.
pub open spec fn pairs_view(v: Seq<(String, String)>) -> Seq<(Seq<char>, Seq<char>)> {
    v.map_values(|e: (String, String)| (e.0@, e.1@))
}

/// The value given for `name`: the first pair at or after `i` with that key.
pub open spec fn arg_value_from(sup: Seq<(Seq<char>, Seq<char>)>, name: Seq<char>, i: int) -> Option<
    Seq<char>,
>
    decreases sup.len() - i,
{
    if i < 0 || i >= sup.len() {
        None
    } else if sup[i].0 == name {
        Some(sup[i].1)
    } else {
        arg_value_from(sup, name, i + 1)
    }
}

pub open spec fn arg_value(sup: Seq<(Seq<char>, Seq<char>)>, name: Seq<char>) -> Option<Seq<char>> {
    arg_value_from(sup, name, 0)
}

pub open spec fn placeholder_braced(name: Seq<char>) -> Seq<char> {
    seq!['{'] + name + seq!['}']
}

pub open spec fn placeholder_colon(name: Seq<char>) -> Seq<char> {
    seq![':'] + name
}

pub open spec fn placeholder_double_braced(name: Seq<char>) -> Seq<char> {
    seq!['{', '{'] + name + seq!['}', '}']
}

/// `path` with each placeholder form of `name` replaced by `value`; the
/// doubled braces go first, so that `{{name}}` is not read as `{name}` in braces.
pub open spec fn substitute(path: Seq<char>, name: Seq<char>, value: Seq<char>) -> Seq<char> {
    replace_all(
        replace_all(
            replace_all(path, placeholder_double_braced(name), value),
            placeholder_braced(name),
            value,
        ),
        placeholder_colon(name),
        value,
    )
}

/// Path and query after the first `k` parameters, or the flag of the first
/// path parameter among them that has no value.
pub open spec fn parts_upto(
    params: Seq<ParamDef>,
    sup: Seq<(Seq<char>, Seq<char>)>,
    path0: Seq<char>,
    k: int,
) -> Result<(Seq<char>, Seq<(Seq<char>, Seq<char>)>), Seq<char>>
    decreases k,
{
    if k <= 0 {
        Ok((path0, Seq::empty()))
    } else {
        match parts_upto(params, sup, path0, k - 1) {
            Err(flag) => Err(flag),
            Ok((path, query)) => {
                let p = params[k - 1];
                let value = arg_value(sup, p.name@);
                if is_path_param(p) {
                    match value {
                        Some(v) => Ok((substitute(path, p.name@, v), query)),
                        None => Err(p.flag@),
                    }
                } else if is_query_param(p) {
                    match value {
                        Some(v) => Ok((path, query.push((p.name@, v)))),
                        None => Ok((path, query)),
                    }
                } else {
                    Ok((path, query))
                }
            },
        }
    }
}

/// What a request is built from an operation and the given values: its path
/// and query pairs, or the error.
pub enum PartsOutcome {
    Built(Seq<char>, Seq<(Seq<char>, Seq<char>)>),
    Missing(Seq<char>),
    Unresolved(Seq<char>),
}

/// The characters that may make up a parameter name in a `:name` placeholder.
pub open spec fn is_name_char(c: char) -> bool {
    ('a' <= c && c <= 'z') || ('A' <= c && c <= 'Z') || ('0' <= c && c <= '9') || c == '_'
}

fn name_char(c: char) -> (r: bool)
    ensures
        r == is_name_char(c),
{
    ('a' <= c && c <= 'z') || ('A' <= c && c <= 'Z') || ('0' <= c && c <= '9') || c == '_'
}

/// Whether a `:name` placeholder starts at `k`: a `:` followed by a name
/// character, wherever it stands in the path.
pub open spec fn colon_placeholder_at(path: Seq<char>, k: int) -> bool {
    0 <= k && k + 1 < path.len() && path[k] == ':' && is_name_char(path[k + 1])
}

/// Whether placeholder syntax is left in a path: a `{`, or a `:` followed by
/// a name.
pub open spec fn has_leftover_placeholder(path: Seq<char>) -> bool {
    path.contains('{') || exists|k: int| colon_placeholder_at(path, k)
}

/// Whether placeholder syntax is left in `path`.
pub fn leftover_placeholder(path: &str) -> (r: bool)
    ensures
        r == has_leftover_placeholder(path@),
{
    if contains_char(path, '{') {
        return true;
    }
    let n = path.unicode_len();
    let mut i: usize = 0;
    while i < n
        invariant
            n == path@.len(),
            i <= n,
            forall|k: int| 0 <= k < i ==> !colon_placeholder_at(path@, k),
        decreases n - i,
    {
        if i + 1 < n && path.get_char(i) == ':' && name_char(path.get_char(i + 1)) {
            assert(colon_placeholder_at(path@, i as int));
            return true;
        }
        i += 1;
    }
    false
}

pub open spec fn request_parts(op: Operation, sup: Seq<(Seq<char>, Seq<char>)>) -> PartsOutcome {
    match parts_upto(op.params@, sup, op.path@, op.params@.len() as int) {
        Err(flag) => PartsOutcome::Missing(flag),
        Ok((path, query)) => if has_leftover_placeholder(path) {
            PartsOutcome::Unresolved(path)
        } else {
            PartsOutcome::Built(path, query)
        },
    }
}

/// Whether a result of `build_request_parts` is the outcome `o`.
pub open spec fn parts_result_is(
    r: Result<(String, Vec<(String, String)>), CliError>,
    o: PartsOutcome,
) -> bool {
    match (r, o) {
        (Ok((path, query)), PartsOutcome::Built(p, q)) => path@ == p && pairs_view(query@) == q,
        (Err(CliError::MissingArgument { flag }), PartsOutcome::Missing(f)) => flag@ == f,
        (Err(CliError::UnresolvedPath { path }), PartsOutcome::Unresolved(p)) => path@ == p,
        _ => false,
    }
}

/// The value given for the parameter `name`, if any.
pub fn find_arg_value(supplied: &Vec<(String, String)>, name: &str) -> (r: Option<String>)
    ensures
        match r {
            Some(v) => arg_value(pairs_view(supplied@), name@) == Some(v@),
            None => arg_value(pairs_view(supplied@), name@) is None,
        },
{
    let ghost sup = pairs_view(supplied@);
    let mut i: usize = 0;
    while i < supplied.len()
        invariant
            i <= supplied@.len(),
            sup == pairs_view(supplied@),
            arg_value_from(sup, name@, 0) == arg_value_from(sup, name@, i as int),
        decreases supplied@.len() - i,
    {
        if str_equal(supplied[i].0.as_str(), name) {
            return Some(supplied[i].1.clone());
        }
        i += 1;
    }
    None
}

fn placeholder(open: &str, name: &str, close: &str) -> (r: String)
    ensures
        r@ == open@ + name@ + close@,
{
    let mut s = String::from_str(open);
    s.append(name);
    s.append(close);
    s
}

/// `path` with every placeholder of `name` (`{{name}}`, `{name}`, `:name`)
/// replaced by `value`.
pub fn replace_path_param(path: &str, name: &str, value: &str) -> (r: String)
    ensures
        r@ == substitute(path@, name@, value@),
{
    proof {
        reveal_strlit("{{");
        reveal_strlit("}}");
        reveal_strlit("{");
        reveal_strlit("}");
        reveal_strlit(":");
        reveal_strlit("");
    }
    let double = placeholder("{{", name, "}}");
    let braced = placeholder("{", name, "}");
    let colon = placeholder(":", name, "");
    assert(double@ =~= placeholder_double_braced(name@));
    assert(braced@ =~= placeholder_braced(name@));
    assert(colon@ =~= placeholder_colon(name@));
    let a = replace_all_exec(path, double.as_str(), value);
    let b = replace_all_exec(a.as_str(), braced.as_str(), value);
    replace_all_exec(b.as_str(), colon.as_str(), value)
}

proof fn lemma_missing_sticks(
    params: Seq<ParamDef>,
    sup: Seq<(Seq<char>, Seq<char>)>,
    path0: Seq<char>,
    k: int,
    n: int,
)
    requires
        0 <= k <= n,
        parts_upto(params, sup, path0, k) is Err,
    ensures
        parts_upto(params, sup, path0, n) == parts_upto(params, sup, path0, k),
    decreases n - k,
{
    if k < n {
        lemma_missing_sticks(params, sup, path0, k + 1, n);
    }
}

/// Resolves the path and the query pairs of `op` from the values given for
/// its parameters, as (parameter name, value) pairs.
pub fn build_request_parts(op: &Operation, supplied: &Vec<(String, String)>) -> (r: Result<
    (String, Vec<(String, String)>),
    CliError,
>)
    ensures
        parts_result_is(r, request_parts(*op, pairs_view(supplied@))),
{
    let ghost sup = pairs_view(supplied@);
    let ghost n = op.params@.len() as int;
    let mut path = op.path.clone();
    let mut query: Vec<(String, String)> = Vec::new();
    let mut i: usize = 0;
    assert(pairs_view(query@) =~= Seq::<(Seq<char>, Seq<char>)>::empty());
    while i < op.params.len()
        invariant
            i <= op.params@.len(),
            n == op.params@.len(),
            sup == pairs_view(supplied@),
            parts_upto(op.params@, sup, op.path@, i as int) == Ok::<_, Seq<char>>(
                (path@, pairs_view(query@)),
            ),
        decreases op.params@.len() - i,
    {
        let param = &op.params[i];
        let value = find_arg_value(supplied, param.name.as_str());
        if str_equal(param.location.as_str(), "path") {
            match value {
                Some(v) => {
                    path = replace_path_param(path.as_str(), param.name.as_str(), v.as_str());
                },
                None => {
                    proof {
                        lemma_missing_sticks(op.params@, sup, op.path@, i + 1, n);
                    }
                    return Err(CliError::MissingArgument { flag: param.flag.clone() });
                },
            }
        } else if str_equal(param.location.as_str(), "query") {
            match value {
                Some(v) => {
                    let ghost before = query@;
                    query.push((param.name.clone(), v));
                    assert(pairs_view(query@) =~= pairs_view(before).push(
                        (param.name@, arg_value(sup, param.name@)->Some_0),
                    ));
                },
                None => {},
            }
        }
        i += 1;
    }
    if leftover_placeholder(path.as_str()) {
        return Err(CliError::UnresolvedPath { path });
    }
    Ok((path, query))
}


proof fn lemma_concat_lacks(x: Seq<char>, y: Seq<char>, c: char)
    requires
        !x.contains(c),
        !y.contains(c),
    ensures
        !(x + y).contains(c),
{
    assert forall|k: int| 0 <= k < (x + y).len() implies (x + y)[k] != c by {
        if k < x.len() {
            assert((x + y)[k] == x[k]);
        } else {
            assert((x + y)[k] == y[k - x.len()]);
        }
    }
}

proof fn lemma_path_params_given_ok(
    params: Seq<ParamDef>,
    sup: Seq<(Seq<char>, Seq<char>)>,
    path0: Seq<char>,
    k: int,
)
    requires
        0 <= k <= params.len(),
        forall|j: int|
            0 <= j < k && is_path_param(#[trigger] params[j]) ==> arg_value(sup, params[j].name@) is Some,
    ensures
        parts_upto(params, sup, path0, k) is Ok,
    decreases k,
{
    if k > 0 {
        lemma_path_params_given_ok(params, sup, path0, k - 1);
    }
}

proof fn lemma_missing_is_a_path_param(
    params: Seq<ParamDef>,
    sup: Seq<(Seq<char>, Seq<char>)>,
    path0: Seq<char>,
    k: int,
)
    requires
        k <= params.len(),
        parts_upto(params, sup, path0, k) is Err,
    ensures
        exists|j: int|
            0 <= j < k && is_path_param(#[trigger] params[j]) && arg_value(sup, params[j].name@) is None
                && parts_upto(params, sup, path0, k) == Err::<(Seq<char>, Seq<(Seq<char>, Seq<char>)>), Seq<char>>(params[j].flag@),
    decreases k,
{
    if parts_upto(params, sup, path0, k - 1) is Err {
        lemma_missing_is_a_path_param(params, sup, path0, k - 1);
        let j = choose|j: int|
            0 <= j < k - 1 && is_path_param(#[trigger] params[j]) && arg_value(sup, params[j].name@) is None
                && parts_upto(params, sup, path0, k - 1) == Err::<(Seq<char>, Seq<(Seq<char>, Seq<char>)>), Seq<char>>(params[j].flag@);
        assert(0 <= j < k);
    } else {
        assert(is_path_param(params[k - 1]));
    }
}

proof fn lemma_query_pairs_given(
    params: Seq<ParamDef>,
    sup: Seq<(Seq<char>, Seq<char>)>,
    path0: Seq<char>,
    k: int,
)
    requires
        k <= params.len(),
        parts_upto(params, sup, path0, k) is Ok,
    ensures
        forall|i: int|
            0 <= i < parts_upto(params, sup, path0, k)->Ok_0.1.len() ==> arg_value(
                sup,
                #[trigger] parts_upto(params, sup, path0, k)->Ok_0.1[i].0,
            ) == Some(parts_upto(params, sup, path0, k)->Ok_0.1[i].1),
    decreases k,
{
    if k > 0 {
        lemma_query_pairs_given(params, sup, path0, k - 1);
    }
}

/// Leaving out the value of a path parameter never yields a request: the
/// result is a missing argument naming the flag of a path parameter without a
/// value, that parameter's own when every earlier path parameter has a value.
pub proof fn law_missing_path_param(op: Operation, sup: Seq<(Seq<char>, Seq<char>)>, i: int)
    requires
        0 <= i < op.params@.len(),
        is_path_param(op.params@[i]),
        arg_value(sup, op.params@[i].name@) is None,
    ensures
        request_parts(op, sup) is Missing,
        exists|j: int|
            0 <= j < op.params@.len() && is_path_param(#[trigger] op.params@[j]) && arg_value(
                sup,
                op.params@[j].name@,
            ) is None && request_parts(op, sup) == PartsOutcome::Missing(op.params@[j].flag@),
        (forall|j: int|
            0 <= j < i && is_path_param(#[trigger] op.params@[j]) ==> arg_value(
                sup,
                op.params@[j].name@,
            ) is Some) ==> request_parts(op, sup) == PartsOutcome::Missing(op.params@[i].flag@),
{
    let params = op.params@;
    let n = params.len() as int;
    if parts_upto(params, sup, op.path@, i) is Err {
        lemma_missing_sticks(params, sup, op.path@, i, n);
    } else {
        lemma_missing_sticks(params, sup, op.path@, i + 1, n);
    }
    lemma_missing_is_a_path_param(params, sup, op.path@, n);
    if forall|j: int|
        0 <= j < i && is_path_param(#[trigger] params[j]) ==> arg_value(sup, params[j].name@) is Some {
        lemma_path_params_given_ok(params, sup, op.path@, i);
        lemma_missing_sticks(params, sup, op.path@, i + 1, n);
    }
}

/// The path after every parameter is substituted.
pub open spec fn resolved_path(op: Operation, sup: Seq<(Seq<char>, Seq<char>)>) -> Seq<char> {
    parts_upto(op.params@, sup, op.path@, op.params@.len() as int)->Ok_0.0
}

/// Only path parameters are demanded: when each of them has a value, no
/// parameter is reported missing, whatever query parameters (required or
/// not) are left out; the request is built unless placeholder syntax is left
/// in the path; and each query pair carries a value that was given, so a
/// query parameter left out adds no pair.
pub proof fn law_query_params_never_block(op: Operation, sup: Seq<(Seq<char>, Seq<char>)>)
    requires
        forall|j: int|
            0 <= j < op.params@.len() && is_path_param(#[trigger] op.params@[j]) ==> arg_value(
                sup,
                op.params@[j].name@,
            ) is Some,
    ensures
        !(request_parts(op, sup) is Missing),
        !has_leftover_placeholder(resolved_path(op, sup)) ==> request_parts(op, sup) is Built,
        match request_parts(op, sup) {
            PartsOutcome::Built(_, q) => forall|k: int|
                0 <= k < q.len() ==> arg_value(sup, #[trigger] q[k].0) == Some(q[k].1),
            _ => true,
        },
{
    let n = op.params@.len() as int;
    lemma_path_params_given_ok(op.params@, sup, op.path@, n);
    lemma_query_pairs_given(op.params@, sup, op.path@, n);
}

/// The placeholder of `name` in one of its three forms: `{name}`, `:name`
/// or `{{name}}`.
pub open spec fn placeholder_form(name: Seq<char>, form: int) -> Seq<char> {
    if form == 0 {
        placeholder_braced(name)
    } else if form == 1 {
        placeholder_colon(name)
    } else {
        placeholder_double_braced(name)
    }
}

pub open spec fn plain_text(s: Seq<char>) -> bool {
    !s.contains('{') && !s.contains(':')
}

/// A path with one placeholder, in any of the three forms, of its one path
/// parameter resolves to the path with the given value in its place, and no
/// placeholder is left.
pub proof fn law_placeholder_substituted(
    op: Operation,
    sup: Seq<(Seq<char>, Seq<char>)>,
    a: Seq<char>,
    b: Seq<char>,
    v: Seq<char>,
    form: int,
)
    requires
        0 <= form < 3,
        op.params@.len() == 1,
        is_path_param(op.params@[0]),
        op.path@ == a + placeholder_form(op.params@[0].name@, form) + b,
        arg_value(sup, op.params@[0].name@) == Some(v),
        plain_text(a),
        plain_text(b),
        plain_text(v),
        plain_text(op.params@[0].name@),
    ensures
        request_parts(op, sup) == PartsOutcome::Built(a + v + b, Seq::empty()),
        !(a + v + b).contains('{'),
{
    let n = op.params@[0].name@;
    let dbl = placeholder_double_braced(n);
    let br = placeholder_braced(n);
    let co = placeholder_colon(n);
    assert(dbl[0] == '{' && br[0] == '{' && co[0] == ':');
    assert(parts_upto(op.params@, sup, op.path@, 0) == Ok::<_, Seq<char>>((op.path@, Seq::<(Seq<char>, Seq<char>)>::empty())));
    lemma_concat_lacks(a, v, '{');
    lemma_concat_lacks(a + v, b, '{');
    lemma_concat_lacks(a, v, ':');
    lemma_concat_lacks(a + v, b, ':');
    let done = a + v + b;
    if form == 0 {
        let t = br + b;
        assert(a + br + b =~= a + t);
        lemma_replace_skip_prefix(a, t, dbl, v);
        let tail = t.subrange(1, t.len() as int);
        assert(tail =~= n + seq!['}'] + b);
        lemma_concat_lacks(n, seq!['}'], '{');
        lemma_concat_lacks(n + seq!['}'], b, '{');
        lemma_replace_absent(tail, dbl, v);
        if t.len() >= dbl.len() {
            assert(t.subrange(0, dbl.len() as int)[1] != dbl[1]);
        }
        assert(seq![t[0]] + tail =~= t);
        assert(replace_all(t, dbl, v) == t);
        lemma_replace_single(a, b, br, v);
        lemma_replace_absent(done, co, v);
    } else if form == 1 {
        let s0 = a + co + b;
        lemma_concat_lacks(seq![':'], n, '{');
        lemma_concat_lacks(a, co, '{');
        lemma_concat_lacks(a + co, b, '{');
        lemma_replace_absent(s0, dbl, v);
        lemma_replace_absent(s0, br, v);
        lemma_replace_single(a, b, co, v);
    } else {
        lemma_replace_single(a, b, dbl, v);
        lemma_replace_absent(done, br, v);
        lemma_replace_absent(done, co, v);
    }
}

proof fn lemma_path_params_decide(
    params: Seq<ParamDef>,
    sup: Seq<(Seq<char>, Seq<char>)>,
    sup2: Seq<(Seq<char>, Seq<char>)>,
    path0: Seq<char>,
    k: int,
)
    requires
        k <= params.len(),
        forall|j: int|
            0 <= j < params.len() && is_path_param(#[trigger] params[j]) ==> arg_value(sup, params[j].name@)
                == arg_value(sup2, params[j].name@),
    ensures
        (parts_upto(params, sup, path0, k) is Ok) == (parts_upto(params, sup2, path0, k) is Ok),
        parts_upto(params, sup, path0, k) is Ok ==> parts_upto(params, sup, path0, k)->Ok_0.0
            == parts_upto(params, sup2, path0, k)->Ok_0.0,
        parts_upto(params, sup, path0, k) is Err ==> parts_upto(params, sup, path0, k)
            == parts_upto(params, sup2, path0, k),
    decreases k,
{
    if k > 0 {
        lemma_path_params_decide(params, sup, sup2, path0, k - 1);
        if is_path_param(params[k - 1]) {
            assert(arg_value(sup, params[k - 1].name@) == arg_value(sup2, params[k - 1].name@));
        }
    }
}

/// Query values never decide whether a request is built: two sets of values
/// that agree on every path parameter give the same missing argument, the same
/// leftover path, or a request in both cases. In particular, leaving out a
/// query parameter, required or not, never blocks a request.
pub proof fn law_query_values_do_not_decide(
    op: Operation,
    sup: Seq<(Seq<char>, Seq<char>)>,
    sup2: Seq<(Seq<char>, Seq<char>)>,
)
    requires
        forall|j: int|
            0 <= j < op.params@.len() && is_path_param(#[trigger] op.params@[j]) ==> arg_value(
                sup,
                op.params@[j].name@,
            ) == arg_value(sup2, op.params@[j].name@),
    ensures
        (request_parts(op, sup) is Built) == (request_parts(op, sup2) is Built),
        !(request_parts(op, sup) is Built) ==> request_parts(op, sup) == request_parts(op, sup2),
{
    lemma_path_params_decide(op.params@, sup, sup2, op.path@, op.params@.len() as int);
}

} // verus!
