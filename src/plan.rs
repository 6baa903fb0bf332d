use vstd::prelude::*;
use crate::body::{BodySource, body_source, body_source_of, source_is};
use crate::request::{CliError, PartsOutcome, build_request_parts, pairs_view, request_parts};
use crate::schema::{CommandTree, lookup_op};

verus! {

/// Everything of a request that the command line decides.
#[derive(Debug)]
pub struct RequestPlan {
    pub method: String,
    pub path: String,
    pub query: Vec<(String, String)>,
    /// Where the body comes from; `None` when the operation takes none or none was given.
    pub body: Option<BodySource>,
}

/// Turns the invocation `res op` with the given parameter values and
/// `--body` argument into a request plan.
pub fn plan_request(
    tree: &CommandTree,
    res: &str,
    op: &str,
    supplied: &Vec<(String, String)>,
    body_arg: Option<&str>,
) -> (r: Result<RequestPlan, CliError>)
    ensures
        match lookup_op(*tree, res@, op@) {
            None => r is Err && r->Err_0 is UnknownCommand && r->Err_0->resource@ == res@
                && r->Err_0->op@ == op@,
            Some(o) => match request_parts(o, pairs_view(supplied@)) {
                PartsOutcome::Missing(f) => r is Err && r->Err_0 is MissingArgument
                    && r->Err_0->flag@ == f,
                PartsOutcome::Unresolved(p) => r is Err && r->Err_0 is UnresolvedPath
                    && r->Err_0->path@ == p,
                PartsOutcome::Built(p, q) => r is Ok && r->Ok_0.method@ == o.method@
                    && r->Ok_0.path@ == p && pairs_view(r->Ok_0.query@) == q && match (
                    body_arg,
                    r->Ok_0.body,
                ) {
                    (Some(a), Some(b)) => o.has_body && source_is(b, body_source_of(a@)),
                    (Some(_), None) => !o.has_body,
                    (None, b) => b is None,
                },
            },
        },
{
    let operation = match crate::schema::find_op(tree, res, op) {
        Some(o) => o,
        None => {
            return Err(
                CliError::UnknownCommand { resource: String::from_str(res), op: String::from_str(op) },
            );
        },
    };
    let parts = build_request_parts(operation, supplied);
    match parts {
        Ok((path, query)) => {
            let body = match body_arg {
                Some(a) => if operation.has_body {
                    Some(body_source(a))
                } else {
                    None
                },
                None => None,
            };
            Ok(RequestPlan { method: operation.method.clone(), path, query, body })
        },
        Err(e) => Err(e),
    }
}

} // verus!
