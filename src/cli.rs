use vstd::prelude::*;
use crate::schema::{CommandTree, Operation, ParamDef, Resource, is_path_param};
use crate::text::str_equal;

verus! {

/// One flag of an operation's command.
#[derive(Clone, Debug)]
pub struct ArgSpec {
    /// The key under which the value is looked up.
    pub id: String,
    /// The long flag, written `--long`.
    pub long: String,
    /// Whether the parser itself demands the flag.
    pub required: bool,
}

/// The command of one operation.
#[derive(Clone, Debug)]
pub struct OpCommand {
    pub name: String,
    /// Shown as the command's help: the operation's path.
    pub about: String,
    /// One flag per parameter, in order, then `--body` where the operation takes one.
    pub args: Vec<ArgSpec>,
}

/// The command of one resource, which demands one of its operations.
#[derive(Clone, Debug)]
pub struct ResourceCommand {
    pub name: String,
    pub ops: Vec<OpCommand>,
}

/// Whether `a` is the flag made for the parameter `p`: keyed by its name, spelt
/// by its flag, demanded by the parser only for a required path parameter.
pub open spec fn arg_for_param(a: ArgSpec, p: ParamDef) -> bool {
    a.id@ == p.name@ && a.long@ == p.flag@ && a.required == (p.required && is_path_param(p))
}

pub open spec fn body_arg(a: ArgSpec) -> bool {
    a.id@ == "body"@ && a.long@ == "body"@ && !a.required
}

pub open spec fn command_for_op(c: OpCommand, op: Operation) -> bool {
    &&& c.name@ == op.name@
    &&& c.about@ == op.path@
    &&& c.args@.len() == op.params@.len() + if op.has_body { 1int } else { 0int }
    &&& forall|i: int| 0 <= i < op.params@.len() ==> arg_for_param(#[trigger] c.args@[i], op.params@[i])
    &&& op.has_body ==> body_arg(c.args@[op.params@.len() as int])
}

pub open spec fn command_for_resource(c: ResourceCommand, r: Resource) -> bool {
    &&& c.name@ == r.name@
    &&& c.ops@.len() == r.ops@.len()
    &&& forall|i: int| 0 <= i < r.ops@.len() ==> command_for_op(#[trigger] c.ops@[i], r.ops@[i])
}

/// The flag for one parameter.
pub fn build_param_arg(param: &ParamDef) -> (r: ArgSpec)
    ensures
        arg_for_param(r, *param),
{
    let in_path = str_equal(param.location.as_str(), "path");
    ArgSpec { id: param.name.clone(), long: param.flag.clone(), required: param.required && in_path }
}

/// The command for one operation.
pub fn build_op_command(op: &Operation) -> (r: OpCommand)
    ensures
        command_for_op(r, *op),
{
    let mut args: Vec<ArgSpec> = Vec::new();
    let mut i: usize = 0;
    while i < op.params.len()
        invariant
            i <= op.params@.len(),
            args@.len() == i,
            forall|k: int| 0 <= k < i ==> arg_for_param(#[trigger] args@[k], op.params@[k]),
        decreases op.params@.len() - i,
    {
        args.push(build_param_arg(&op.params[i]));
        i += 1;
    }
    if op.has_body {
        args.push(ArgSpec { id: String::from_str("body"), long: String::from_str("body"), required: false });
    }
    OpCommand { name: op.name.clone(), about: op.path.clone(), args }
}

/// The commands of the whole tree, one per resource in order, each holding one
/// command per operation in order; the same tree always gives the same commands.
pub fn build_command_specs(tree: &CommandTree) -> (r: Vec<ResourceCommand>)
    ensures
        r@.len() == tree.resources@.len(),
        forall|i: int|
            0 <= i < r@.len() ==> command_for_resource(#[trigger] r@[i], tree.resources@[i]),
{
    let mut out: Vec<ResourceCommand> = Vec::new();
    let mut i: usize = 0;
    while i < tree.resources.len()
        invariant
            i <= tree.resources@.len(),
            out@.len() == i,
            forall|k: int| 0 <= k < i ==> command_for_resource(#[trigger] out@[k], tree.resources@[k]),
        decreases tree.resources@.len() - i,
    {
        let resource = &tree.resources[i];
        let mut ops: Vec<OpCommand> = Vec::new();
        let mut j: usize = 0;
        while j < resource.ops.len()
            invariant
                j <= resource.ops@.len(),
                ops@.len() == j,
                forall|k: int| 0 <= k < j ==> command_for_op(#[trigger] ops@[k], resource.ops@[k]),
            decreases resource.ops@.len() - j,
        {
            ops.push(build_op_command(&resource.ops[j]));
            j += 1;
        }
        out.push(ResourceCommand { name: resource.name.clone(), ops });
        i += 1;
    }
    out
}

} // verus!
