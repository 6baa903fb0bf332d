use vstd::prelude::*;

verus! {

/// The whole command tree: every resource and its operations.
#[derive(Clone, Debug)]
pub struct CommandTree {
    pub version: u32,
    pub base_url: String,
    pub resources: Vec<Resource>,
}

/// A named group of operations.
#[derive(Clone, Debug)]
pub struct Resource {
    pub name: String,
    pub ops: Vec<Operation>,
}

/// One HTTP endpoint: method, path template, parameters and whether it takes a body.
#[derive(Clone, Debug)]
pub struct Operation {
    pub name: String,
    pub method: String,
    pub path: String,
    pub description: Option<String>,
    pub params: Vec<ParamDef>,
    pub has_body: bool,
}

/// One parameter of an operation; `location` is `path` or `query`.
#[derive(Clone, Debug)]
pub struct ParamDef {
    pub name: String,
    pub flag: String,
    pub location: String,
    pub required: bool,
}

pub open spec fn is_path_param(p: ParamDef) -> bool {
    p.location@ == "path"@
}

pub open spec fn is_query_param(p: ParamDef) -> bool {
    p.location@ == "query"@
}

/// The first resource at or after index `i` whose name is `name`.
pub open spec fn find_resource_from(rs: Seq<Resource>, name: Seq<char>, i: int) -> Option<Resource>
    decreases rs.len() - i,
{
    if i < 0 || i >= rs.len() {
        None
    } else if rs[i].name@ == name {
        Some(rs[i])
    } else {
        find_resource_from(rs, name, i + 1)
    }
}

/// The first operation at or after index `i` whose name is `name`.
pub open spec fn find_operation_from(ops: Seq<Operation>, name: Seq<char>, i: int) -> Option<
    Operation,
>
    decreases ops.len() - i,
{
    if i < 0 || i >= ops.len() {
        None
    } else if ops[i].name@ == name {
        Some(ops[i])
    } else {
        find_operation_from(ops, name, i + 1)
    }
}

/// The operation addressed by a resource name and an operation name: the
/// operation so named in the first resource so named.
pub open spec fn lookup_op(tree: CommandTree, res: Seq<char>, op: Seq<char>) -> Option<Operation> {
    match find_resource_from(tree.resources@, res, 0) {
        Some(r) => find_operation_from(r.ops@, op, 0),
        None => None,
    }
}

/// Finds the operation `op` of resource `res`.
pub fn find_op<'a>(tree: &'a CommandTree, res: &str, op: &str) -> (r: Option<&'a Operation>)
    ensures
        match r {
            Some(o) => lookup_op(*tree, res@, op@) == Some(*o),
            None => lookup_op(*tree, res@, op@) is None,
        },
{
    let mut i: usize = 0;
    while i < tree.resources.len()
        invariant
            i <= tree.resources@.len(),
            find_resource_from(tree.resources@, res@, 0) == find_resource_from(
                tree.resources@,
                res@,
                i as int,
            ),
        decreases tree.resources@.len() - i,
    {
        let resource = &tree.resources[i];
        if crate::text::str_equal(resource.name.as_str(), res) {
            return find_in_ops(&resource.ops, op);
        }
        i += 1;
    }
    None
}

fn find_in_ops<'a>(ops: &'a Vec<Operation>, name: &str) -> (r: Option<&'a Operation>)
    ensures
        match r {
            Some(o) => find_operation_from(ops@, name@, 0) == Some(*o),
            None => find_operation_from(ops@, name@, 0) is None,
        },
{
    let mut j: usize = 0;
    while j < ops.len()
        invariant
            j <= ops@.len(),
            find_operation_from(ops@, name@, 0) == find_operation_from(ops@, name@, j as int),
        decreases ops@.len() - j,
    {
        if crate::text::str_equal(ops[j].name.as_str(), name) {
            return Some(&ops[j]);
        }
        j += 1;
    }
    None
}

} // verus!
