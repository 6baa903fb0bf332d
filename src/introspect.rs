use vstd::prelude::*;
use crate::response::{blank, is_blank, is_white_space, white_space};
use crate::schema::{CommandTree, Operation, ParamDef};

verus! {

/// `s` without its leading white space.
pub open spec fn trim_start(s: Seq<char>) -> Seq<char>
    decreases s.len(),
{
    if s.len() > 0 && is_white_space(s[0]) {
        trim_start(s.drop_first())
    } else {
        s
    }
}

/// `s` without its trailing white space.
pub open spec fn trim_end(s: Seq<char>) -> Seq<char>
    decreases s.len(),
{
    if s.len() > 0 && is_white_space(s.last()) {
        trim_end(s.drop_last())
    } else {
        s
    }
}

pub open spec fn trim(s: Seq<char>) -> Seq<char> {
    trim_end(trim_start(s))
}

/// `s` without white space at either end.
pub fn trim_white(s: &str) -> (r: String)
    ensures
        r@ == trim(s@),
{
    let n = s.unicode_len();
    let mut lo: usize = 0;
    assert(s@.subrange(0, n as int) =~= s@);
    while lo < n && white_space(s.get_char(lo))
        invariant
            n == s@.len(),
            lo <= n,
            trim_start(s@) == trim_start(s@.subrange(lo as int, n as int)),
        decreases n - lo,
    {
        assert(s@.subrange(lo as int, n as int).drop_first() =~= s@.subrange(lo + 1, n as int));
        lo += 1;
    }
    let mut hi: usize = n;
    assert(s@.subrange(lo as int, n as int).subrange(0, (hi - lo) as int) =~= s@.subrange(lo as int, hi as int));
    while hi > lo && white_space(s.get_char(hi - 1))
        invariant
            n == s@.len(),
            lo <= hi <= n,
            trim_start(s@) == s@.subrange(lo as int, n as int),
            trim(s@) == trim_end(s@.subrange(lo as int, hi as int)),
        decreases hi,
    {
        assert(s@.subrange(lo as int, hi as int).drop_last() =~= s@.subrange(lo as int, hi - 1));
        hi -= 1;
    }
    String::from_str(s.substring_char(lo, hi))
}

pub open spec fn lines_view(v: Seq<String>) -> Seq<Seq<char>> {
    v.map_values(|l: String| l@)
}

pub open spec fn indent() -> Seq<char> {
    seq![' ', ' ']
}

/// The lines of `list`: each resource's name, then each of its operations indented.
pub open spec fn list_text(rs: Seq<crate::schema::Resource>) -> Seq<Seq<char>>
    decreases rs.len(),
{
    if rs.len() == 0 {
        Seq::empty()
    } else {
        list_text(rs.drop_last()) + seq![rs.last().name@] + rs.last().ops@.map_values(
            |o: Operation| indent() + o.name@,
        )
    }
}

/// The human-readable listing of resources and operations.
pub fn list_lines(tree: &CommandTree) -> (r: Vec<String>)
    ensures
        lines_view(r@) == list_text(tree.resources@),
{
    let mut out: Vec<String> = Vec::new();
    let mut i: usize = 0;
    let ghost rs = tree.resources@;
    assert(lines_view(out@) =~= list_text(rs.subrange(0, 0)));
    while i < tree.resources.len()
        invariant
            rs == tree.resources@,
            i <= rs.len(),
            lines_view(out@) == list_text(rs.subrange(0, i as int)),
        decreases rs.len() - i,
    {
        let resource = &tree.resources[i];
        let ghost start = out@;
        out.push(resource.name.clone());
        let mut j: usize = 0;
        let ghost ops = resource.ops@;
        assert(lines_view(out@) =~= lines_view(start) + seq![resource.name@] + ops.subrange(
            0,
            0,
        ).map_values(|o: Operation| indent() + o.name@));
        while j < resource.ops.len()
            invariant
                ops == resource.ops@,
                j <= ops.len(),
                lines_view(out@) == lines_view(start) + seq![resource.name@] + ops.subrange(
                    0,
                    j as int,
                ).map_values(|o: Operation| indent() + o.name@),
            decreases ops.len() - j,
        {
            let mut line = String::from_str("  ");
            proof {
                reveal_strlit("  ");
            }
            assert("  "@ =~= indent());
            line.append(resource.ops[j].name.as_str());
            assert(line@ == indent() + ops[j as int].name@);
            let ghost before = out@;
            out.push(line);
            assert(lines_view(out@) =~= lines_view(before).push(line@));
            assert(ops.subrange(0, j + 1).map_values(|o: Operation| indent() + o.name@)
                =~= ops.subrange(0, j as int).map_values(|o: Operation| indent() + o.name@).push(
                indent() + ops[j as int].name@,
            ));
            assert(lines_view(out@) =~= lines_view(start) + seq![resource.name@] + ops.subrange(
                0,
                j + 1,
            ).map_values(|o: Operation| indent() + o.name@));
            j += 1;
        }
        assert(rs.subrange(0, i + 1).drop_last() =~= rs.subrange(0, i as int));
        assert(ops.subrange(0, ops.len() as int) =~= ops);
        i += 1;
    }
    assert(rs.subrange(0, rs.len() as int) =~= rs);
    out
}

/// The line that describes one parameter: its flag, location and whether it is required.
pub open spec fn param_line(p: ParamDef) -> Seq<char> {
    "    --"@ + p.flag@ + "  "@ + p.location@ + " ("@ + (if p.required {
        "required"@
    } else {
        "optional"@
    }) + ")"@
}

pub open spec fn description_lines(d: Option<String>) -> Seq<Seq<char>> {
    match d {
        Some(text) => if is_blank(text@) {
            Seq::empty()
        } else {
            seq!["  description: "@ + trim(text@)]
        },
        None => Seq::empty(),
    }
}

/// The lines of `describe` for the operation `op` of `resource`.
pub open spec fn describe_text(resource: Seq<char>, op: Operation) -> Seq<Seq<char>> {
    seq![resource + " "@ + op.name@, "  method: "@ + op.method@, "  path: "@ + op.path@]
        + description_lines(op.description) + (if op.params@.len() > 0 {
        seq!["  params:"@] + op.params@.map_values(|p: ParamDef| param_line(p))
    } else {
        Seq::empty()
    }) + (if op.has_body {
        seq!["  body: --body JSON or @file.json"@]
    } else {
        Seq::empty()
    })
}

fn concat2(a: &str, b: &str) -> (r: String)
    ensures
        r@ == a@ + b@,
{
    let mut s = String::from_str(a);
    s.append(b);
    s
}

fn describe_param(p: &ParamDef) -> (r: String)
    ensures
        r@ == param_line(*p),
{
    let mut s = String::from_str("    --");
    s.append(p.flag.as_str());
    s.append("  ");
    s.append(p.location.as_str());
    s.append(" (");
    if p.required {
        s.append("required");
    } else {
        s.append("optional");
    }
    s.append(")");
    s
}

/// The human-readable description of the operation `op` of `resource`.
pub fn describe_lines(resource: &str, op: &Operation) -> (r: Vec<String>)
    ensures
        lines_view(r@) == describe_text(resource@, *op),
{
    let mut out: Vec<String> = Vec::new();
    let mut head = concat2(resource, " ");
    head.append(op.name.as_str());
    out.push(head);
    out.push(concat2("  method: ", op.method.as_str()));
    out.push(concat2("  path: ", op.path.as_str()));
    let ghost fixed = seq![resource@ + " "@ + op.name@, "  method: "@ + op.method@, "  path: "@ + op.path@];
    assert(lines_view(out@) =~= fixed);
    match &op.description {
        Some(d) => {
            if !blank(d.as_str()) {
                let t = trim_white(d.as_str());
                out.push(concat2("  description: ", t.as_str()));
            }
        },
        None => {},
    }
    let ghost with_desc = fixed + description_lines(op.description);
    assert(lines_view(out@) =~= with_desc);
    if op.params.len() > 0 {
        out.push(String::from_str("  params:"));
        let ghost start = out@;
        let mut i: usize = 0;
        assert(lines_view(out@) =~= lines_view(start) + op.params@.subrange(0, 0).map_values(
            |p: ParamDef| param_line(p),
        ));
        while i < op.params.len()
            invariant
                i <= op.params@.len(),
                lines_view(start) == with_desc + seq!["  params:"@],
                lines_view(out@) == lines_view(start) + op.params@.subrange(0, i as int).map_values(
                    |p: ParamDef| param_line(p),
                ),
            decreases op.params@.len() - i,
        {
            let line = describe_param(&op.params[i]);
            let ghost before = out@;
            out.push(line);
            assert(lines_view(out@) =~= lines_view(before).push(line@));
            assert(op.params@.subrange(0, i + 1).map_values(|p: ParamDef| param_line(p))
                =~= op.params@.subrange(0, i as int).map_values(|p: ParamDef| param_line(p)).push(
                param_line(op.params@[i as int]),
            ));
            assert(lines_view(out@) =~= lines_view(start) + op.params@.subrange(
                0,
                i + 1,
            ).map_values(|p: ParamDef| param_line(p)));
            i += 1;
        }
        assert(op.params@.subrange(0, op.params@.len() as int) =~= op.params@);
        assert(lines_view(out@) =~= with_desc + (seq!["  params:"@] + op.params@.map_values(
            |p: ParamDef| param_line(p),
        )));
    }
    let ghost with_params = with_desc + (if op.params@.len() > 0 {
        seq!["  params:"@] + op.params@.map_values(|p: ParamDef| param_line(p))
    } else {
        Seq::<Seq<char>>::empty()
    });
    assert(lines_view(out@) =~= with_params);
    if op.has_body {
        let ghost before = out@;
        out.push(String::from_str("  body: --body JSON or @file.json"));
        assert(lines_view(out@) =~= lines_view(before).push("  body: --body JSON or @file.json"@));
    }
    assert(lines_view(out@) =~= describe_text(resource@, *op));
    out
}

pub open spec fn op_names(ops: Seq<Operation>) -> Seq<Seq<char>> {
    ops.map_values(|o: Operation| o.name@)
}

pub open spec fn entries_view(v: Seq<(String, Vec<String>)>) -> Seq<(Seq<char>, Seq<Seq<char>>)> {
    v.map_values(|e: (String, Vec<String>)| (e.0@, lines_view(e.1@)))
}

/// Each resource's name with the names of its operations, in the tree's order.
pub fn list_entries(tree: &CommandTree) -> (r: Vec<(String, Vec<String>)>)
    ensures
        entries_view(r@) == tree.resources@.map_values(
            |res: crate::schema::Resource| (res.name@, op_names(res.ops@)),
        ),
{
    let ghost rs = tree.resources@;
    let mut out: Vec<(String, Vec<String>)> = Vec::new();
    let mut i: usize = 0;
    while i < tree.resources.len()
        invariant
            rs == tree.resources@,
            i <= rs.len(),
            entries_view(out@) == rs.subrange(0, i as int).map_values(
                |res: crate::schema::Resource| (res.name@, op_names(res.ops@)),
            ),
        decreases rs.len() - i,
    {
        let resource = &tree.resources[i];
        let ghost ops = resource.ops@;
        let mut names: Vec<String> = Vec::new();
        let mut j: usize = 0;
        while j < resource.ops.len()
            invariant
                ops == resource.ops@,
                j <= ops.len(),
                lines_view(names@) == op_names(ops.subrange(0, j as int)),
            decreases ops.len() - j,
        {
            let ghost prev = names@;
            names.push(resource.ops[j].name.clone());
            assert(lines_view(names@) =~= lines_view(prev).push(ops[j as int].name@));
            assert(op_names(ops.subrange(0, j + 1)) =~= op_names(ops.subrange(0, j as int)).push(
                ops[j as int].name@,
            ));
            assert(lines_view(names@) =~= op_names(ops.subrange(0, j + 1)));
            j += 1;
        }
        assert(ops.subrange(0, ops.len() as int) =~= ops);
        let ghost before = out@;
        let ghost names_view = lines_view(names@);
        assert(names_view == op_names(resource.ops@));
        out.push((resource.name.clone(), names));
        assert(entries_view(out@) =~= entries_view(before).push((resource.name@, names_view)));
        assert(rs.subrange(0, i + 1).map_values(
            |res: crate::schema::Resource| (res.name@, op_names(res.ops@)),
        ) =~= rs.subrange(0, i as int).map_values(
            |res: crate::schema::Resource| (res.name@, op_names(res.ops@)),
        ).push((rs[i as int].name@, op_names(rs[i as int].ops@))));
        assert(entries_view(out@) =~= rs.subrange(0, i + 1).map_values(
            |res: crate::schema::Resource| (res.name@, op_names(res.ops@)),
        ));
        i += 1;
    }
    assert(rs.subrange(0, rs.len() as int) =~= rs);
    out
}

} // verus!
