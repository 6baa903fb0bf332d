use xendit_cli::body::{body_source, parse_body_text, BodySource};
use xendit_cli::plan::plan_request;
use xendit_cli::request::{build_request_parts, find_arg_value, replace_path_param, CliError};
use xendit_cli::schema::{find_op, CommandTree, Operation, ParamDef, Resource};

fn param(name: &str, flag: &str, location: &str, required: bool) -> ParamDef {
    ParamDef {
        name: name.to_string(),
        flag: flag.to_string(),
        location: location.to_string(),
        required,
    }
}

fn operation(name: &str, method: &str, path: &str, params: Vec<ParamDef>, has_body: bool) -> Operation {
    Operation {
        name: name.to_string(),
        method: method.to_string(),
        path: path.to_string(),
        description: None,
        params,
        has_body,
    }
}

fn args(pairs: &[(&str, &str)]) -> Vec<(String, String)> {
    pairs.iter().map(|(k, v)| (k.to_string(), v.to_string())).collect()
}

fn invoices_tree() -> CommandTree {
    CommandTree {
        version: 1,
        base_url: "https://api.xendit.co".to_string(),
        resources: vec![Resource {
            name: "invoices".to_string(),
            ops: vec![
                operation(
                    "get",
                    "GET",
                    "/v2/invoices/{id}",
                    vec![param("id", "id", "path", true)],
                    false,
                ),
                operation("create", "POST", "/v2/invoices", vec![], true),
            ],
        }],
    }
}

#[test]
fn braced_placeholder_is_substituted() {
    let op = operation("get", "GET", "/v2/invoices/{id}", vec![param("id", "id", "path", true)], false);
    let (path, query) = build_request_parts(&op, &args(&[("id", "inv_1")])).unwrap();
    assert_eq!(path, "/v2/invoices/inv_1");
    assert!(query.is_empty());
}

#[test]
fn colon_placeholder_is_substituted() {
    let op = operation("get", "GET", "/v2/invoices/:id", vec![param("id", "id", "path", true)], false);
    let (path, _) = build_request_parts(&op, &args(&[("id", "inv_2")])).unwrap();
    assert_eq!(path, "/v2/invoices/inv_2");
}

#[test]
fn double_braced_placeholder_is_substituted() {
    let op = operation("get", "GET", "/v2/invoices/{{id}}", vec![param("id", "id", "path", true)], false);
    let (path, _) = build_request_parts(&op, &args(&[("id", "inv_3")])).unwrap();
    assert_eq!(path, "/v2/invoices/inv_3");
}

#[test]
fn every_occurrence_is_substituted() {
    assert_eq!(replace_path_param("/a/{id}/b/{id}", "id", "x"), "/a/x/b/x");
    assert_eq!(replace_path_param("/a/:id/{{id}}", "id", "y"), "/a/y/y");
    assert_eq!(replace_path_param("/a/{other}", "id", "z"), "/a/{other}");
}

#[test]
fn missing_path_param_names_its_flag() {
    let op = operation(
        "get",
        "GET",
        "/v1/customers/{customer_id}",
        vec![param("customer_id", "customer-id", "path", true)],
        false,
    );
    match build_request_parts(&op, &args(&[])) {
        Err(CliError::MissingArgument { flag }) => assert_eq!(flag, "customer-id"),
        other => panic!("unexpected {:?}", other),
    }
}

#[test]
fn first_missing_path_param_is_reported() {
    let op = operation(
        "get",
        "GET",
        "/a/{x}/b/{y}",
        vec![param("x", "xf", "path", true), param("y", "yf", "path", false)],
        false,
    );
    match build_request_parts(&op, &args(&[("x", "1")])) {
        Err(CliError::MissingArgument { flag }) => assert_eq!(flag, "yf"),
        other => panic!("unexpected {:?}", other),
    }
}

#[test]
fn omitted_required_query_param_does_not_block() {
    let op = operation(
        "list",
        "GET",
        "/v2/invoices",
        vec![param("limit", "limit", "query", true), param("status", "status", "query", false)],
        false,
    );
    let (path, query) = build_request_parts(&op, &args(&[("status", "PAID")])).unwrap();
    assert_eq!(path, "/v2/invoices");
    assert_eq!(query, args(&[("status", "PAID")]));
}

#[test]
fn query_pairs_keep_declaration_order() {
    let op = operation(
        "list",
        "GET",
        "/v2/invoices",
        vec![param("b", "b", "query", false), param("a", "a", "query", false)],
        false,
    );
    let (_, query) = build_request_parts(&op, &args(&[("a", "1"), ("b", "2")])).unwrap();
    assert_eq!(query, args(&[("b", "2"), ("a", "1")]));
}

#[test]
fn unknown_location_is_ignored() {
    let op = operation("list", "GET", "/v2/x", vec![param("h", "h", "header", true)], false);
    let (path, query) = build_request_parts(&op, &args(&[("h", "v")])).unwrap();
    assert_eq!(path, "/v2/x");
    assert!(query.is_empty());
}

#[test]
fn leftover_placeholder_is_unresolved() {
    let op = operation("get", "GET", "/v2/{account}/invoices", vec![], false);
    match build_request_parts(&op, &args(&[])) {
        Err(CliError::UnresolvedPath { path }) => assert_eq!(path, "/v2/{account}/invoices"),
        other => panic!("unexpected {:?}", other),
    }
}

#[test]
fn leftover_colon_placeholder_is_unresolved() {
    let op = operation("get", "GET", "/v2/:x", vec![], false);
    match build_request_parts(&op, &args(&[])) {
        Err(CliError::UnresolvedPath { path }) => assert_eq!(path, "/v2/:x"),
        other => panic!("unexpected {:?}", other),
    }
    let op = operation("get", "GET", ":x/items", vec![], false);
    assert!(matches!(build_request_parts(&op, &args(&[])), Err(CliError::UnresolvedPath { .. })));
}

#[test]
fn colon_placeholder_inside_a_segment_is_unresolved() {
    let op = operation("get", "GET", "/v2/a:x", vec![], false);
    match build_request_parts(&op, &args(&[])) {
        Err(CliError::UnresolvedPath { path }) => assert_eq!(path, "/v2/a:x"),
        other => panic!("unexpected {:?}", other),
    }
    let op = operation("cancel", "POST", "/v2/items/{id}:cancel", vec![param("id", "id", "path", true)], false);
    match build_request_parts(&op, &args(&[("id", "it_1")])) {
        Err(CliError::UnresolvedPath { path }) => assert_eq!(path, "/v2/items/it_1:cancel"),
        other => panic!("unexpected {:?}", other),
    }
}

#[test]
fn colon_without_a_name_is_kept() {
    let op = operation("get", "GET", "/v2/a:/b", vec![], false);
    let (path, _) = build_request_parts(&op, &args(&[])).unwrap();
    assert_eq!(path, "/v2/a:/b");
}

#[test]
fn omitting_a_query_value_keeps_the_outcome() {
    let op = operation(
        "get",
        "GET",
        "/v2/invoices/{id}",
        vec![param("id", "id", "path", true), param("limit", "limit", "query", true)],
        false,
    );
    assert!(build_request_parts(&op, &args(&[("id", "i"), ("limit", "5")])).is_ok());
    assert!(build_request_parts(&op, &args(&[("id", "i")])).is_ok());
}

#[test]
fn omitted_required_query_param_adds_no_pair() {
    let op = operation(
        "get",
        "GET",
        "/v2/invoices/{id}",
        vec![param("id", "id", "path", true), param("for_user", "for-user", "query", true)],
        false,
    );
    let (path, query) = build_request_parts(&op, &args(&[("id", "i1")])).unwrap();
    assert_eq!(path, "/v2/invoices/i1");
    assert!(query.iter().all(|(n, _)| n != "for_user"));
}

#[test]
fn first_supplied_value_wins() {
    let supplied = args(&[("id", "one"), ("id", "two")]);
    assert_eq!(find_arg_value(&supplied, "id"), Some("one".to_string()));
    assert_eq!(find_arg_value(&supplied, "other"), None);
}

#[test]
fn body_argument_with_at_names_a_file() {
    match body_source("@file.json") {
        BodySource::File(p) => assert_eq!(p, "file.json"),
        other => panic!("unexpected {:?}", other),
    }
    match body_source("{\"a\":1}") {
        BodySource::Inline(t) => assert_eq!(t, "{\"a\":1}"),
        other => panic!("unexpected {:?}", other),
    }
}

#[test]
fn inline_and_file_bodies_agree() {
    let inline = parse_body_text("{\"a\":1}").unwrap();
    let contents = String::from("{\"a\":1}");
    let from_file = parse_body_text(&contents).unwrap();
    assert_eq!(inline, from_file);
    let mut expected = serde_json::Map::new();
    expected.insert("a".to_string(), serde_json::Value::from(1));
    assert_eq!(inline, serde_json::Value::Object(expected));
}

#[test]
fn malformed_body_is_invalid() {
    assert!(matches!(parse_body_text("{\"a\":"), Err(CliError::InvalidBody)));
    assert!(matches!(parse_body_text(""), Err(CliError::InvalidBody)));
    assert!(matches!(parse_body_text("@{\"a\":1}"), Err(CliError::InvalidBody)));
}

#[test]
fn find_op_by_resource_and_name() {
    let tree = invoices_tree();
    let op = find_op(&tree, "invoices", "create").unwrap();
    assert_eq!(op.method, "POST");
    assert!(find_op(&tree, "invoices", "delete").is_none());
    assert!(find_op(&tree, "customers", "get").is_none());
}

#[test]
fn end_to_end_invoice_get() {
    let tree = invoices_tree();
    let plan = plan_request(&tree, "invoices", "get", &args(&[("id", "abc123")]), None).unwrap();
    assert_eq!(plan.method, "GET");
    assert_eq!(plan.path, "/v2/invoices/abc123");
    assert!(plan.query.is_empty());
    assert!(plan.body.is_none());
}

#[test]
fn plan_reports_unknown_command() {
    let tree = invoices_tree();
    match plan_request(&tree, "invoices", "void", &args(&[]), None) {
        Err(CliError::UnknownCommand { resource, op }) => {
            assert_eq!(resource, "invoices");
            assert_eq!(op, "void");
        }
        other => panic!("unexpected {:?}", other),
    }
}

#[test]
fn plan_keeps_body_only_where_taken() {
    let tree = invoices_tree();
    let plan = plan_request(&tree, "invoices", "create", &args(&[]), Some("@b.json")).unwrap();
    assert!(matches!(plan.body, Some(BodySource::File(ref p)) if p == "b.json"));
    let plan = plan_request(&tree, "invoices", "get", &args(&[("id", "x")]), Some("{}")).unwrap();
    assert!(plan.body.is_none());
    let plan = plan_request(&tree, "invoices", "create", &args(&[]), None).unwrap();
    assert!(plan.body.is_none());
}
