use xendit_cli::cli::{build_command_specs, build_op_command, build_param_arg};
use xendit_cli::introspect::{describe_lines, list_entries, list_lines, trim_white};
use xendit_cli::schema::{CommandTree, Operation, ParamDef, Resource};

fn param(name: &str, flag: &str, location: &str, required: bool) -> ParamDef {
    ParamDef {
        name: name.to_string(),
        flag: flag.to_string(),
        location: location.to_string(),
        required,
    }
}

fn sample_tree() -> CommandTree {
    CommandTree {
        version: 1,
        base_url: "https://api.xendit.co".to_string(),
        resources: vec![
            Resource {
                name: "invoices".to_string(),
                ops: vec![
                    Operation {
                        name: "get".to_string(),
                        method: "GET".to_string(),
                        path: "/v2/invoices/{id}".to_string(),
                        description: Some("  Fetch one invoice \n".to_string()),
                        params: vec![param("id", "id", "path", true)],
                        has_body: false,
                    },
                    Operation {
                        name: "create".to_string(),
                        method: "POST".to_string(),
                        path: "/v2/invoices".to_string(),
                        description: Some("   ".to_string()),
                        params: vec![param("for_user", "for-user", "query", true)],
                        has_body: true,
                    },
                ],
            },
            Resource { name: "balance".to_string(), ops: vec![] },
        ],
    }
}

#[test]
fn only_required_path_params_are_mandatory() {
    assert!(build_param_arg(&param("id", "id", "path", true)).required);
    assert!(!build_param_arg(&param("id", "id", "path", false)).required);
    assert!(!build_param_arg(&param("limit", "limit", "query", true)).required);
    let arg = build_param_arg(&param("for_user", "for-user", "query", false));
    assert_eq!(arg.id, "for_user");
    assert_eq!(arg.long, "for-user");
}

#[test]
fn body_flag_follows_params() {
    let tree = sample_tree();
    let cmd = build_op_command(&tree.resources[0].ops[1]);
    assert_eq!(cmd.name, "create");
    assert_eq!(cmd.about, "/v2/invoices");
    assert_eq!(cmd.args.len(), 2);
    assert_eq!(cmd.args[0].long, "for-user");
    assert_eq!(cmd.args[1].id, "body");
    assert_eq!(cmd.args[1].long, "body");
    assert!(!cmd.args[1].required);
    assert_eq!(build_op_command(&tree.resources[0].ops[0]).args.len(), 1);
}

#[test]
fn command_specs_mirror_the_tree() {
    let specs = build_command_specs(&sample_tree());
    assert_eq!(specs.len(), 2);
    assert_eq!(specs[0].name, "invoices");
    assert_eq!(specs[0].ops.len(), 2);
    assert_eq!(specs[0].ops[0].name, "get");
    assert_eq!(specs[1].name, "balance");
    assert!(specs[1].ops.is_empty());
}

#[test]
fn listing_indents_operations() {
    assert_eq!(list_lines(&sample_tree()), vec!["invoices", "  get", "  create", "balance"]);
}

#[test]
fn describe_shows_trimmed_description_and_params() {
    let tree = sample_tree();
    assert_eq!(
        describe_lines("invoices", &tree.resources[0].ops[0]),
        vec![
            "invoices get",
            "  method: GET",
            "  path: /v2/invoices/{id}",
            "  description: Fetch one invoice",
            "  params:",
            "    --id  path (required)",
        ]
    );
}

#[test]
fn describe_skips_blank_description_and_shows_body() {
    let tree = sample_tree();
    assert_eq!(
        describe_lines("invoices", &tree.resources[0].ops[1]),
        vec![
            "invoices create",
            "  method: POST",
            "  path: /v2/invoices",
            "  params:",
            "    --for-user  query (required)",
            "  body: --body JSON or @file.json",
        ]
    );
}

#[test]
fn trim_removes_white_space_at_both_ends() {
    assert_eq!(trim_white("\t a b \u{3000}"), "a b");
    assert_eq!(trim_white("   "), "");
}

#[test]
fn list_entries_pair_resources_with_operation_names() {
    let entries = list_entries(&sample_tree());
    assert_eq!(
        entries,
        vec![
            ("invoices".to_string(), vec!["get".to_string(), "create".to_string()]),
            ("balance".to_string(), vec![]),
        ]
    );
}
