use pivot::ast::AstNode;
use pivot::grammar::parse;
use pivot::hoist::{hoist_program, hoist_statements};

fn ident(name: &str) -> AstNode {
    AstNode::identifier(name.to_string())
}

fn sample_body() -> Vec<AstNode> {
    vec![
        AstNode::variable_definition("x".to_string(), AstNode::integer(1)),
        AstNode::assign(
            "x".to_string(),
            AstNode::add(ident("x"), AstNode::integer(1)),
        ),
    ]
}

#[test]
fn definition_splits_into_declaration_and_assignment() {
    // "var x = 1; x = x + 1;" inside a function body hoists to: the
    // declaration of x first, then the assignment of 1, then the assignment
    // of x + 1.
    let hoisted = hoist_statements(sample_body());
    let expected = vec![
        AstNode::variable_declaration("x".to_string()),
        AstNode::assign("x".to_string(), AstNode::integer(1)),
        AstNode::assign(
            "x".to_string(),
            AstNode::add(ident("x"), AstNode::integer(1)),
        ),
    ];
    assert_eq!(hoisted, expected);
}

#[test]
fn hoisting_is_idempotent_on_hoisted_bodies() {
    let once = hoist_statements(sample_body());
    let again: Vec<AstNode> = hoist_statements(hoist_statements(sample_body()));
    assert_eq!(again, once);
}

#[test]
fn body_without_definitions_is_unchanged() {
    let body = vec![
        AstNode::variable_declaration("x".to_string()),
        AstNode::assign("x".to_string(), AstNode::integer(2)),
        AstNode::function_return(ident("x")),
    ];
    let body_again = vec![
        AstNode::variable_declaration("x".to_string()),
        AstNode::assign("x".to_string(), AstNode::integer(2)),
        AstNode::function_return(ident("x")),
    ];
    assert_eq!(hoist_statements(body), body_again);
}

#[test]
fn declarations_gather_in_first_seen_order() {
    let body = vec![
        AstNode::variable_definition("a".to_string(), AstNode::integer(1)),
        ident("q"),
        AstNode::variable_definition("b".to_string(), AstNode::integer(2)),
    ];
    let hoisted = hoist_statements(body);
    let expected = vec![
        AstNode::variable_declaration("a".to_string()),
        AstNode::variable_declaration("b".to_string()),
        AstNode::assign("a".to_string(), AstNode::integer(1)),
        ident("q"),
        AstNode::assign("b".to_string(), AstNode::integer(2)),
    ];
    assert_eq!(hoisted, expected);
}

#[test]
fn hoist_program_rewrites_each_function_body() {
    let parsed = parse("function f() { var x = 1; return x; }");
    let hoisted = hoist_program(parsed);
    let expected = AstNode::program(vec![AstNode::function_definition(
        "f".to_string(),
        vec![],
        AstNode::block(vec![
            AstNode::variable_declaration("x".to_string()),
            AstNode::assign("x".to_string(), AstNode::integer(1)),
            AstNode::function_return(ident("x")),
        ]),
    )]);
    assert_eq!(hoisted, expected);
}

#[test]
fn hoist_program_leaves_other_statements_alone() {
    let parsed = parse("x = 1;");
    let hoisted = hoist_program(parsed);
    let expected = AstNode::program(vec![AstNode::assign(
        "x".to_string(),
        AstNode::integer(1),
    )]);
    assert_eq!(hoisted, expected);
}
