use pivot::ast::AstNode;
use pivot::combinators::{run_comb, Combinator};
use pivot::grammar::parse;
use pivot::lexical::Pattern;
use pivot::values::ParseValue;

fn ident(name: &str) -> AstNode {
    AstNode::identifier(name.to_string())
}

#[test]
fn parse_add_function() {
    let parsed = parse("function add(left, right) { return left + right; }");
    let expected = AstNode::program(vec![AstNode::function_definition(
        "add".to_string(),
        vec![ident("left"), ident("right")],
        AstNode::block(vec![AstNode::function_return(AstNode::add(
            ident("left"),
            ident("right"),
        ))]),
    )]);
    assert_eq!(parsed, expected);
}

#[test]
fn return_statement_wins_over_expression_statement() {
    // Statement-order precedence: the input begins with the keyword
    // `return`, which an identifier pattern could also consume; the
    // dispatcher must pick the return rule, not the expression statement.
    let parsed = parse("return x;");
    let expected = AstNode::program(vec![AstNode::function_return(ident("x"))]);
    assert_eq!(parsed, expected);
}

#[test]
fn identifier_that_starts_like_return_is_expression() {
    let parsed = parse("returns;");
    let expected = AstNode::program(vec![ident("returns")]);
    assert_eq!(parsed, expected);
}

#[test]
fn multiplication_binds_tighter_than_addition() {
    let parsed = parse("x = 1 + 2 * 3;");
    let expected = AstNode::program(vec![AstNode::assign(
        "x".to_string(),
        AstNode::add(
            AstNode::integer(1),
            AstNode::multiply(AstNode::integer(2), AstNode::integer(3)),
        ),
    )]);
    assert_eq!(parsed, expected);
}

#[test]
fn subtraction_folds_left_associatively() {
    let parsed = parse("x = 9 - 2 - 3;");
    let expected = AstNode::program(vec![AstNode::assign(
        "x".to_string(),
        AstNode::subtract(
            AstNode::subtract(AstNode::integer(9), AstNode::integer(2)),
            AstNode::integer(3),
        ),
    )]);
    assert_eq!(parsed, expected);
}

#[test]
fn comparison_operators_parse() {
    let parsed = parse("a == b; c != d;");
    let expected = AstNode::program(vec![
        AstNode::equal(ident("a"), ident("b")),
        AstNode::not_equal(ident("c"), ident("d")),
    ]);
    assert_eq!(parsed, expected);
}

#[test]
fn negation_wraps_the_atom() {
    let parsed = parse("x = !y;");
    let expected = AstNode::program(vec![AstNode::assign(
        "x".to_string(),
        AstNode::not(ident("y")),
    )]);
    assert_eq!(parsed, expected);
}

#[test]
fn parentheses_group_subexpressions() {
    let parsed = parse("x = (1 + 2) * 3;");
    let expected = AstNode::program(vec![AstNode::assign(
        "x".to_string(),
        AstNode::multiply(
            AstNode::add(AstNode::integer(1), AstNode::integer(2)),
            AstNode::integer(3),
        ),
    )]);
    assert_eq!(parsed, expected);
}

#[test]
fn call_with_arguments() {
    let parsed = parse("f(1, g(2), x);");
    let expected = AstNode::program(vec![AstNode::function_call(
        "f".to_string(),
        vec![
            AstNode::integer(1),
            AstNode::function_call("g".to_string(), vec![AstNode::integer(2)]),
            ident("x"),
        ],
    )]);
    assert_eq!(parsed, expected);
}

#[test]
fn call_without_arguments() {
    let parsed = parse("f();");
    let expected = AstNode::program(vec![AstNode::function_call("f".to_string(), vec![])]);
    assert_eq!(parsed, expected);
}

#[test]
fn if_with_and_without_else() {
    let parsed = parse("if (x) { y; } else { z; } if (a) { b; }");
    let expected = AstNode::program(vec![
        AstNode::if_statement(
            ident("x"),
            AstNode::block(vec![ident("y")]),
            Some(AstNode::block(vec![ident("z")])),
        ),
        AstNode::if_statement(ident("a"), AstNode::block(vec![ident("b")]), None),
    ]);
    assert_eq!(parsed, expected);
}

#[test]
fn while_loop_parses() {
    let parsed = parse("while (x != 0) { x = x - 1; }");
    let expected = AstNode::program(vec![AstNode::while_loop(
        AstNode::not_equal(ident("x"), AstNode::integer(0)),
        AstNode::block(vec![AstNode::assign(
            "x".to_string(),
            AstNode::subtract(ident("x"), AstNode::integer(1)),
        )]),
    )]);
    assert_eq!(parsed, expected);
}

#[test]
fn var_statement_parses_to_definition() {
    let parsed = parse("var x = 4;");
    let expected = AstNode::program(vec![AstNode::variable_definition(
        "x".to_string(),
        AstNode::integer(4),
    )]);
    assert_eq!(parsed, expected);
}

#[test]
fn whitespace_and_comments_are_skipped() {
    let parsed = parse("  // leading comment\n  x /* inline */ = 1 ;\t\n");
    let expected = AstNode::program(vec![AstNode::assign(
        "x".to_string(),
        AstNode::integer(1),
    )]);
    assert_eq!(parsed, expected);
}

#[test]
fn empty_source_is_an_empty_program() {
    assert_eq!(parse(""), AstNode::program(vec![]));
}

#[test]
fn garbage_yields_an_empty_program() {
    assert_eq!(parse("@@@@"), AstNode::program(vec![]));
}

#[test]
fn statement_without_semicolon_is_not_taken() {
    assert_eq!(parse("x = 1"), AstNode::program(vec![]));
}

#[test]
fn oversized_integer_literal_is_rejected() {
    // 2147483648 is one past the largest accepted literal, so the number
    // conversion fails, no statement matches, and the program is empty.
    assert_eq!(parse("x = 2147483648;"), AstNode::program(vec![]));
    let parsed = parse("x = 2147483647;");
    let expected = AstNode::program(vec![AstNode::assign(
        "x".to_string(),
        AstNode::integer(2147483647),
    )]);
    assert_eq!(parsed, expected);
}

#[test]
fn leading_zeros_canonicalize() {
    let parsed = parse("x = 007;");
    let expected = AstNode::program(vec![AstNode::assign(
        "x".to_string(),
        AstNode::integer(7),
    )]);
    assert_eq!(parsed, expected);
}

#[test]
fn nested_function_definitions_parse() {
    let parsed = parse("function f() { function g() { return 1; } }");
    let expected = AstNode::program(vec![AstNode::function_definition(
        "f".to_string(),
        vec![],
        AstNode::block(vec![AstNode::function_definition(
            "g".to_string(),
            vec![],
            AstNode::block(vec![AstNode::function_return(AstNode::integer(1))]),
        )]),
    )]);
    assert_eq!(parsed, expected);
}

#[test]
fn engine_runs_a_hand_built_combinator() {
    // An identifier token, then an ignored semicolon: the reported value is
    // the identifier text alone, and the cursor stands past the semicolon.
    let c = Combinator::pattern(Pattern::Ident)
        .and(Combinator::pattern(Pattern::Lit(";".to_string())).ignore());
    let src = "abc;rest";
    let out = run_comb(&c, src, src.len(), 0, 8);
    match out {
        Some((ParseValue::Text(t), p)) => {
            assert_eq!(t, "abc");
            assert_eq!(p, 4);
        }
        other => panic!("unexpected engine result: {:?}", other),
    }
}

#[test]
fn alternative_retries_from_the_original_position() {
    // The first alternative consumes "ab" and then fails on ";", so the
    // second is tried against the untouched input.
    let first = Combinator::pattern(Pattern::Lit("ab".to_string()))
        .and(Combinator::pattern(Pattern::Lit(";".to_string())));
    let second = Combinator::pattern(Pattern::Lit("abc".to_string()));
    let c = first.or(second);
    let src = "abc";
    let out = run_comb(&c, src, src.len(), 0, 8);
    match out {
        Some((ParseValue::Text(t), p)) => {
            assert_eq!(t, "abc");
            assert_eq!(p, 3);
        }
        other => panic!("unexpected engine result: {:?}", other),
    }
}

#[test]
fn bounded_repeat_stops_at_first_failure() {
    // An unbounded repetition takes what matches and stops at the first
    // failure without propagating it: one number, then the space ends it.
    let zero_or_more = Combinator::pattern(Pattern::Number).repeat_range(0, None);
    let src = "12 x";
    let out = run_comb(&zero_or_more, src, src.len(), 0, 8);
    match out {
        Some((ParseValue::List(items), p)) => {
            assert_eq!(items.len(), 1);
            assert_eq!(p, 2);
        }
        other => panic!("unexpected engine result: {:?}", other),
    }
    // A mandatory minimum that cannot be met sinks the whole repetition.
    let at_least_one = Combinator::pattern(Pattern::Number).repeat_range(1, Some(2));
    assert!(run_comb(&at_least_one, "x", 1, 0, 8).is_none());
}
