use pivot::ast::AstNode;
use pivot::codegen::{codegen, count_whiles, emit_node, SymbolGenerator};
use pivot::compile;
use pivot::numeral::dec_string;

fn ident(name: &str) -> AstNode {
    AstNode::identifier(name.to_string())
}

#[test]
fn round_trip_add_function() {
    // Parsing the two-parameter add function and emitting it yields the
    // module text verbatim: module wrapper, export clause and result-type
    // inference all present.
    let out = compile("function add(left, right) { return left + right; }").unwrap();
    assert_eq!(
        out,
        "(module (func $add (param $left i32) (param $right i32) (result i32) \
         (get_local $left) (get_local $right) (i32.add (get_local $left) (get_local $right)) \
         (return)) (export \"add\" (func $add)))"
    );
}

#[test]
fn empty_source_emits_bare_module() {
    assert_eq!(compile("").unwrap(), "(module)");
}

#[test]
fn unparsable_source_emits_bare_module() {
    assert_eq!(compile("var x = 99999999999;").unwrap(), "(module)");
}

#[test]
fn function_without_return_has_no_result_clause() {
    let out = compile("function f() { x = 1; }").unwrap();
    assert!(!out.contains("(result i32)"));
    let with = compile("function g() { return 2; }").unwrap();
    assert!(with.contains("(result i32)"));
}

#[test]
fn two_loops_get_distinct_labels() {
    // One module emission with one symbol generator: the two independent
    // while loops wear the labels while1 and while2.
    let out = compile(
        "function f() { while (a) { x = 1; } while (b) { y = 2; } }",
    )
    .unwrap();
    assert!(out.contains("$while1 "));
    assert!(out.contains("$while2 "));
    assert!(!out.contains("$while3"));
}

#[test]
fn while_emission_wraps_block_and_loop() {
    let mut gen = SymbolGenerator::new();
    let node = AstNode::while_loop(
        ident("c"),
        AstNode::block(vec![AstNode::assign("x".to_string(), AstNode::integer(1))]),
    );
    let out = emit_node(&node, &mut gen);
    assert_eq!(
        out,
        "(block $while1 (loop $while1_loop (set_local $x (i32.const 1)) \
         (br_if $while1 (i32.eq (i32.const 0) (get_local $c))) (br $while1_loop)))"
    );
    assert_eq!(gen.counter, 1);
}

#[test]
fn if_emission_with_and_without_else() {
    let mut gen = SymbolGenerator::new();
    let with_else = AstNode::if_statement(ident("c"), ident("t"), Some(ident("e")));
    assert_eq!(
        emit_node(&with_else, &mut gen),
        "(if (get_local $c) (then (get_local $t)) (else (get_local $e)))"
    );
    let without = AstNode::if_statement(ident("c"), ident("t"), None);
    assert_eq!(
        emit_node(&without, &mut gen),
        "(if (get_local $c) (then (get_local $t)))"
    );
}

#[test]
fn operator_emission_uses_signed_division() {
    let out = compile("x = a / b; y = a != b;").unwrap();
    assert!(out.contains("(i32.div_s (get_local $a) (get_local $b))"));
    assert!(out.contains("(i32.ne (get_local $a) (get_local $b))"));
}

#[test]
fn negation_emits_comparison_with_zero() {
    let mut gen = SymbolGenerator::new();
    let node = AstNode::not(ident("p"));
    assert_eq!(
        emit_node(&node, &mut gen),
        "(i32.eq (i32.const 0) (get_local $p))"
    );
}

#[test]
fn declaration_and_call_emission() {
    let mut gen = SymbolGenerator::new();
    assert_eq!(
        emit_node(&AstNode::variable_declaration("n".to_string()), &mut gen),
        "(local $n i32)"
    );
    let call = AstNode::function_call(
        "f".to_string(),
        vec![AstNode::integer(1), ident("x")],
    );
    assert_eq!(
        emit_node(&call, &mut gen),
        "(call $f (i32.const 1) (get_local $x))"
    );
}

#[test]
fn hoisted_local_is_declared_before_use() {
    let out = compile("function f() { var x = 3; return x; }").unwrap();
    assert_eq!(
        out,
        "(module (func $f (result i32) (local $x i32)(set_local $x (i32.const 3))\
         (get_local $x) (return)) (export \"f\" (func $f)))"
    );
}

#[test]
fn codegen_emits_a_constructed_tree() {
    let program = AstNode::program(vec![AstNode::function_definition(
        "one".to_string(),
        vec![],
        AstNode::block(vec![AstNode::function_return(AstNode::integer(1))]),
    )]);
    let out = codegen(&program).unwrap();
    assert_eq!(
        out,
        "(module (func $one (result i32) (i32.const 1) (return)) (export \"one\" (func $one)))"
    );
}

#[test]
fn while_count_counts_nested_loops() {
    let node = AstNode::while_loop(
        ident("a"),
        AstNode::block(vec![AstNode::while_loop(
            ident("b"),
            AstNode::block(vec![]),
        )]),
    );
    assert_eq!(count_whiles(&node), 2);
}

#[test]
fn decimal_rendering_matches() {
    assert_eq!(dec_string(0), "0");
    assert_eq!(dec_string(7), "7");
    assert_eq!(dec_string(12345), "12345");
    assert_eq!(dec_string(u64::MAX), "18446744073709551615");
}

#[test]
fn integer_constructor_renders_decimal() {
    assert_eq!(AstNode::integer(0).value, "0");
    assert_eq!(AstNode::integer(2147483647).value, "2147483647");
    assert_eq!(AstNode::integer(-12).value, "-12");
    assert_eq!(AstNode::integer(i32::MIN).value, "-2147483648");
}

#[test]
fn symbol_generator_hands_out_fresh_numbers() {
    let mut gen = SymbolGenerator::new();
    assert_eq!(gen.next(), 1);
    assert_eq!(gen.next(), 2);
    assert_eq!(gen.next(), 3);
    assert_eq!(gen.counter, 3);
}
