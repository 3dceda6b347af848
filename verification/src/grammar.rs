use vstd::prelude::*;
use crate::ast::{AstNode, AstNodeKind, AstV, ast_list, ast_view_seq};
use crate::combinators::{
    Combinator, CombinatorV, RuleId, alt_v, fwd_v, ignore_v, map_v, pat_v, rep_v, run, run_comb,
    seq_v,
};
use crate::lexical::{Pattern, PatternV};
use crate::transforms::TransformKind;
use crate::values::{ParseValue, ValueV};

verus! {

// ---------------------------------------------------------------------------
// The grammar, spec side. Each token first skips whitespace and comments:
// lexing is fused into the grammar, there is no separate tokenizer.
// ---------------------------------------------------------------------------
/// Whitespace or a comment, any number of times.
pub open spec fn ignored_v() -> CombinatorV {
    rep_v(
        alt_v(
            pat_v(PatternV::Whitespace),
            alt_v(pat_v(PatternV::LineComment), pat_v(PatternV::BlockComment)),
        ),
        0,
        Option::None,
    )
}

/// A token: skip the ignorable text, match the pattern.
pub open spec fn token_v(p: PatternV) -> CombinatorV {
    seq_v(ignore_v(ignored_v()), pat_v(p))
}

pub open spec fn identifier_node_v() -> CombinatorV {
    map_v(token_v(PatternV::Ident), TransformKind::IdentifierName)
}

pub open spec fn number_node_v() -> CombinatorV {
    map_v(token_v(PatternV::Number), TransformKind::IntegerLiteral)
}

/// An operator token, turned into an operator node template.
pub open spec fn op_tpl_v(lit: Seq<char>, kind: AstNodeKind) -> CombinatorV {
    map_v(token_v(PatternV::Lit(lit)), TransformKind::Operator(kind))
}

/// A parenthesized expression; its value is the expression's.
pub open spec fn grouped_v() -> CombinatorV {
    seq_v(
        seq_v(ignore_v(token_v(PatternV::Lit("("@))), fwd_v(RuleId::Expression)),
        ignore_v(token_v(PatternV::Lit(")"@))),
    )
}

/// Call arguments: an expression, then comma-led expressions, flattened.
pub open spec fn args_v() -> CombinatorV {
    map_v(
        seq_v(
            fwd_v(RuleId::Expression),
            rep_v(
                seq_v(ignore_v(token_v(PatternV::Lit(","@))), fwd_v(RuleId::Expression)),
                0,
                Option::None,
            ),
        ),
        TransformKind::ListFlatten,
    )
}

/// A call: an identifier followed directly by a parenthesis group.
pub open spec fn call_v() -> CombinatorV {
    map_v(
        seq_v(
            seq_v(
                seq_v(identifier_node_v(), ignore_v(token_v(PatternV::Lit("("@)))),
                rep_v(args_v(), 0, Option::Some(1nat)),
            ),
            ignore_v(token_v(PatternV::Lit(")"@))),
        ),
        TransformKind::CallNode,
    )
}

pub open spec fn atom_v() -> CombinatorV {
    alt_v(alt_v(alt_v(call_v(), identifier_node_v()), number_node_v()), grouped_v())
}

pub open spec fn unary_v() -> CombinatorV {
    map_v(
        seq_v(rep_v(token_v(PatternV::Lit("!"@)), 0, Option::Some(1nat)), atom_v()),
        TransformKind::UnaryNot,
    )
}

/// One precedence layer: a term, then operator-term pairs, folded left.
pub open spec fn infix_v(op: CombinatorV, term: CombinatorV) -> CombinatorV {
    map_v(
        seq_v(term, rep_v(seq_v(op, term), 0, Option::None)),
        TransformKind::InfixFold,
    )
}

pub open spec fn product_v() -> CombinatorV {
    infix_v(
        alt_v(op_tpl_v("*"@, AstNodeKind::Multiply), op_tpl_v("/"@, AstNodeKind::Divide)),
        unary_v(),
    )
}

pub open spec fn sum_v() -> CombinatorV {
    infix_v(
        alt_v(op_tpl_v("+"@, AstNodeKind::Add), op_tpl_v("-"@, AstNodeKind::Subtract)),
        product_v(),
    )
}

pub open spec fn comparison_v() -> CombinatorV {
    infix_v(
        alt_v(op_tpl_v("=="@, AstNodeKind::Equal), op_tpl_v("!="@, AstNodeKind::NotEqual)),
        sum_v(),
    )
}

pub open spec fn expression_body_v() -> CombinatorV {
    comparison_v()
}

pub open spec fn return_stmt_v() -> CombinatorV {
    map_v(
        seq_v(
            seq_v(ignore_v(token_v(PatternV::Word("return"@))), fwd_v(RuleId::Expression)),
            ignore_v(token_v(PatternV::Lit(";"@))),
        ),
        TransformKind::ReturnNode,
    )
}

pub open spec fn expression_stmt_v() -> CombinatorV {
    seq_v(fwd_v(RuleId::Expression), ignore_v(token_v(PatternV::Lit(";"@))))
}

pub open spec fn if_stmt_v() -> CombinatorV {
    map_v(
        seq_v(
            seq_v(
                seq_v(ignore_v(token_v(PatternV::Word("if"@))), grouped_v()),
                fwd_v(RuleId::Statement),
            ),
            rep_v(
                seq_v(ignore_v(token_v(PatternV::Word("else"@))), fwd_v(RuleId::Statement)),
                0,
                Option::Some(1nat),
            ),
        ),
        TransformKind::IfNode,
    )
}

pub open spec fn while_stmt_v() -> CombinatorV {
    map_v(
        seq_v(
            seq_v(ignore_v(token_v(PatternV::Word("while"@))), grouped_v()),
            fwd_v(RuleId::Statement),
        ),
        TransformKind::WhileNode,
    )
}

pub open spec fn var_stmt_v() -> CombinatorV {
    map_v(
        seq_v(
            seq_v(
                seq_v(
                    seq_v(ignore_v(token_v(PatternV::Word("var"@))), identifier_node_v()),
                    ignore_v(token_v(PatternV::Lit("="@))),
                ),
                fwd_v(RuleId::Expression),
            ),
            ignore_v(token_v(PatternV::Lit(";"@))),
        ),
        TransformKind::VarNode,
    )
}

pub open spec fn assignment_stmt_v() -> CombinatorV {
    map_v(
        seq_v(
            seq_v(
                seq_v(identifier_node_v(), ignore_v(token_v(PatternV::Lit("="@)))),
                fwd_v(RuleId::Expression),
            ),
            ignore_v(token_v(PatternV::Lit(";"@))),
        ),
        TransformKind::AssignNode,
    )
}

pub open spec fn block_stmt_v() -> CombinatorV {
    map_v(
        seq_v(
            seq_v(
                ignore_v(token_v(PatternV::Lit("{"@))),
                rep_v(fwd_v(RuleId::Statement), 0, Option::None),
            ),
            ignore_v(token_v(PatternV::Lit("}"@))),
        ),
        TransformKind::BlockNode,
    )
}

/// Parameter names: an identifier, then comma-led identifiers, flattened.
pub open spec fn params_v() -> CombinatorV {
    map_v(
        seq_v(
            identifier_node_v(),
            rep_v(
                seq_v(ignore_v(token_v(PatternV::Lit(","@))), identifier_node_v()),
                0,
                Option::None,
            ),
        ),
        TransformKind::ListFlatten,
    )
}

pub open spec fn func_stmt_v() -> CombinatorV {
    map_v(
        seq_v(
            seq_v(
                seq_v(ignore_v(token_v(PatternV::Word("function"@))), identifier_node_v()),
                seq_v(
                    seq_v(
                        ignore_v(token_v(PatternV::Lit("("@))),
                        rep_v(params_v(), 0, Option::Some(1nat)),
                    ),
                    ignore_v(token_v(PatternV::Lit(")"@))),
                ),
            ),
            block_stmt_v(),
        ),
        TransformKind::FuncNode,
    )
}

/// The statement dispatcher: ordered choice fixes precedence, so the
/// `return` rule is tried before the bare expression statement that could
/// consume the same identifier-like prefix.
pub open spec fn statement_body_v() -> CombinatorV {
    alt_v(
        alt_v(
            alt_v(
                alt_v(
                    alt_v(
                        alt_v(alt_v(return_stmt_v(), if_stmt_v()), while_stmt_v()),
                        var_stmt_v(),
                    ),
                    assignment_stmt_v(),
                ),
                block_stmt_v(),
            ),
            func_stmt_v(),
        ),
        expression_stmt_v(),
    )
}

/// What a `Forward` reference resolves to.
pub open spec fn rule_body_v(r: RuleId) -> CombinatorV {
    match r {
        RuleId::Statement => statement_body_v(),
        RuleId::Expression => expression_body_v(),
    }
}

/// A whole program: statements, each after optional ignorable text, for as
/// long as statements keep matching.
pub open spec fn program_rule_v() -> CombinatorV {
    map_v(
        rep_v(
            seq_v(
                ignore_v(rep_v(ignored_v(), 0, Option::Some(1nat))),
                fwd_v(RuleId::Statement),
            ),
            0,
            Option::None,
        ),
        TransformKind::ProgramNode,
    )
}

// ---------------------------------------------------------------------------
// Executable constructors, each the exact counterpart of a spec constructor.
// ---------------------------------------------------------------------------
fn seq2(a: Combinator, b: Combinator) -> (r: Combinator)
    ensures
        r@ == seq_v(a@, b@),
{
    a.and(b)
}

fn ignore1(a: Combinator) -> (r: Combinator)
    ensures
        r@ == ignore_v(a@),
{
    a.ignore()
}

fn alt2(a: Combinator, b: Combinator) -> (r: Combinator)
    ensures
        r@ == alt_v(a@, b@),
{
    a.or(b)
}

fn rep1(a: Combinator, min: u64, extra: Option<u64>) -> (r: Combinator)
    ensures
        r@ == rep_v(a@, min as nat, crate::combinators::opt_nat(extra)),
{
    a.repeat_range(min, extra)
}

fn map1(a: Combinator, t: TransformKind) -> (r: Combinator)
    ensures
        r@ == map_v(a@, t),
{
    a.map(t)
}

fn ignored() -> (r: Combinator)
    ensures
        r@ == ignored_v(),
{
    rep1(
        alt2(
            Combinator::Pattern(Pattern::Whitespace),
            alt2(
                Combinator::Pattern(Pattern::LineComment),
                Combinator::Pattern(Pattern::BlockComment),
            ),
        ),
        0,
        None,
    )
}

fn token_lit(w: &str) -> (r: Combinator)
    ensures
        r@ == token_v(PatternV::Lit(w@)),
{
    seq2(ignore1(ignored()), Combinator::Pattern(Pattern::Lit(String::from_str(w))))
}

fn token_word(w: &str) -> (r: Combinator)
    ensures
        r@ == token_v(PatternV::Word(w@)),
{
    seq2(ignore1(ignored()), Combinator::Pattern(Pattern::Word(String::from_str(w))))
}

fn identifier_node() -> (r: Combinator)
    ensures
        r@ == identifier_node_v(),
{
    map1(
        seq2(ignore1(ignored()), Combinator::Pattern(Pattern::Ident)),
        TransformKind::IdentifierName,
    )
}

fn number_node() -> (r: Combinator)
    ensures
        r@ == number_node_v(),
{
    map1(
        seq2(ignore1(ignored()), Combinator::Pattern(Pattern::Number)),
        TransformKind::IntegerLiteral,
    )
}

fn op_tpl(lit: &str, kind: AstNodeKind) -> (r: Combinator)
    ensures
        r@ == op_tpl_v(lit@, kind),
{
    map1(token_lit(lit), TransformKind::Operator(kind))
}

fn grouped() -> (r: Combinator)
    ensures
        r@ == grouped_v(),
{
    seq2(
        seq2(ignore1(token_lit("(")), Combinator::Forward(RuleId::Expression)),
        ignore1(token_lit(")")),
    )
}

fn args_rule() -> (r: Combinator)
    ensures
        r@ == args_v(),
{
    map1(
        seq2(
            Combinator::Forward(RuleId::Expression),
            rep1(
                seq2(ignore1(token_lit(",")), Combinator::Forward(RuleId::Expression)),
                0,
                None,
            ),
        ),
        TransformKind::ListFlatten,
    )
}

fn call_rule() -> (r: Combinator)
    ensures
        r@ == call_v(),
{
    map1(
        seq2(
            seq2(
                seq2(identifier_node(), ignore1(token_lit("("))),
                rep1(args_rule(), 0, Some(1)),
            ),
            ignore1(token_lit(")")),
        ),
        TransformKind::CallNode,
    )
}

fn atom_rule() -> (r: Combinator)
    ensures
        r@ == atom_v(),
{
    alt2(alt2(alt2(call_rule(), identifier_node()), number_node()), grouped())
}

fn unary_rule() -> (r: Combinator)
    ensures
        r@ == unary_v(),
{
    map1(
        seq2(rep1(token_lit("!"), 0, Some(1)), atom_rule()),
        TransformKind::UnaryNot,
    )
}

fn product_rule() -> (r: Combinator)
    ensures
        r@ == product_v(),
{
    let op = alt2(op_tpl("*", AstNodeKind::Multiply), op_tpl("/", AstNodeKind::Divide));
    let pairs = rep1(
        seq2(
            alt2(op_tpl("*", AstNodeKind::Multiply), op_tpl("/", AstNodeKind::Divide)),
            unary_rule(),
        ),
        0,
        None,
    );
    map1(seq2(unary_rule(), pairs), TransformKind::InfixFold)
}

fn sum_rule() -> (r: Combinator)
    ensures
        r@ == sum_v(),
{
    let pairs = rep1(
        seq2(
            alt2(op_tpl("+", AstNodeKind::Add), op_tpl("-", AstNodeKind::Subtract)),
            product_rule(),
        ),
        0,
        None,
    );
    map1(seq2(product_rule(), pairs), TransformKind::InfixFold)
}

fn comparison_rule() -> (r: Combinator)
    ensures
        r@ == comparison_v(),
{
    let pairs = rep1(
        seq2(
            alt2(op_tpl("==", AstNodeKind::Equal), op_tpl("!=", AstNodeKind::NotEqual)),
            sum_rule(),
        ),
        0,
        None,
    );
    map1(seq2(sum_rule(), pairs), TransformKind::InfixFold)
}

fn return_stmt() -> (r: Combinator)
    ensures
        r@ == return_stmt_v(),
{
    map1(
        seq2(
            seq2(ignore1(token_word("return")), Combinator::Forward(RuleId::Expression)),
            ignore1(token_lit(";")),
        ),
        TransformKind::ReturnNode,
    )
}

fn expression_stmt() -> (r: Combinator)
    ensures
        r@ == expression_stmt_v(),
{
    seq2(Combinator::Forward(RuleId::Expression), ignore1(token_lit(";")))
}

fn if_stmt() -> (r: Combinator)
    ensures
        r@ == if_stmt_v(),
{
    map1(
        seq2(
            seq2(
                seq2(ignore1(token_word("if")), grouped()),
                Combinator::Forward(RuleId::Statement),
            ),
            rep1(
                seq2(ignore1(token_word("else")), Combinator::Forward(RuleId::Statement)),
                0,
                Some(1),
            ),
        ),
        TransformKind::IfNode,
    )
}

fn while_stmt() -> (r: Combinator)
    ensures
        r@ == while_stmt_v(),
{
    map1(
        seq2(
            seq2(ignore1(token_word("while")), grouped()),
            Combinator::Forward(RuleId::Statement),
        ),
        TransformKind::WhileNode,
    )
}

fn var_stmt() -> (r: Combinator)
    ensures
        r@ == var_stmt_v(),
{
    map1(
        seq2(
            seq2(
                seq2(
                    seq2(ignore1(token_word("var")), identifier_node()),
                    ignore1(token_lit("=")),
                ),
                Combinator::Forward(RuleId::Expression),
            ),
            ignore1(token_lit(";")),
        ),
        TransformKind::VarNode,
    )
}

fn assignment_stmt() -> (r: Combinator)
    ensures
        r@ == assignment_stmt_v(),
{
    map1(
        seq2(
            seq2(
                seq2(identifier_node(), ignore1(token_lit("="))),
                Combinator::Forward(RuleId::Expression),
            ),
            ignore1(token_lit(";")),
        ),
        TransformKind::AssignNode,
    )
}

fn block_stmt() -> (r: Combinator)
    ensures
        r@ == block_stmt_v(),
{
    map1(
        seq2(
            seq2(
                ignore1(token_lit("{")),
                rep1(Combinator::Forward(RuleId::Statement), 0, None),
            ),
            ignore1(token_lit("}")),
        ),
        TransformKind::BlockNode,
    )
}

fn params_rule() -> (r: Combinator)
    ensures
        r@ == params_v(),
{
    map1(
        seq2(
            identifier_node(),
            rep1(seq2(ignore1(token_lit(",")), identifier_node()), 0, None),
        ),
        TransformKind::ListFlatten,
    )
}

fn func_stmt() -> (r: Combinator)
    ensures
        r@ == func_stmt_v(),
{
    map1(
        seq2(
            seq2(
                seq2(ignore1(token_word("function")), identifier_node()),
                seq2(
                    seq2(ignore1(token_lit("(")), rep1(params_rule(), 0, Some(1))),
                    ignore1(token_lit(")")),
                ),
            ),
            block_stmt(),
        ),
        TransformKind::FuncNode,
    )
}

fn statement_body() -> (r: Combinator)
    ensures
        r@ == statement_body_v(),
{
    alt2(
        alt2(
            alt2(
                alt2(
                    alt2(alt2(alt2(return_stmt(), if_stmt()), while_stmt()), var_stmt()),
                    assignment_stmt(),
                ),
                block_stmt(),
            ),
            func_stmt(),
        ),
        expression_stmt(),
    )
}

/// Builds the combinator a `Forward` reference stands for.
pub fn build_rule(r: RuleId) -> (c: Combinator)
    ensures
        c@ == rule_body_v(r),
{
    match r {
        RuleId::Statement => statement_body(),
        RuleId::Expression => comparison_rule(),
    }
}

/// Builds the whole-program combinator.
pub fn build_program_rule() -> (c: Combinator)
    ensures
        c@ == program_rule_v(),
{
    map1(
        rep1(
            seq2(
                ignore1(rep1(ignored(), 0, Some(1))),
                Combinator::Forward(RuleId::Statement),
            ),
            0,
            None,
        ),
        TransformKind::ProgramNode,
    )
}

/// The `Forward` nesting depth granted to a parse: two rule entries per
/// input character cover the deepest possible nesting, since between two
/// entries of the same rule at least one character is consumed.
pub open spec fn parse_fuel(len: nat) -> nat {
    if 2 * len + 16 <= u64::MAX {
        2 * len + 16
    } else {
        u64::MAX as nat
    }
}

/// What `parse` returns: the program the grammar recognizes, or an empty
/// program where the grammar matches no statement at all. Statements are
/// taken from the front for as long as they keep matching; trailing text
/// that is no statement is left unread.
pub open spec fn spec_parse(s: Seq<char>) -> AstV {
    match run(program_rule_v(), s, 0, parse_fuel(s.len())) {
        Option::Some((v, _)) => match v {
            ValueV::Node(a) => a,
            _ => ast_list(AstNodeKind::Program, Seq::empty(), Seq::empty()),
        },
        Option::None => ast_list(AstNodeKind::Program, Seq::empty(), Seq::empty()),
    }
}

/// Parses source text into a syntax tree.
pub fn parse(src: &str) -> (r: AstNode)
    ensures
        r@ == spec_parse(src@),
{
    let n = src.unicode_len();
    let fuel: u64 = if n as u64 <= (u64::MAX - 16) / 2 {
        2 * (n as u64) + 16
    } else {
        u64::MAX
    };
    proof {
        assert(fuel as nat == parse_fuel(src@.len()));
    }
    let g = build_program_rule();
    match run_comb(&g, src, n, 0, fuel) {
        Some((v, _)) => match v {
            ParseValue::Node(a) => a,
            _ => {
                proof {
                    crate::ast::lemma_ast_view_seq(Seq::<AstNode>::empty());
                    assert(ast_view_seq(Seq::<AstNode>::empty()) =~= Seq::<AstV>::empty());
                }
                AstNode::program(Vec::new())
            },
        },
        None => {
            proof {
                crate::ast::lemma_ast_view_seq(Seq::<AstNode>::empty());
                assert(ast_view_seq(Seq::<AstNode>::empty()) =~= Seq::<AstV>::empty());
            }
            AstNode::program(Vec::new())
        },
    }
}

/// Whatever text was parsed, the resulting tree satisfies the grammar's
/// shape invariant: parsing enforces the child arities that the later
/// passes assume.
pub proof fn lemma_spec_parse_wf(s: Seq<char>)
    ensures
        crate::ast::wf_ast(spec_parse(s)),
{
    crate::combinators::lemma_run_wf(program_rule_v(), s, 0, parse_fuel(s.len()));
    let fallback = ast_list(AstNodeKind::Program, Seq::empty(), Seq::empty());
    assert(crate::ast::wf_ast(fallback));
    match run(program_rule_v(), s, 0, parse_fuel(s.len())) {
        Option::Some((v, _)) => {
            match v {
                ValueV::Node(a) => {
                    assert(crate::values::value_wf(v));
                },
                _ => {},
            }
        },
        Option::None => {},
    }
}

/// Whatever text was parsed, the result is a `Program` node: the program
/// rule's conversion builds nothing else, and the fallback is the empty
/// program.
pub proof fn lemma_spec_parse_is_program(s: Seq<char>)
    ensures
        spec_parse(s).kind == AstNodeKind::Program,
{
    match run(program_rule_v(), s, 0, parse_fuel(s.len())) {
        Option::Some((v, _)) => {
            match v {
                ValueV::Node(a) => {},
                _ => {},
            }
        },
        Option::None => {},
    }
}

/// Statement-order precedence: the dispatcher tries the `return` rule
/// first, so wherever that rule matches, the dispatcher reports exactly its
/// result and no later alternative — in particular never the bare
/// expression statement, which could start consuming the same
/// identifier-like prefix.
pub proof fn lemma_return_statement_precedence(s: Seq<char>, pos: int, fuel: nat)
    requires
        run(return_stmt_v(), s, pos, fuel) is Some,
    ensures
        run(statement_body_v(), s, pos, fuel) == run(return_stmt_v(), s, pos, fuel),
{
    let a1 = alt_v(return_stmt_v(), if_stmt_v());
    let a2 = alt_v(a1, while_stmt_v());
    let a3 = alt_v(a2, var_stmt_v());
    let a4 = alt_v(a3, assignment_stmt_v());
    let a5 = alt_v(a4, block_stmt_v());
    let a6 = alt_v(a5, func_stmt_v());
    assert(run(a1, s, pos, fuel) == run(return_stmt_v(), s, pos, fuel));
    assert(run(a2, s, pos, fuel) == run(a1, s, pos, fuel));
    assert(run(a3, s, pos, fuel) == run(a2, s, pos, fuel));
    assert(run(a4, s, pos, fuel) == run(a3, s, pos, fuel));
    assert(run(a5, s, pos, fuel) == run(a4, s, pos, fuel));
    assert(run(a6, s, pos, fuel) == run(a5, s, pos, fuel));
    assert(run(statement_body_v(), s, pos, fuel) == run(a6, s, pos, fuel));
}

} // verus!
