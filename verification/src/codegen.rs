use vstd::prelude::*;
use crate::ast::{
    AstNode, AstNodeKind, AstV, ast_view, ast_view_seq, wf_arity, wf_ast, while_count,
    while_count_seq,
};
use crate::numeral::{dec_seq, dec_string};
use crate::InterpreterError;

verus! {

broadcast use vstd::std_specs::vec::group_vec_axioms, vstd::seq::axiom_seq_index_decreases, crate::ast::lemma_ast_view_seq;

/// The owned, explicitly passed source of fresh symbols: one generator per
/// whole-module emission, threaded by reference through every emission call,
/// so that every label it hands out is new.
pub struct SymbolGenerator {
    pub counter: u64,
}

impl SymbolGenerator {
    pub fn new() -> (r: SymbolGenerator)
        ensures
            r.counter == 0,
    {
        SymbolGenerator { counter: 0 }
    }

    /// A fresh, never-repeated number: one past everything handed out so far.
    pub fn next(&mut self) -> (r: u64)
        requires
            old(self).counter < u64::MAX,
        ensures
            r == old(self).counter + 1,
            final(self).counter == r,
    {
        self.counter = self.counter + 1;
        self.counter
    }
}

/// The mnemonic of a binary operator in the target text.
pub open spec fn binop_text(k: AstNodeKind) -> Seq<char> {
    match k {
        AstNodeKind::Equal => "eq"@,
        AstNodeKind::NotEqual => "ne"@,
        AstNodeKind::Add => "add"@,
        AstNodeKind::Subtract => "sub"@,
        AstNodeKind::Multiply => "mul"@,
        AstNodeKind::Divide => "div_s"@,
        _ => Seq::empty(),
    }
}

/// Whether any statement directly in the (already hoisted) body returns:
/// the scan does not recurse into nested blocks.
pub open spec fn has_return(body: AstV) -> bool {
    exists|i: int|
        0 <= i < body.subnodes.len() && (#[trigger] body.subnodes[i]).kind
            == AstNodeKind::FunctionReturn
}

/// The result clause a function gets exactly when its body returns.
pub open spec fn result_clause(body: AstV) -> Seq<char> {
    if has_return(body) {
        " (result i32)"@
    } else {
        Seq::empty()
    }
}

/// One `(param $name i32)` clause per parameter, from index `i` on.
pub open spec fn param_clauses(s: Seq<AstV>, i: int) -> Seq<char>
    decreases s.len() - i,
{
    if i < 0 || i >= s.len() {
        Seq::empty()
    } else {
        " (param $"@ + s[i].value + " i32)"@ + param_clauses(s, i + 1)
    }
}

/// One export clause per function definition, in declaration order; the
/// export name equals the function name.
pub open spec fn export_clauses(s: Seq<AstV>, i: int) -> Seq<char>
    decreases s.len() - i,
{
    if i < 0 || i >= s.len() {
        Seq::empty()
    } else {
        (if s[i].kind == AstNodeKind::FunctionDefinition {
            " (export \""@ + s[i].value + "\" (func $"@ + s[i].value + "))"@
        } else {
            Seq::empty()
        }) + export_clauses(s, i + 1)
    }
}

/// The loop label built from a fresh symbol.
pub open spec fn while_label(l: nat) -> Seq<char> {
    "while"@ + dec_seq(l)
}

/// The rendering of one node and the generator state after it.
///
/// A `WhileLoop` draws the next fresh symbol for its label and wraps a
/// block/loop pair: the body runs, then a `br_if` leaves the wrapping block
/// when the condition is false, then a `br` returns to the loop top. A
/// `VariableDefinition` that survives to emission (one nested below the
/// statements that hoisting rewrites) renders as its assignment; its
/// declaration is the hoisting pass's concern.
pub open spec fn emit(n: AstV, c: nat) -> (Seq<char>, nat)
    decreases n, 0nat, 0nat,
{
    match n.kind {
        AstNodeKind::Integer => ("(i32.const "@ + n.value + ")"@, c),
        AstNodeKind::Identifier => ("(get_local $"@ + n.value + ")"@, c),
        AstNodeKind::Not => {
            let (t, c1) = emit_child(n.subnodes, 0, c);
            ("(i32.eq (i32.const 0) "@ + t + ")"@, c1)
        },
        AstNodeKind::Equal | AstNodeKind::NotEqual | AstNodeKind::Add | AstNodeKind::Subtract
            | AstNodeKind::Multiply | AstNodeKind::Divide => {
            let (lt, c1) = emit_child(n.subnodes, 0, c);
            let (rt, c2) = emit_child(n.subnodes, 1, c1);
            ("(i32."@ + binop_text(n.kind) + " "@ + lt + " "@ + rt + ")"@, c2)
        },
        AstNodeKind::Block => emit_plain(n.subnodes, 0, c),
        AstNodeKind::IfStatement => {
            let (ct, c1) = emit_child(n.subnodes, 0, c);
            let (tt, c2) = emit_child(n.subnodes, 1, c1);
            if n.subnodes.len() == 3 && n.subnodes[2].kind != AstNodeKind::Null {
                let (et, c3) = emit_child(n.subnodes, 2, c2);
                ("(if "@ + ct + " (then "@ + tt + ") (else "@ + et + "))"@, c3)
            } else {
                ("(if "@ + ct + " (then "@ + tt + "))"@, c2)
            }
        },
        AstNodeKind::WhileLoop => {
            let lbl = c + 1;
            let (ct, c1) = emit_child(n.subnodes, 0, lbl);
            let (bt, c2) = emit_child(n.subnodes, 1, c1);
            (
                "(block $"@ + while_label(lbl) + " (loop $"@ + while_label(lbl) + "_loop "@ + bt
                    + " (br_if $"@ + while_label(lbl) + " (i32.eq (i32.const 0) "@ + ct
                    + ")) (br $"@ + while_label(lbl) + "_loop)))"@,
                c2,
            )
        },
        AstNodeKind::Program => {
            let (t, c1) = emit_space(n.subnodes, 0, c);
            ("(module"@ + t + export_clauses(n.subnodes, 0) + ")"@, c1)
        },
        AstNodeKind::FunctionCall => {
            let (t, c1) = emit_space(n.subnodes, 0, c);
            ("(call $"@ + n.value + t + ")"@, c1)
        },
        AstNodeKind::FunctionReturn => {
            let (t, c1) = emit_child(n.subnodes, 0, c);
            (t + " (return)"@, c1)
        },
        AstNodeKind::FunctionDefinition => {
            let (pt, c1) = emit_space(n.subnodes, 1, c);
            let (bt, c2) = emit_child(n.subnodes, 0, c1);
            (
                "(func $"@ + n.value + param_clauses(n.subnodes, 1) + result_clause(n.subnodes[0])
                    + pt + " "@ + bt + ")"@,
                c2,
            )
        },
        AstNodeKind::VariableDeclaration => ("(local $"@ + n.value + " i32)"@, c),
        AstNodeKind::VariableDefinition | AstNodeKind::Assign => {
            let (t, c1) = emit_child(n.subnodes, 0, c);
            ("(set_local $"@ + n.value + " "@ + t + ")"@, c1)
        },
        AstNodeKind::Null => (Seq::empty(), c),
    }
}

/// One child by index; the hook through which the emission recurses.
pub open spec fn emit_child(s: Seq<AstV>, i: int, c: nat) -> (Seq<char>, nat)
    decreases s, 0nat, 1nat,
{
    if 0 <= i < s.len() {
        emit(s[i], c)
    } else {
        (Seq::empty(), c)
    }
}

/// Children from index `i` on, rendered back to back with no separators.
pub open spec fn emit_plain(s: Seq<AstV>, i: int, c: nat) -> (Seq<char>, nat)
    decreases s, s.len() - i, 2nat,
{
    if i < 0 || i >= s.len() {
        (Seq::empty(), c)
    } else {
        let (t, c1) = emit(s[i], c);
        let (rest, c2) = emit_plain(s, i + 1, c1);
        (t + rest, c2)
    }
}

/// Children from index `i` on, each preceded by one space.
pub open spec fn emit_space(s: Seq<AstV>, i: int, c: nat) -> (Seq<char>, nat)
    decreases s, s.len() - i, 2nat,
{
    if i < 0 || i >= s.len() {
        (Seq::empty(), c)
    } else {
        let (t, c1) = emit(s[i], c);
        let (rest, c2) = emit_space(s, i + 1, c1);
        (" "@ + t + rest, c2)
    }
}

/// The whiles in children from index `i` on.
pub open spec fn while_count_from(s: Seq<AstV>, i: int) -> nat
    decreases s.len() - i,
{
    if i < 0 || i >= s.len() {
        0nat
    } else {
        while_count(s[i]) + while_count_from(s, i + 1)
    }
}

pub proof fn lemma_while_count_from(s: Seq<AstV>, i: int)
    requires
        0 <= i <= s.len(),
    ensures
        while_count_from(s, i) == while_count_seq(s.skip(i)),
    decreases s.len() - i,
{
    if i < s.len() {
        lemma_while_count_from(s, i + 1);
        assert(s.skip(i)[0] == s[i]);
        assert(s.skip(i).drop_first() =~= s.skip(i + 1));
    } else {
        assert(s.skip(i).len() == 0);
    }
}

/// Emission advances the generator by exactly the number of whiles emitted.
pub proof fn lemma_emit_counter(n: AstV, c: nat)
    requires
        wf_ast(n),
    ensures
        emit(n, c).1 == c + while_count(n),
    decreases n, 0nat, 0nat,
{
    let s = n.subnodes;
    match n.kind {
        AstNodeKind::Integer | AstNodeKind::Identifier | AstNodeKind::VariableDeclaration
            | AstNodeKind::Null => {
            assert(while_count_seq(s) == 0);
        },
        AstNodeKind::Not | AstNodeKind::FunctionReturn | AstNodeKind::VariableDefinition
            | AstNodeKind::Assign => {
            assert(wf_arity(n));
            assert(s.len() == 1);
            lemma_emit_child_counter(s, 0, c);
            assert(s.drop_first().len() == 0);
            assert(while_count_seq(s.drop_first()) == 0);
            assert(while_count_seq(s) == while_count(s[0]));
        },
        AstNodeKind::Equal | AstNodeKind::NotEqual | AstNodeKind::Add | AstNodeKind::Subtract
            | AstNodeKind::Multiply | AstNodeKind::Divide => {
            lemma_emit_child_counter(s, 0, c);
            lemma_emit_child_counter(s, 1, emit_child(s, 0, c).1);
            assert(s.drop_first()[0] == s[1]);
            assert(s.drop_first().drop_first().len() == 0);
            assert(while_count_seq(s.drop_first().drop_first()) == 0);
            assert(while_count_seq(s.drop_first()) == while_count(s[1]));
            assert(while_count_seq(s) == while_count(s[0]) + while_count(s[1]));
        },
        AstNodeKind::WhileLoop => {
            lemma_emit_child_counter(s, 0, c + 1);
            lemma_emit_child_counter(s, 1, emit_child(s, 0, c + 1).1);
            assert(s.drop_first()[0] == s[1]);
            assert(s.drop_first().drop_first().len() == 0);
            assert(while_count_seq(s.drop_first().drop_first()) == 0);
            assert(while_count_seq(s.drop_first()) == while_count(s[1]));
            assert(while_count_seq(s) == while_count(s[0]) + while_count(s[1]));
        },
        AstNodeKind::IfStatement => {
            lemma_emit_child_counter(s, 0, c);
            lemma_emit_child_counter(s, 1, emit_child(s, 0, c).1);
            assert(s.drop_first()[0] == s[1]);
            if s.len() == 3 {
                assert(s.drop_first().drop_first()[0] == s[2]);
                assert(s.drop_first().drop_first().drop_first().len() == 0);
                assert(while_count_seq(s.drop_first().drop_first().drop_first()) == 0);
                assert(while_count_seq(s.drop_first().drop_first()) == while_count(s[2]));
                assert(while_count_seq(s.drop_first()) == while_count(s[1]) + while_count(s[2]));
                assert(while_count_seq(s) == while_count(s[0]) + while_count(s[1]) + while_count(
                    s[2],
                ));
                if s[2].kind != AstNodeKind::Null {
                    lemma_emit_child_counter(s, 2, emit_child(s, 1, emit_child(s, 0, c).1).1);
                } else {
                    assert(wf_ast(s[2]));
                    assert(wf_arity(s[2]));
                    assert(s[2].subnodes.len() == 0);
                    assert(while_count_seq(s[2].subnodes) == 0);
                    assert(while_count(s[2]) == 0);
                }
            } else {
                assert(s.drop_first().drop_first().len() == 0);
                assert(while_count_seq(s.drop_first().drop_first()) == 0);
                assert(while_count_seq(s.drop_first()) == while_count(s[1]));
                assert(while_count_seq(s) == while_count(s[0]) + while_count(s[1]));
            }
        },
        AstNodeKind::Block => {
            lemma_emit_plain_counter(s, 0, c);
            lemma_while_count_from(s, 0);
            assert(s.skip(0) =~= s);
        },
        AstNodeKind::Program | AstNodeKind::FunctionCall => {
            lemma_emit_space_counter(s, 0, c);
            lemma_while_count_from(s, 0);
            assert(s.skip(0) =~= s);
        },
        AstNodeKind::FunctionDefinition => {
            lemma_emit_space_counter(s, 1, c);
            lemma_emit_child_counter(s, 0, emit_space(s, 1, c).1);
            lemma_while_count_from(s, 1);
            assert(s.skip(1) =~= s.drop_first());
            assert(while_count_seq(s) == while_count(s[0]) + while_count_seq(s.drop_first()));
        },
    }
}

proof fn lemma_emit_child_counter(s: Seq<AstV>, i: int, c: nat)
    requires
        0 <= i < s.len(),
        wf_ast(s[i]),
    ensures
        emit_child(s, i, c).1 == c + while_count(s[i]),
    decreases s, 0nat, 1nat,
{
    lemma_emit_counter(s[i], c);
}

proof fn lemma_emit_plain_counter(s: Seq<AstV>, i: int, c: nat)
    requires
        0 <= i,
        forall|k: int| i <= k < s.len() ==> wf_ast(#[trigger] s[k]),
    ensures
        emit_plain(s, i, c).1 == c + while_count_from(s, i),
    decreases s, s.len() - i, 2nat,
{
    if i < s.len() {
        lemma_emit_counter(s[i], c);
        lemma_emit_plain_counter(s, i + 1, emit(s[i], c).1);
    }
}

proof fn lemma_emit_space_counter(s: Seq<AstV>, i: int, c: nat)
    requires
        0 <= i,
        forall|k: int| i <= k < s.len() ==> wf_ast(#[trigger] s[k]),
    ensures
        emit_space(s, i, c).1 == c + while_count_from(s, i),
    decreases s, s.len() - i, 2nat,
{
    if i < s.len() {
        lemma_emit_counter(s[i], c);
        lemma_emit_space_counter(s, i + 1, emit(s[i], c).1);
    }
}

fn op_text(k: AstNodeKind) -> (r: &'static str)
    ensures
        r@ == binop_text(k),
{
    match k {
        AstNodeKind::Equal => "eq",
        AstNodeKind::NotEqual => "ne",
        AstNodeKind::Add => "add",
        AstNodeKind::Subtract => "sub",
        AstNodeKind::Multiply => "mul",
        AstNodeKind::Divide => "div_s",
        _ => {
            proof {
                reveal_strlit("");
            }
            ""
        },
    }
}

/// Whether any direct statement of the body is a `FunctionReturn`.
pub fn body_has_return(body: &AstNode) -> (r: bool)
    ensures
        r == has_return(body@),
{
    proof {
        crate::ast::lemma_ast_view_seq(body.subnodes@);
        assert(body@.subnodes == ast_view_seq(body.subnodes@));
    }
    let mut i: usize = 0;
    while i < body.subnodes.len()
        invariant
            body@.subnodes == ast_view_seq(body.subnodes@),
            0 <= i <= body.subnodes@.len(),
            body@.subnodes.len() == body.subnodes@.len(),
            forall|k: int|
                0 <= k < i ==> (#[trigger] body@.subnodes[k]).kind != AstNodeKind::FunctionReturn,
            forall|k: int|
                0 <= k < body.subnodes@.len() ==> body@.subnodes[k] == ast_view(
                    #[trigger] body.subnodes@[k],
                ),
        decreases body.subnodes@.len() - i,
    {
        if matches!(body.subnodes[i].kind, AstNodeKind::FunctionReturn) {
            proof {
                assert(body@.subnodes[i as int].kind == AstNodeKind::FunctionReturn);
            }
            return true;
        }
        i = i + 1;
    }
    false
}

fn param_clauses_exec(s: &Vec<AstNode>, start: usize) -> (r: String)
    requires
        start <= s@.len(),
    ensures
        r@ == param_clauses(ast_view_seq(s@), start as int),
    decreases s@.len() - start,
{
    if start >= s.len() {
        String::new()
    } else {
        proof {
            crate::ast::lemma_ast_view_seq(s@);
            assert(ast_view_seq(s@)[start as int] == ast_view(s@[start as int]));
        }
        let mut out = String::from_str(" (param $");
        out.append(s[start].value.as_str());
        out.append(" i32)");
        out.append(param_clauses_exec(s, start + 1).as_str());
        out
    }
}

fn export_clauses_exec(s: &Vec<AstNode>, start: usize) -> (r: String)
    requires
        start <= s@.len(),
    ensures
        r@ == export_clauses(ast_view_seq(s@), start as int),
    decreases s@.len() - start,
{
    if start >= s.len() {
        String::new()
    } else {
        proof {
            crate::ast::lemma_ast_view_seq(s@);
            assert(ast_view_seq(s@)[start as int] == ast_view(s@[start as int]));
        }
        let mut out = if matches!(s[start].kind, AstNodeKind::FunctionDefinition) {
            let mut t = String::from_str(" (export \"");
            t.append(s[start].value.as_str());
            t.append("\" (func $");
            t.append(s[start].value.as_str());
            t.append("))");
            t
        } else {
            String::new()
        };
        out.append(export_clauses_exec(s, start + 1).as_str());
        out
    }
}

/// Renders the children from `start` on, back to back.
fn emit_plain_exec(list: &Vec<AstNode>, start: usize, gen: &mut SymbolGenerator) -> (r: String)
    requires
        start <= list@.len(),
        forall|k: int| start <= k < list@.len() ==> wf_ast(ast_view(#[trigger] list@[k])),
        old(gen).counter + while_count_from(ast_view_seq(list@), start as int) <= u64::MAX,
    ensures
        r@ == emit_plain(ast_view_seq(list@), start as int, old(gen).counter as nat).0,
        final(gen).counter as nat == emit_plain(
            ast_view_seq(list@),
            start as int,
            old(gen).counter as nat,
        ).1,
    decreases *list, list@.len() - start, 1nat,
{
    if start >= list.len() {
        String::new()
    } else {
        let ghost sv = ast_view_seq(list@);
        proof {
            crate::ast::lemma_ast_view_seq(list@);
            assert(sv[start as int] == ast_view(list@[start as int]));
            lemma_emit_counter(sv[start as int], old(gen).counter as nat);
        }
        let mut out = emit_node(&list[start], gen);
        out.append(emit_plain_exec(list, start + 1, gen).as_str());
        out
    }
}

/// Renders the children from `start` on, each preceded by one space.
fn emit_space_exec(list: &Vec<AstNode>, start: usize, gen: &mut SymbolGenerator) -> (r: String)
    requires
        start <= list@.len(),
        forall|k: int| start <= k < list@.len() ==> wf_ast(ast_view(#[trigger] list@[k])),
        old(gen).counter + while_count_from(ast_view_seq(list@), start as int) <= u64::MAX,
    ensures
        r@ == emit_space(ast_view_seq(list@), start as int, old(gen).counter as nat).0,
        final(gen).counter as nat == emit_space(
            ast_view_seq(list@),
            start as int,
            old(gen).counter as nat,
        ).1,
    decreases *list, list@.len() - start, 1nat,
{
    if start >= list.len() {
        String::new()
    } else {
        let ghost sv = ast_view_seq(list@);
        proof {
            crate::ast::lemma_ast_view_seq(list@);
            assert(sv[start as int] == ast_view(list@[start as int]));
            lemma_emit_counter(sv[start as int], old(gen).counter as nat);
        }
        let mut out = String::from_str(" ");
        out.append(emit_node(&list[start], gen).as_str());
        out.append(emit_space_exec(list, start + 1, gen).as_str());
        out
    }
}

/// Renders one node, drawing fresh symbols from the generator; the
/// executable counterpart of `emit`. Each node kind has its own helper so
/// that no single proof grows too large.
pub fn emit_node(n: &AstNode, gen: &mut SymbolGenerator) -> (r: String)
    requires
        wf_ast(n@),
        old(gen).counter + while_count(n@) <= u64::MAX,
    ensures
        r@ == emit(n@, old(gen).counter as nat).0,
        final(gen).counter as nat == emit(n@, old(gen).counter as nat).1,
    decreases *n, 0nat, 1nat,
{
    proof {
        lemma_emit_counter(n@, old(gen).counter as nat);
    }
    match n.kind {
        AstNodeKind::Integer => {
            let mut out = String::from_str("(i32.const ");
            out.append(n.value.as_str());
            out.append(")");
            out
        },
        AstNodeKind::Identifier => {
            let mut out = String::from_str("(get_local $");
            out.append(n.value.as_str());
            out.append(")");
            out
        },
        AstNodeKind::Not => emit_not(n, gen),
        AstNodeKind::Equal | AstNodeKind::NotEqual | AstNodeKind::Add | AstNodeKind::Subtract
            | AstNodeKind::Multiply | AstNodeKind::Divide => emit_binary(n, gen),
        AstNodeKind::Block => {
            proof {
                node_view_facts(n@, n.subnodes@);
                lemma_while_count_from(n@.subnodes, 0);
                assert(n@.subnodes.skip(0) =~= n@.subnodes);
            }
            emit_plain_exec(&n.subnodes, 0, gen)
        },
        AstNodeKind::IfStatement => emit_if(n, gen),
        AstNodeKind::WhileLoop => emit_while(n, gen),
        AstNodeKind::Program => emit_program(n, gen),
        AstNodeKind::FunctionCall => emit_call(n, gen),
        AstNodeKind::FunctionReturn => emit_return(n, gen),
        AstNodeKind::FunctionDefinition => emit_funcdef(n, gen),
        AstNodeKind::VariableDeclaration => {
            let mut out = String::from_str("(local $");
            out.append(n.value.as_str());
            out.append(" i32)");
            out
        },
        AstNodeKind::VariableDefinition | AstNodeKind::Assign => emit_set(n, gen),
        AstNodeKind::Null => String::new(),
    }
}

/// The facts every child-emitting helper starts from: how the node's view
/// relates to its children's views and their well-formedness.
proof fn node_view_facts(nv: AstV, subs: Seq<AstNode>)
    requires
        wf_ast(nv),
        nv.subnodes == ast_view_seq(subs),
    ensures
        nv.subnodes.len() == subs.len(),
        forall|k: int| 0 <= k < subs.len() ==> nv.subnodes[k] == ast_view(#[trigger] subs[k]),
        forall|k: int| 0 <= k < nv.subnodes.len() ==> wf_ast(#[trigger] nv.subnodes[k]),
{
    crate::ast::lemma_ast_view_seq(subs);
}

fn emit_not(n: &AstNode, gen: &mut SymbolGenerator) -> (r: String)
    requires
        wf_ast(n@),
        n@.kind == AstNodeKind::Not,
        old(gen).counter + while_count(n@) <= u64::MAX,
    ensures
        r@ == emit(n@, old(gen).counter as nat).0,
        final(gen).counter as nat == emit(n@, old(gen).counter as nat).1,
    decreases *n, 0nat, 0nat,
{
    let ghost nv = n@;
    let ghost c0 = old(gen).counter as nat;
    proof {
        node_view_facts(nv, n.subnodes@);
        lemma_emit_child_counter(nv.subnodes, 0, c0);
        lemma_emit_counter(nv.subnodes[0], c0);
    }
    let t = emit_node(&n.subnodes[0], gen);
    let mut out = String::from_str("(i32.eq (i32.const 0) ");
    out.append(t.as_str());
    out.append(")");
    out
}

fn emit_binary(n: &AstNode, gen: &mut SymbolGenerator) -> (r: String)
    requires
        wf_ast(n@),
        crate::transforms::is_binary_kind(n@.kind),
        old(gen).counter + while_count(n@) <= u64::MAX,
    ensures
        r@ == emit(n@, old(gen).counter as nat).0,
        final(gen).counter as nat == emit(n@, old(gen).counter as nat).1,
    decreases *n, 0nat, 0nat,
{
    let ghost nv = n@;
    let ghost c0 = old(gen).counter as nat;
    proof {
        node_view_facts(nv, n.subnodes@);
        assert(nv.subnodes.drop_first()[0] == nv.subnodes[1]);
        assert(nv.subnodes.drop_first().drop_first().len() == 0);
        assert(while_count_seq(nv.subnodes.drop_first().drop_first()) == 0);
        assert(while_count_seq(nv.subnodes.drop_first()) == while_count(nv.subnodes[1]));
        assert(while_count_seq(nv.subnodes) == while_count(nv.subnodes[0]) + while_count(
            nv.subnodes[1],
        ));
        lemma_emit_counter(nv.subnodes[0], c0);
        lemma_emit_counter(nv.subnodes[1], c0 + while_count(nv.subnodes[0]));
    }
    let lt = emit_node(&n.subnodes[0], gen);
    let rt = emit_node(&n.subnodes[1], gen);
    let mut out = String::from_str("(i32.");
    out.append(op_text(n.kind));
    out.append(" ");
    out.append(lt.as_str());
    out.append(" ");
    out.append(rt.as_str());
    out.append(")");
    out
}

fn emit_if(n: &AstNode, gen: &mut SymbolGenerator) -> (r: String)
    requires
        wf_ast(n@),
        n@.kind == AstNodeKind::IfStatement,
        old(gen).counter + while_count(n@) <= u64::MAX,
    ensures
        r@ == emit(n@, old(gen).counter as nat).0,
        final(gen).counter as nat == emit(n@, old(gen).counter as nat).1,
    decreases *n, 0nat, 0nat,
{
    let ghost nv = n@;
    let ghost c0 = old(gen).counter as nat;
    proof {
        node_view_facts(nv, n.subnodes@);
        assert(nv.subnodes.drop_first()[0] == nv.subnodes[1]);
        if nv.subnodes.len() == 3 {
            assert(nv.subnodes.drop_first().drop_first()[0] == nv.subnodes[2]);
            assert(nv.subnodes.drop_first().drop_first().drop_first().len() == 0);
            assert(while_count_seq(nv.subnodes.drop_first().drop_first().drop_first()) == 0);
            assert(while_count_seq(nv.subnodes.drop_first().drop_first()) == while_count(
                nv.subnodes[2],
            ));
            assert(while_count_seq(nv.subnodes.drop_first()) == while_count(nv.subnodes[1])
                + while_count(nv.subnodes[2]));
            assert(while_count_seq(nv.subnodes) == while_count(nv.subnodes[0]) + while_count(
                nv.subnodes[1],
            ) + while_count(nv.subnodes[2]));
        } else {
            assert(nv.subnodes.drop_first().drop_first().len() == 0);
            assert(while_count_seq(nv.subnodes.drop_first().drop_first()) == 0);
            assert(while_count_seq(nv.subnodes.drop_first()) == while_count(nv.subnodes[1]));
            assert(while_count_seq(nv.subnodes) == while_count(nv.subnodes[0]) + while_count(
                nv.subnodes[1],
            ));
        }
        lemma_emit_counter(nv.subnodes[0], c0);
        lemma_emit_counter(nv.subnodes[1], c0 + while_count(nv.subnodes[0]));
    }
    let ct = emit_node(&n.subnodes[0], gen);
    let tt = emit_node(&n.subnodes[1], gen);
    let mut out = String::from_str("(if ");
    out.append(ct.as_str());
    out.append(" (then ");
    out.append(tt.as_str());
    if n.subnodes.len() == 3 && !matches!(n.subnodes[2].kind, AstNodeKind::Null) {
        proof {
            assert(nv.subnodes[2].kind != AstNodeKind::Null);
        }
        let et = emit_node(&n.subnodes[2], gen);
        out.append(") (else ");
        out.append(et.as_str());
        out.append("))");
    } else {
        out.append("))");
    }
    out
}

fn emit_while(n: &AstNode, gen: &mut SymbolGenerator) -> (r: String)
    requires
        wf_ast(n@),
        n@.kind == AstNodeKind::WhileLoop,
        old(gen).counter + while_count(n@) <= u64::MAX,
    ensures
        r@ == emit(n@, old(gen).counter as nat).0,
        final(gen).counter as nat == emit(n@, old(gen).counter as nat).1,
    decreases *n, 0nat, 0nat,
{
    let ghost nv = n@;
    let ghost c0 = old(gen).counter as nat;
    proof {
        node_view_facts(nv, n.subnodes@);
        assert(while_count(nv) >= 1);
        assert(nv.subnodes.drop_first()[0] == nv.subnodes[1]);
        assert(nv.subnodes.drop_first().drop_first().len() == 0);
        assert(while_count_seq(nv.subnodes.drop_first().drop_first()) == 0);
        assert(while_count_seq(nv.subnodes.drop_first()) == while_count(nv.subnodes[1]));
        assert(while_count_seq(nv.subnodes) == while_count(nv.subnodes[0]) + while_count(
            nv.subnodes[1],
        ));
    }
    let lbl = gen.next();
    let mut label = String::from_str("while");
    label.append(dec_string(lbl).as_str());
    proof {
        assert(label@ == while_label((c0 + 1) as nat));
        lemma_emit_counter(nv.subnodes[0], c0 + 1);
        lemma_emit_counter(nv.subnodes[1], c0 + 1 + while_count(nv.subnodes[0]));
    }
    let ct = emit_node(&n.subnodes[0], gen);
    let bt = emit_node(&n.subnodes[1], gen);
    let mut out = String::from_str("(block $");
    out.append(label.as_str());
    out.append(" (loop $");
    out.append(label.as_str());
    out.append("_loop ");
    out.append(bt.as_str());
    out.append(" (br_if $");
    out.append(label.as_str());
    out.append(" (i32.eq (i32.const 0) ");
    out.append(ct.as_str());
    out.append(")) (br $");
    out.append(label.as_str());
    out.append("_loop)))");
    out
}

fn emit_program(n: &AstNode, gen: &mut SymbolGenerator) -> (r: String)
    requires
        wf_ast(n@),
        n@.kind == AstNodeKind::Program,
        old(gen).counter + while_count(n@) <= u64::MAX,
    ensures
        r@ == emit(n@, old(gen).counter as nat).0,
        final(gen).counter as nat == emit(n@, old(gen).counter as nat).1,
    decreases *n, 0nat, 0nat,
{
    let ghost nv = n@;
    proof {
        node_view_facts(nv, n.subnodes@);
        lemma_while_count_from(nv.subnodes, 0);
        assert(nv.subnodes.skip(0) =~= nv.subnodes);
    }
    let t = emit_space_exec(&n.subnodes, 0, gen);
    let mut out = String::from_str("(module");
    out.append(t.as_str());
    out.append(export_clauses_exec(&n.subnodes, 0).as_str());
    out.append(")");
    out
}

fn emit_call(n: &AstNode, gen: &mut SymbolGenerator) -> (r: String)
    requires
        wf_ast(n@),
        n@.kind == AstNodeKind::FunctionCall,
        old(gen).counter + while_count(n@) <= u64::MAX,
    ensures
        r@ == emit(n@, old(gen).counter as nat).0,
        final(gen).counter as nat == emit(n@, old(gen).counter as nat).1,
    decreases *n, 0nat, 0nat,
{
    let ghost nv = n@;
    proof {
        node_view_facts(nv, n.subnodes@);
        lemma_while_count_from(nv.subnodes, 0);
        assert(nv.subnodes.skip(0) =~= nv.subnodes);
    }
    let t = emit_space_exec(&n.subnodes, 0, gen);
    let mut out = String::from_str("(call $");
    out.append(n.value.as_str());
    out.append(t.as_str());
    out.append(")");
    out
}

fn emit_return(n: &AstNode, gen: &mut SymbolGenerator) -> (r: String)
    requires
        wf_ast(n@),
        n@.kind == AstNodeKind::FunctionReturn,
        old(gen).counter + while_count(n@) <= u64::MAX,
    ensures
        r@ == emit(n@, old(gen).counter as nat).0,
        final(gen).counter as nat == emit(n@, old(gen).counter as nat).1,
    decreases *n, 0nat, 0nat,
{
    let ghost nv = n@;
    let ghost c0 = old(gen).counter as nat;
    proof {
        node_view_facts(nv, n.subnodes@);
        lemma_emit_child_counter(nv.subnodes, 0, c0);
        lemma_emit_counter(nv.subnodes[0], c0);
    }
    let mut out = emit_node(&n.subnodes[0], gen);
    out.append(" (return)");
    out
}

fn emit_funcdef(n: &AstNode, gen: &mut SymbolGenerator) -> (r: String)
    requires
        wf_ast(n@),
        n@.kind == AstNodeKind::FunctionDefinition,
        old(gen).counter + while_count(n@) <= u64::MAX,
    ensures
        r@ == emit(n@, old(gen).counter as nat).0,
        final(gen).counter as nat == emit(n@, old(gen).counter as nat).1,
    decreases *n, 0nat, 0nat,
{
    let ghost nv = n@;
    let ghost c0 = old(gen).counter as nat;
    proof {
        node_view_facts(nv, n.subnodes@);
        lemma_while_count_from(nv.subnodes, 1);
        assert(nv.subnodes.skip(1) =~= nv.subnodes.drop_first());
        assert(while_count_seq(nv.subnodes) == while_count(nv.subnodes[0]) + while_count_seq(
            nv.subnodes.drop_first(),
        ));
        lemma_emit_space_counter(nv.subnodes, 1, c0);
        lemma_emit_counter(nv.subnodes[0], c0 + while_count_from(nv.subnodes, 1));
    }
    let pt = emit_space_exec(&n.subnodes, 1, gen);
    let bt = emit_node(&n.subnodes[0], gen);
    let has_ret = body_has_return(&n.subnodes[0]);
    let mut out = String::from_str("(func $");
    out.append(n.value.as_str());
    out.append(param_clauses_exec(&n.subnodes, 1).as_str());
    if has_ret {
        out.append(" (result i32)");
    }
    out.append(pt.as_str());
    out.append(" ");
    out.append(bt.as_str());
    out.append(")");
    out
}

fn emit_set(n: &AstNode, gen: &mut SymbolGenerator) -> (r: String)
    requires
        wf_ast(n@),
        n@.kind == AstNodeKind::VariableDefinition || n@.kind == AstNodeKind::Assign,
        old(gen).counter + while_count(n@) <= u64::MAX,
    ensures
        r@ == emit(n@, old(gen).counter as nat).0,
        final(gen).counter as nat == emit(n@, old(gen).counter as nat).1,
    decreases *n, 0nat, 0nat,
{
    let ghost nv = n@;
    let ghost c0 = old(gen).counter as nat;
    proof {
        node_view_facts(nv, n.subnodes@);
        lemma_emit_child_counter(nv.subnodes, 0, c0);
        lemma_emit_counter(nv.subnodes[0], c0);
    }
    let t = emit_node(&n.subnodes[0], gen);
    let mut out = String::from_str("(set_local $");
    out.append(n.value.as_str());
    out.append(" ");
    out.append(t.as_str());
    out.append(")");
    out
}

/// Counts the whiles in a tree, stopping at the largest representable
/// count.
pub fn count_whiles(n: &AstNode) -> (r: u64)
    ensures
        r < u64::MAX ==> r == while_count(n@),
        r == u64::MAX ==> while_count(n@) >= u64::MAX,
    decreases *n,
{
    let ghost nv = n@;
    let ghost sv = nv.subnodes;
    proof {
        crate::ast::lemma_ast_view_seq(n.subnodes@);
        assert(sv == ast_view_seq(n.subnodes@));
        lemma_while_count_from(sv, 0);
        assert(sv.skip(0) =~= sv);
    }
    let mut acc: u64 = if matches!(n.kind, AstNodeKind::WhileLoop) {
        1
    } else {
        0
    };
    let mut i: usize = 0;
    while i < n.subnodes.len()
        invariant
            nv == n@,
            sv == nv.subnodes,
            sv == ast_view_seq(n.subnodes@),
            0 <= i <= n.subnodes@.len(),
            sv.len() == n.subnodes@.len(),
            forall|k: int| 0 <= k < sv.len() ==> sv[k] == ast_view(#[trigger] n.subnodes@[k]),
            acc <= u64::MAX,
            acc < u64::MAX ==> acc + while_count_from(sv, i as int) == while_count(nv),
            acc == u64::MAX ==> while_count(nv) >= u64::MAX,
        decreases n.subnodes@.len() - i,
    {
        proof {
            assert(while_count_from(sv, i as int) == while_count(sv[i as int])
                + while_count_from(sv, i + 1));
        }
        let c = count_whiles(&n.subnodes[i]);
        if acc < u64::MAX {
            if c == u64::MAX || acc > u64::MAX - c {
                acc = u64::MAX;
            } else {
                acc = acc + c;
            }
        }
        i = i + 1;
    }
    proof {
        assert(while_count_from(sv, i as int) == 0);
    }
    acc
}

/// Emits the whole module for a well-formed tree with a fresh generator, or
/// reports that the symbol space would not suffice, which no tree that fits
/// in memory can bring about.
pub fn codegen(ast: &AstNode) -> (r: Result<String, InterpreterError>)
    requires
        wf_ast(ast@),
    ensures
        while_count(ast@) < u64::MAX ==> (r matches Ok(t) && t@ == emit(ast@, 0).0),
        while_count(ast@) >= u64::MAX ==> (r matches Err(e) && e
            == InterpreterError::Unimplemented),
{
    let wc = count_whiles(ast);
    if wc < u64::MAX {
        let mut gen = SymbolGenerator::new();
        Ok(emit_node(ast, &mut gen))
    } else {
        Err(InterpreterError::Unimplemented)
    }
}

proof fn lemma_while_label_injective(l1: nat, l2: nat)
    requires
        l1 != l2,
    ensures
        while_label(l1) != while_label(l2),
{
    reveal_strlit("while");
    let w = "while"@;
    assert(w.len() == 5);
    let a = while_label(l1);
    let b = while_label(l2);
    if a == b {
        crate::numeral::lemma_dec_seq_len(l1);
        crate::numeral::lemma_dec_seq_len(l2);
        assert(dec_seq(l1) =~= a.subrange(5, a.len() as int));
        assert(dec_seq(l2) =~= b.subrange(5, b.len() as int));
        crate::numeral::lemma_dec_seq_injective(l1, l2);
    }
}

/// Any two while loops emitted within one module emission from one symbol
/// generator wear distinct labels: the first draws the fresh number right
/// past the generator's state, the second draws one past everything the
/// first emission used, so the numbers, and with them the label texts,
/// differ.
pub proof fn lemma_while_labels_distinct(a: AstV, b: AstV, c: nat)
    requires
        wf_ast(a),
        wf_ast(b),
        a.kind == AstNodeKind::WhileLoop,
        b.kind == AstNodeKind::WhileLoop,
    ensures
        emit(a, c).1 >= c + 1,
        c + 1 != emit(a, c).1 + 1,
        while_label(c + 1) != while_label((emit(a, c).1 + 1) as nat),
{
    lemma_emit_counter(a, c);
    assert(while_count(a) >= 1);
    lemma_while_label_injective(c + 1, (emit(a, c).1 + 1) as nat);
}

/// A function whose (already hoisted) body holds no direct
/// `FunctionReturn` emits no result clause; one that holds at least one
/// emits exactly ` (result i32)`, between the parameter clauses and the
/// emitted parameters.
pub proof fn lemma_result_clause_exactly_when_return(f: AstV, c: nat)
    requires
        f.kind == AstNodeKind::FunctionDefinition,
        f.subnodes.len() >= 1,
    ensures
        emit(f, c).0 == "(func $"@ + f.value + param_clauses(f.subnodes, 1) + result_clause(
            f.subnodes[0],
        ) + emit_space(f.subnodes, 1, c).0 + " "@ + emit_child(
            f.subnodes,
            0,
            emit_space(f.subnodes, 1, c).1,
        ).0 + ")"@,
        has_return(f.subnodes[0]) <==> result_clause(f.subnodes[0]) != Seq::<char>::empty(),
        !has_return(f.subnodes[0]) ==> result_clause(f.subnodes[0]) == Seq::<char>::empty(),
{
    reveal_strlit(" (result i32)");
    assert(" (result i32)"@.len() == 13);
}

} // verus!
