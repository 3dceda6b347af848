use vstd::prelude::*;
use crate::ast::{
    AstNode, AstNodeKind, AstV, ast0, ast1, ast_view, ast_view_seq, wf_ast, lemma_ast_view_seq,
    lemma_ast_view_seq_concat,
};

verus! {

broadcast use vstd::std_specs::vec::group_vec_axioms, crate::ast::lemma_ast_view_seq;

/// The declarations that hoisting gathers at the front: one
/// `VariableDeclaration` per `VariableDefinition`, in first-seen order.
pub open spec fn hoist_decls(s: Seq<AstV>) -> Seq<AstV>
    decreases s,
{
    if s.len() == 0 {
        Seq::empty()
    } else if s[0].kind == AstNodeKind::VariableDefinition {
        seq![ast0(AstNodeKind::VariableDeclaration, s[0].value)] + hoist_decls(s.drop_first())
    } else {
        hoist_decls(s.drop_first())
    }
}

/// The statements after hoisting, in original order: a
/// `VariableDefinition` becomes the `Assign` of its initializer, all other
/// statements pass through unchanged.
pub open spec fn hoist_rest(s: Seq<AstV>) -> Seq<AstV>
    decreases s,
{
    if s.len() == 0 {
        Seq::empty()
    } else {
        seq![
            if s[0].kind == AstNodeKind::VariableDefinition {
                ast1(AstNodeKind::Assign, s[0].value, s[0].subnodes[0])
            } else {
                s[0]
            },
        ] + hoist_rest(s.drop_first())
    }
}

/// A hoisted statement list: all declarations first, then all statements in
/// original order with definitions replaced by assignments.
pub open spec fn hoist_stmts(s: Seq<AstV>) -> Seq<AstV> {
    hoist_decls(s) + hoist_rest(s)
}

/// A function body with its statement list hoisted.
pub open spec fn hoist_body_v(b: AstV) -> AstV {
    AstV { kind: b.kind, value: b.value, subnodes: hoist_stmts(b.subnodes) }
}

/// A function definition with its body (child 0) hoisted; anything else is
/// left alone.
pub open spec fn hoist_function_v(f: AstV) -> AstV {
    if f.kind == AstNodeKind::FunctionDefinition && f.subnodes.len() >= 1 {
        AstV {
            kind: f.kind,
            value: f.value,
            subnodes: f.subnodes.update(0, hoist_body_v(f.subnodes[0])),
        }
    } else {
        f
    }
}

pub open spec fn hoist_funcs(s: Seq<AstV>) -> Seq<AstV>
    decreases s,
{
    if s.len() == 0 {
        Seq::empty()
    } else {
        seq![hoist_function_v(s[0])] + hoist_funcs(s.drop_first())
    }
}

/// A program with every function definition's body hoisted.
pub open spec fn hoist_program_v(p: AstV) -> AstV {
    if p.kind == AstNodeKind::Program {
        AstV { kind: p.kind, value: p.value, subnodes: hoist_funcs(p.subnodes) }
    } else {
        p
    }
}

proof fn lemma_hoist_decls_snoc(s: Seq<AstV>, x: AstV)
    ensures
        hoist_decls(s.push(x)) == hoist_decls(s) + (if x.kind == AstNodeKind::VariableDefinition {
            seq![ast0(AstNodeKind::VariableDeclaration, x.value)]
        } else {
            Seq::<AstV>::empty()
        }),
    decreases s,
{
    if s.len() == 0 {
        assert(s.push(x)[0] == x);
        assert(s.push(x).drop_first() =~= Seq::<AstV>::empty());
        assert(hoist_decls(Seq::<AstV>::empty()) =~= Seq::<AstV>::empty());
        assert(hoist_decls(s) =~= Seq::<AstV>::empty());
        if x.kind == AstNodeKind::VariableDefinition {
            assert(hoist_decls(s.push(x)) =~= seq![
                ast0(AstNodeKind::VariableDeclaration, x.value),
            ]);
            assert(hoist_decls(s.push(x)) =~= hoist_decls(s) + seq![
                ast0(AstNodeKind::VariableDeclaration, x.value),
            ]);
        } else {
            assert(hoist_decls(s.push(x)) =~= hoist_decls(s) + Seq::<AstV>::empty());
        }
    } else {
        assert(s.push(x)[0] == s[0]);
        assert(s.push(x).drop_first() =~= s.drop_first().push(x));
        lemma_hoist_decls_snoc(s.drop_first(), x);
        assert(hoist_decls(s.push(x)) =~= hoist_decls(s) + (if x.kind
            == AstNodeKind::VariableDefinition {
            seq![ast0(AstNodeKind::VariableDeclaration, x.value)]
        } else {
            Seq::<AstV>::empty()
        }));
    }
}

proof fn lemma_hoist_rest_snoc(s: Seq<AstV>, x: AstV)
    ensures
        hoist_rest(s.push(x)) == hoist_rest(s).push(
            if x.kind == AstNodeKind::VariableDefinition {
                ast1(AstNodeKind::Assign, x.value, x.subnodes[0])
            } else {
                x
            },
        ),
    decreases s,
{
    if s.len() == 0 {
        let y = if x.kind == AstNodeKind::VariableDefinition {
            ast1(AstNodeKind::Assign, x.value, x.subnodes[0])
        } else {
            x
        };
        assert(s.push(x)[0] == x);
        assert(s.push(x).drop_first() =~= Seq::<AstV>::empty());
        assert(hoist_rest(Seq::<AstV>::empty()) =~= Seq::<AstV>::empty());
        assert(hoist_rest(s) =~= Seq::<AstV>::empty());
        assert(hoist_rest(s.push(x)) =~= seq![y]);
        assert(hoist_rest(s).push(y) =~= seq![y]);
    } else {
        assert(s.push(x)[0] == s[0]);
        assert(s.push(x).drop_first() =~= s.drop_first().push(x));
        lemma_hoist_rest_snoc(s.drop_first(), x);
        assert(hoist_rest(s.push(x)) =~= hoist_rest(s).push(
            if x.kind == AstNodeKind::VariableDefinition {
                ast1(AstNodeKind::Assign, x.value, x.subnodes[0])
            } else {
                x
            },
        ));
    }
}

proof fn lemma_hoist_funcs_snoc(s: Seq<AstV>, x: AstV)
    ensures
        hoist_funcs(s.push(x)) == hoist_funcs(s).push(hoist_function_v(x)),
    decreases s,
{
    if s.len() == 0 {
        assert(s.push(x)[0] == x);
        assert(s.push(x).drop_first() =~= Seq::<AstV>::empty());
        assert(hoist_funcs(Seq::<AstV>::empty()) =~= Seq::<AstV>::empty());
        assert(hoist_funcs(s) =~= Seq::<AstV>::empty());
        assert(hoist_funcs(s.push(x)) =~= seq![hoist_function_v(x)]);
        assert(hoist_funcs(s).push(hoist_function_v(x)) =~= seq![hoist_function_v(x)]);
    } else {
        assert(s.push(x)[0] == s[0]);
        assert(s.push(x).drop_first() =~= s.drop_first().push(x));
        lemma_hoist_funcs_snoc(s.drop_first(), x);
        assert(hoist_funcs(s.push(x)) =~= hoist_funcs(s).push(hoist_function_v(x)));
    }
}

/// Hoisting leaves a body without `VariableDefinition`s exactly as it is.
pub proof fn lemma_hoist_fixpoint(s: Seq<AstV>)
    requires
        forall|i: int| 0 <= i < s.len() ==> (#[trigger] s[i]).kind
            != AstNodeKind::VariableDefinition,
    ensures
        hoist_stmts(s) == s,
    decreases s,
{
    if s.len() == 0 {
        assert(hoist_stmts(s) =~= s);
    } else {
        assert(forall|i: int|
            0 <= i < s.drop_first().len() ==> (#[trigger] s.drop_first()[i]).kind
                != AstNodeKind::VariableDefinition);
        lemma_hoist_fixpoint(s.drop_first());
        assert(s[0].kind != AstNodeKind::VariableDefinition);
        assert(hoist_decls(s) == hoist_decls(s.drop_first()));
        assert(hoist_decls(s.drop_first()) + hoist_rest(s.drop_first()) == s.drop_first());
        assert(hoist_decls(s.drop_first()) =~= Seq::<AstV>::empty()) by {
            lemma_hoist_lens(s.drop_first());
            lemma_hoist_rest_len(s.drop_first());
        }
        assert(hoist_stmts(s) =~= s);
    }
}

proof fn lemma_hoist_rest_len(s: Seq<AstV>)
    ensures
        hoist_rest(s).len() == s.len(),
    decreases s,
{
    if s.len() > 0 {
        lemma_hoist_rest_len(s.drop_first());
    }
}

proof fn lemma_hoist_lens(s: Seq<AstV>)
    ensures
        hoist_decls(s).len() <= s.len(),
    decreases s,
{
    if s.len() > 0 {
        lemma_hoist_lens(s.drop_first());
    }
}

/// Hoisting leaves no `VariableDefinition` behind: declarations come out as
/// `VariableDeclaration`s, definitions as `Assign`s, everything else keeps
/// its kind.
pub proof fn lemma_hoist_no_definition(s: Seq<AstV>)
    ensures
        forall|i: int|
            0 <= i < hoist_stmts(s).len() ==> (#[trigger] hoist_stmts(s)[i]).kind
                != AstNodeKind::VariableDefinition,
{
    lemma_hoist_decls_all_decl(s);
    lemma_hoist_rest_no_definition(s);
    assert forall|i: int| 0 <= i < hoist_stmts(s).len() implies (#[trigger] hoist_stmts(s)[i]).kind
        != AstNodeKind::VariableDefinition by {
        if i < hoist_decls(s).len() {
            assert(hoist_stmts(s)[i] == hoist_decls(s)[i]);
        } else {
            assert(hoist_stmts(s)[i] == hoist_rest(s)[i - hoist_decls(s).len()]);
        }
    }
}

proof fn lemma_hoist_decls_all_decl(s: Seq<AstV>)
    ensures
        forall|i: int|
            0 <= i < hoist_decls(s).len() ==> (#[trigger] hoist_decls(s)[i]).kind
                == AstNodeKind::VariableDeclaration,
    decreases s,
{
    if s.len() > 0 {
        lemma_hoist_decls_all_decl(s.drop_first());
        if s[0].kind == AstNodeKind::VariableDefinition {
            assert forall|i: int| 0 <= i < hoist_decls(s).len() implies (#[trigger] hoist_decls(
                s,
            )[i]).kind == AstNodeKind::VariableDeclaration by {
                if i > 0 {
                    assert(hoist_decls(s)[i] == hoist_decls(s.drop_first())[i - 1]);
                }
            }
        }
    }
}

proof fn lemma_hoist_rest_no_definition(s: Seq<AstV>)
    ensures
        forall|i: int|
            0 <= i < hoist_rest(s).len() ==> (#[trigger] hoist_rest(s)[i]).kind
                != AstNodeKind::VariableDefinition,
    decreases s,
{
    if s.len() > 0 {
        lemma_hoist_rest_no_definition(s.drop_first());
        assert forall|i: int| 0 <= i < hoist_rest(s).len() implies (#[trigger] hoist_rest(
            s,
        )[i]).kind != AstNodeKind::VariableDefinition by {
            if i > 0 {
                assert(hoist_rest(s)[i] == hoist_rest(s.drop_first())[i - 1]);
            }
        }
    }
}

/// Hoisting is idempotent: what one application produces, a second leaves
/// unchanged.
pub proof fn lemma_hoist_idempotent(s: Seq<AstV>)
    ensures
        hoist_stmts(hoist_stmts(s)) == hoist_stmts(s),
{
    lemma_hoist_no_definition(s);
    lemma_hoist_fixpoint(hoist_stmts(s));
}

/// Every `VariableDefinition` directly in the list carries its initializer.
pub open spec fn definitions_carry_initializer(s: Seq<AstV>) -> bool {
    forall|i: int|
        0 <= i < s.len() ==> ((#[trigger] s[i]).kind == AstNodeKind::VariableDefinition
            ==> s[i].subnodes.len() == 1)
}

/// Hoists one statement list: declarations first, then the statements in
/// original order with each definition split into its assignment.
pub fn hoist_statements(body: Vec<AstNode>) -> (r: Vec<AstNode>)
    requires
        definitions_carry_initializer(ast_view_seq(body@)),
    ensures
        ast_view_seq(r@) == hoist_stmts(ast_view_seq(body@)),
{
    let ghost orig = ast_view_seq(body@);
    let mut decls: Vec<AstNode> = Vec::new();
    let mut rest: Vec<AstNode> = Vec::new();
    let mut remaining = body;
    let ghost mut i: int = 0;
    proof {
        assert(orig.take(0) =~= Seq::<AstV>::empty());
        assert(hoist_decls(orig.take(0)) =~= Seq::<AstV>::empty());
        assert(hoist_rest(orig.take(0)) =~= Seq::<AstV>::empty());
        assert(ast_view_seq(decls@) =~= Seq::<AstV>::empty());
        assert(ast_view_seq(rest@) =~= Seq::<AstV>::empty());
    }
    while remaining.len() > 0
        invariant
            orig == ast_view_seq(body@),
            definitions_carry_initializer(orig),
            0 <= i <= orig.len(),
            remaining@ =~= body@.skip(i),
            orig.len() == body@.len(),
            ast_view_seq(decls@) == hoist_decls(orig.take(i)),
            ast_view_seq(rest@) == hoist_rest(orig.take(i)),
        decreases remaining.len(),
    {
        let node = remaining.remove(0);
        proof {
            assert(node == body@[i]);
            assert(remaining@ =~= body@.skip(i + 1));
            assert(orig[i] == ast_view(node));
            assert(orig.take(i + 1) =~= orig.take(i).push(orig[i]));
            lemma_hoist_decls_snoc(orig.take(i), orig[i]);
            lemma_hoist_rest_snoc(orig.take(i), orig[i]);
        }
        if matches!(node.kind, AstNodeKind::VariableDefinition) {
            let name = node.value;
            let name_copy = name.clone();
            let mut sub = node.subnodes;
            proof {
                assert(orig[i].subnodes.len() == 1);
                assert(ast_view_seq(sub@).len() == sub@.len());
            }
            let init = sub.remove(0);
            proof {
                assert(ast_view(init) == orig[i].subnodes[0]);
            }
            let ghost decls_pre = decls@;
            let ghost rest_pre = rest@;
            decls.push(AstNode::variable_declaration(name_copy));
            rest.push(AstNode::assign(name, init));
            proof {
                assert(decls@ =~= decls_pre.push(decls@[decls_pre.len() as int]));
                lemma_ast_view_seq_concat(decls_pre, seq![decls@[decls_pre.len() as int]]);
                assert(decls@ =~= decls_pre + seq![decls@[decls_pre.len() as int]]);
                assert(ast_view_seq(seq![decls@[decls_pre.len() as int]]) =~= seq![
                    ast_view(decls@[decls_pre.len() as int]),
                ]);
                assert(ast_view_seq(decls@) =~= hoist_decls(orig.take(i + 1)));
                lemma_ast_view_seq_concat(rest_pre, seq![rest@[rest_pre.len() as int]]);
                assert(rest@ =~= rest_pre + seq![rest@[rest_pre.len() as int]]);
                assert(ast_view_seq(seq![rest@[rest_pre.len() as int]]) =~= seq![
                    ast_view(rest@[rest_pre.len() as int]),
                ]);
                assert(ast_view_seq(rest@) =~= hoist_rest(orig.take(i + 1)));
            }
        } else {
            let ghost rest_pre = rest@;
            proof {
                assert(ast_view(node).kind != AstNodeKind::VariableDefinition);
                assert(hoist_decls(orig.take(i + 1)) == hoist_decls(orig.take(i)));
            }
            rest.push(node);
            proof {
                lemma_ast_view_seq_concat(rest_pre, seq![rest@[rest_pre.len() as int]]);
                assert(rest@ =~= rest_pre + seq![rest@[rest_pre.len() as int]]);
                assert(ast_view_seq(seq![rest@[rest_pre.len() as int]]) =~= seq![
                    ast_view(rest@[rest_pre.len() as int]),
                ]);
                assert(ast_view_seq(rest@) =~= hoist_rest(orig.take(i + 1)));
            }
        }
        proof {
            i = i + 1;
        }
    }
    proof {
        assert(body@.skip(i).len() == 0);
        assert(i == orig.len());
        assert(orig.take(i) =~= orig);
    }
    let ghost decls_v = decls@;
    let ghost rest_v = rest@;
    let mut out = decls;
    let mut tail = rest;
    proof {
        lemma_ast_view_seq_concat(decls_v, rest_v);
    }
    out.append(&mut tail);
    proof {
        assert(out@ =~= decls_v + rest_v);
    }
    out
}

/// Hoists the body of one function definition, leaving any other node
/// untouched.
pub fn hoist_function(node: AstNode) -> (r: AstNode)
    requires
        wf_ast(node@),
    ensures
        r@ == hoist_function_v(node@),
        wf_ast(r@) || node@.kind == AstNodeKind::FunctionDefinition,
{
    let ghost fv = node@;
    if matches!(node.kind, AstNodeKind::FunctionDefinition) && node.subnodes.len() >= 1 {
        let AstNode { kind, value, subnodes } = node;
        let mut subs = subnodes;
        proof {
            assert(ast_view_seq(subs@).len() == subs@.len());
        }
        let body = subs.remove(0);
        proof {
            assert(ast_view(body) == fv.subnodes[0]);
            assert(fv.subnodes[0].kind == AstNodeKind::Block);
            assert(wf_ast(fv.subnodes[0]));
            assert(definitions_carry_initializer(fv.subnodes[0].subnodes)) by {
                assert forall|k: int|
                    0 <= k < fv.subnodes[0].subnodes.len() && (#[trigger] fv.subnodes[0].subnodes[k]).kind
                        == AstNodeKind::VariableDefinition implies fv.subnodes[0].subnodes[k].subnodes.len()
                    == 1 by {
                    assert(wf_ast(fv.subnodes[0].subnodes[k]));
                }
            }
        }
        let AstNode { kind: bkind, value: bvalue, subnodes: bsubs } = body;
        let hoisted = hoist_statements(bsubs);
        let new_body = AstNode { kind: bkind, value: bvalue, subnodes: hoisted };
        proof {
            assert(new_body@ == hoist_body_v(fv.subnodes[0]));
        }
        let mut rebuilt = subs;
        rebuilt.insert(0, new_body);
        proof {
            lemma_ast_view_seq(rebuilt@);
            lemma_ast_view_seq(subs@);
            assert(ast_view_seq(rebuilt@) =~= fv.subnodes.update(
                0,
                hoist_body_v(fv.subnodes[0]),
            )) by {
                assert forall|k: int| 0 <= k < rebuilt@.len() implies ast_view_seq(rebuilt@)[k]
                    == fv.subnodes.update(0, hoist_body_v(fv.subnodes[0]))[k] by {
                    if k > 0 {
                        assert(rebuilt@[k] == subs@[k - 1]);
                        assert(ast_view_seq(subs@)[k - 1] == ast_view(subs@[k - 1]));
                    }
                }
            }
        }
        AstNode { kind, value, subnodes: rebuilt }
    } else {
        node
    }
}

/// Hoists every function definition in a program, as the lowering step
/// between parsing and emission.
pub fn hoist_program(program: AstNode) -> (r: AstNode)
    requires
        wf_ast(program@),
    ensures
        r@ == hoist_program_v(program@),
{
    let ghost pv = program@;
    if matches!(program.kind, AstNodeKind::Program) {
        let AstNode { kind, value, subnodes } = program;
        let mut remaining = subnodes;
        let ghost orig_children = subnodes@;
        let mut out: Vec<AstNode> = Vec::new();
        let ghost mut i: int = 0;
        proof {
            assert(pv.subnodes =~= ast_view_seq(orig_children));
            assert(pv.subnodes.take(0) =~= Seq::<AstV>::empty());
            assert(hoist_funcs(pv.subnodes.take(0)) =~= Seq::<AstV>::empty());
            assert(ast_view_seq(out@) =~= Seq::<AstV>::empty());
        }
        while remaining.len() > 0
            invariant
                pv.subnodes == ast_view_seq(orig_children),
                forall|k: int| 0 <= k < pv.subnodes.len() ==> wf_ast(#[trigger] pv.subnodes[k]),
                0 <= i <= orig_children.len(),
                remaining@ =~= orig_children.skip(i),
                pv.subnodes.len() == orig_children.len(),
                ast_view_seq(out@) == hoist_funcs(pv.subnodes.take(i)),
            decreases remaining.len(),
        {
            let node = remaining.remove(0);
            proof {
                assert(node == orig_children[i]);
                assert(remaining@ =~= orig_children.skip(i + 1));
                assert(pv.subnodes[i] == ast_view(node));
                assert(wf_ast(node@));
                assert(pv.subnodes.take(i + 1) =~= pv.subnodes.take(i).push(pv.subnodes[i]));
                lemma_hoist_funcs_snoc(pv.subnodes.take(i), pv.subnodes[i]);
            }
            let ghost out_pre = out@;
            let hoisted = hoist_function(node);
            out.push(hoisted);
            proof {
                lemma_ast_view_seq_concat(out_pre, seq![out@[out_pre.len() as int]]);
                assert(out@ =~= out_pre + seq![out@[out_pre.len() as int]]);
                assert(ast_view_seq(seq![out@[out_pre.len() as int]]) =~= seq![
                    ast_view(out@[out_pre.len() as int]),
                ]);
                assert(ast_view_seq(out@) =~= hoist_funcs(pv.subnodes.take(i + 1)));
                i = i + 1;
            }
        }
        proof {
            assert(orig_children.skip(i).len() == 0);
            assert(i == orig_children.len());
            assert(pv.subnodes.take(i) =~= pv.subnodes);
        }
        AstNode { kind, value, subnodes: out }
    } else {
        program
    }
}

/// Hoisting preserves the shape invariant: declarations and assignments it
/// builds are well formed, and everything else passes through.
pub proof fn lemma_hoist_stmts_wf(s: Seq<AstV>)
    requires
        forall|i: int| 0 <= i < s.len() ==> wf_ast(#[trigger] s[i]),
    ensures
        forall|i: int| 0 <= i < hoist_stmts(s).len() ==> wf_ast(#[trigger] hoist_stmts(s)[i]),
{
    lemma_hoist_decls_wf(s);
    lemma_hoist_rest_wf(s);
    assert forall|i: int| 0 <= i < hoist_stmts(s).len() implies wf_ast(
        #[trigger] hoist_stmts(s)[i],
    ) by {
        if i < hoist_decls(s).len() {
            assert(hoist_stmts(s)[i] == hoist_decls(s)[i]);
        } else {
            assert(hoist_stmts(s)[i] == hoist_rest(s)[i - hoist_decls(s).len()]);
        }
    }
}

proof fn lemma_hoist_decls_wf(s: Seq<AstV>)
    requires
        forall|i: int| 0 <= i < s.len() ==> wf_ast(#[trigger] s[i]),
    ensures
        forall|i: int| 0 <= i < hoist_decls(s).len() ==> wf_ast(#[trigger] hoist_decls(s)[i]),
    decreases s,
{
    if s.len() > 0 {
        assert(forall|i: int|
            0 <= i < s.drop_first().len() ==> wf_ast(#[trigger] s.drop_first()[i]));
        lemma_hoist_decls_wf(s.drop_first());
        assert forall|i: int| 0 <= i < hoist_decls(s).len() implies wf_ast(
            #[trigger] hoist_decls(s)[i],
        ) by {
            if s[0].kind == AstNodeKind::VariableDefinition {
                if i == 0 {
                    assert(hoist_decls(s)[i] == ast0(
                        AstNodeKind::VariableDeclaration,
                        s[0].value,
                    ));
                    assert(wf_ast(ast0(AstNodeKind::VariableDeclaration, s[0].value)));
                } else {
                    assert(hoist_decls(s)[i] == hoist_decls(s.drop_first())[i - 1]);
                }
            } else {
                assert(hoist_decls(s)[i] == hoist_decls(s.drop_first())[i]);
            }
        }
    }
}

proof fn lemma_hoist_rest_wf(s: Seq<AstV>)
    requires
        forall|i: int| 0 <= i < s.len() ==> wf_ast(#[trigger] s[i]),
    ensures
        forall|i: int| 0 <= i < hoist_rest(s).len() ==> wf_ast(#[trigger] hoist_rest(s)[i]),
    decreases s,
{
    if s.len() > 0 {
        assert(forall|i: int|
            0 <= i < s.drop_first().len() ==> wf_ast(#[trigger] s.drop_first()[i]));
        lemma_hoist_rest_wf(s.drop_first());
        assert forall|i: int| 0 <= i < hoist_rest(s).len() implies wf_ast(
            #[trigger] hoist_rest(s)[i],
        ) by {
            if i == 0 {
                if s[0].kind == AstNodeKind::VariableDefinition {
                    let node = ast1(AstNodeKind::Assign, s[0].value, s[0].subnodes[0]);
                    assert(hoist_rest(s)[i] == node);
                    assert(wf_ast(s[0]));
                    assert(wf_ast(s[0].subnodes[0]));
                    assert(node.subnodes[0] == s[0].subnodes[0]);
                    assert(wf_ast(node));
                } else {
                    assert(hoist_rest(s)[i] == s[0]);
                }
            } else {
                assert(hoist_rest(s)[i] == hoist_rest(s.drop_first())[i - 1]);
            }
        }
    }
}

/// Hoisting a function definition keeps it well formed.
pub proof fn lemma_hoist_function_wf(f: AstV)
    requires
        wf_ast(f),
    ensures
        wf_ast(hoist_function_v(f)),
{
    if f.kind == AstNodeKind::FunctionDefinition && f.subnodes.len() >= 1 {
        let body = f.subnodes[0];
        assert(wf_ast(body));
        assert(forall|i: int|
            0 <= i < body.subnodes.len() ==> wf_ast(#[trigger] body.subnodes[i]));
        lemma_hoist_stmts_wf(body.subnodes);
        let new_body = hoist_body_v(body);
        assert(wf_ast(new_body));
        let out = hoist_function_v(f);
        assert(out.subnodes[0] == new_body);
        assert(crate::ast::wf_arity(out)) by {
            assert forall|i: int| 1 <= i < out.subnodes.len() implies (
            #[trigger] out.subnodes[i]).kind == AstNodeKind::Identifier by {
                assert(out.subnodes[i] == f.subnodes[i]);
            }
        }
        assert forall|i: int| 0 <= i < out.subnodes.len() implies wf_ast(
            #[trigger] out.subnodes[i],
        ) by {
            if i >= 1 {
                assert(out.subnodes[i] == f.subnodes[i]);
            }
        }
    }
}

/// Hoisting a whole program keeps it well formed, ready for emission.
pub proof fn lemma_hoist_program_wf(p: AstV)
    requires
        wf_ast(p),
    ensures
        wf_ast(hoist_program_v(p)),
{
    if p.kind == AstNodeKind::Program {
        lemma_hoist_funcs_wf(p.subnodes);
        lemma_hoist_funcs_len(p.subnodes);
        let out = hoist_program_v(p);
        assert(out.subnodes == hoist_funcs(p.subnodes));
        assert(crate::ast::wf_arity(out));
    }
}

proof fn lemma_hoist_funcs_len(s: Seq<AstV>)
    ensures
        hoist_funcs(s).len() == s.len(),
    decreases s,
{
    if s.len() > 0 {
        lemma_hoist_funcs_len(s.drop_first());
    }
}

proof fn lemma_hoist_funcs_wf(s: Seq<AstV>)
    requires
        forall|i: int| 0 <= i < s.len() ==> wf_ast(#[trigger] s[i]),
    ensures
        forall|i: int| 0 <= i < hoist_funcs(s).len() ==> wf_ast(#[trigger] hoist_funcs(s)[i]),
    decreases s,
{
    if s.len() > 0 {
        assert(forall|i: int|
            0 <= i < s.drop_first().len() ==> wf_ast(#[trigger] s.drop_first()[i]));
        lemma_hoist_funcs_wf(s.drop_first());
        lemma_hoist_function_wf(s[0]);
        assert forall|i: int| 0 <= i < hoist_funcs(s).len() implies wf_ast(
            #[trigger] hoist_funcs(s)[i],
        ) by {
            if i == 0 {
                assert(hoist_funcs(s)[i] == hoist_function_v(s[0]));
            } else {
                assert(hoist_funcs(s)[i] == hoist_funcs(s.drop_first())[i - 1]);
            }
        }
    }
}

} // verus!
