use vstd::prelude::*;
use crate::ast::{
    AstNode, AstNodeKind, AstV, ast0, ast1, ast2, ast_list, ast_view, ast_view_seq, null_ast,
    wf_arity, wf_ast, lemma_ast_view_seq,
};
use crate::values::{
    ParseValue, ValueV, all_nodes, nodes_of, nodes_vec, value_view, value_view_seq, value_wf,
    lemma_value_view_seq,
};
use crate::numeral::{all_digits, dec_seq, digits_val, digits_value_within, dec_string};

verus! {

broadcast use crate::values::lemma_value_view_seq, crate::ast::lemma_ast_view_seq;

/// The largest integer literal the grammar accepts.
pub const INTEGER_LIMIT: u64 = 2147483647;

/// How a `Transform` combinator turns the wrapped match into a new result.
/// Each kind names one conversion of the grammar; the conversion fails when
/// the wrapped result does not have the expected shape.
#[derive(Clone, Copy, Debug)]
pub enum TransformKind {
    /// Digits into an `Integer` node; fails past `INTEGER_LIMIT`.
    IntegerLiteral,
    /// Matched text into an `Identifier` node.
    IdentifierName,
    /// An operator token into an operator node with two `Null` children,
    /// filled in by `InfixFold`.
    Operator(AstNodeKind),
    /// An optional negation and an operand into the operand, negated when
    /// the negation was present.
    UnaryNot,
    /// A first term and a list of operator-term pairs, folded left.
    InfixFold,
    /// A first element and a list of further elements into one list.
    ListFlatten,
    /// A callee identifier and optional arguments into a `FunctionCall`.
    CallNode,
    /// An expression into a `FunctionReturn`.
    ReturnNode,
    /// Condition, consequence and optional alternative into an `IfStatement`.
    IfNode,
    /// Condition and body into a `WhileLoop`.
    WhileNode,
    /// A name and an initializer into a `VariableDefinition`.
    VarNode,
    /// A name and a right-hand side into an `Assign`.
    AssignNode,
    /// A list of statements into a `Block`.
    BlockNode,
    /// Name, optional parameters and body into a `FunctionDefinition`.
    FuncNode,
    /// A list of statements into a `Program`.
    ProgramNode,
}

pub open spec fn is_binary_kind(k: AstNodeKind) -> bool {
    k == AstNodeKind::Equal || k == AstNodeKind::NotEqual || k == AstNodeKind::Add || k
        == AstNodeKind::Subtract || k == AstNodeKind::Multiply || k == AstNodeKind::Divide
}

/// Left-associative fold of operator-term pairs onto a first term: each pair
/// hands its operator the running result as left child and its term as right
/// child.
pub open spec fn fold_ops(cur: AstV, pairs: Seq<ValueV>) -> Option<AstV>
    decreases pairs.len(),
{
    if pairs.len() == 0 {
        Some(cur)
    } else {
        match pairs[0] {
            ValueV::List(p) => {
                if p.len() == 2 && p[0] is Node && p[1] is Node && is_binary_kind(
                    p[0]->Node_0.kind,
                ) {
                    fold_ops(
                        ast2(p[0]->Node_0.kind, p[0]->Node_0.value, cur, p[1]->Node_0),
                        pairs.drop_first(),
                    )
                } else {
                    None
                }
            },
            _ => None,
        }
    }
}

/// What each conversion yields, or nothing where the input has the wrong
/// shape or an integer literal is out of range.
pub open spec fn spec_apply(t: TransformKind, v: ValueV) -> Option<ValueV> {
    match t {
        TransformKind::IntegerLiteral => match v {
            ValueV::Text(s) => {
                if s.len() > 0 && all_digits(s) && digits_val(s) <= INTEGER_LIMIT {
                    Some(ValueV::Node(ast0(AstNodeKind::Integer, dec_seq(digits_val(s)))))
                } else {
                    None
                }
            },
            _ => None,
        },
        TransformKind::IdentifierName => match v {
            ValueV::Text(s) => Some(ValueV::Node(ast0(AstNodeKind::Identifier, s))),
            _ => None,
        },
        TransformKind::Operator(k) => match v {
            ValueV::Text(_) => {
                if is_binary_kind(k) {
                    Some(ValueV::Node(ast2(k, Seq::empty(), null_ast(), null_ast())))
                } else {
                    None
                }
            },
            _ => None,
        },
        TransformKind::UnaryNot => match v {
            ValueV::List(l) => {
                if l.len() == 2 && l[0] is List && l[1] is Node {
                    if l[0]->List_0.len() == 0 {
                        Some(l[1])
                    } else {
                        Some(ValueV::Node(ast1(AstNodeKind::Not, Seq::empty(), l[1]->Node_0)))
                    }
                } else {
                    None
                }
            },
            _ => None,
        },
        TransformKind::InfixFold => match v {
            ValueV::List(l) => {
                if l.len() == 2 && l[0] is Node && l[1] is List {
                    match fold_ops(l[0]->Node_0, l[1]->List_0) {
                        Some(a) => Some(ValueV::Node(a)),
                        None => None,
                    }
                } else {
                    None
                }
            },
            _ => None,
        },
        TransformKind::ListFlatten => match v {
            ValueV::List(l) => {
                if l.len() == 2 && l[1] is List {
                    Some(ValueV::List(seq![l[0]] + l[1]->List_0))
                } else {
                    None
                }
            },
            _ => None,
        },
        TransformKind::CallNode => match v {
            ValueV::List(l) => {
                if l.len() == 2 && l[0] is Node && l[0]->Node_0.kind == AstNodeKind::Identifier
                    && l[1] is List {
                    let opt = l[1]->List_0;
                    if opt.len() == 0 {
                        Some(
                            ValueV::Node(
                                ast_list(AstNodeKind::FunctionCall, l[0]->Node_0.value, Seq::empty()),
                            ),
                        )
                    } else if opt[0] is List && all_nodes(opt[0]->List_0) {
                        Some(
                            ValueV::Node(
                                ast_list(
                                    AstNodeKind::FunctionCall,
                                    l[0]->Node_0.value,
                                    nodes_of(opt[0]->List_0),
                                ),
                            ),
                        )
                    } else {
                        None
                    }
                } else {
                    None
                }
            },
            _ => None,
        },
        TransformKind::ReturnNode => match v {
            ValueV::Node(a) => Some(
                ValueV::Node(ast1(AstNodeKind::FunctionReturn, Seq::empty(), a)),
            ),
            _ => None,
        },
        TransformKind::IfNode => match v {
            ValueV::List(l) => {
                if l.len() == 2 && l[0] is List && l[1] is List {
                    let ct = l[0]->List_0;
                    let opt = l[1]->List_0;
                    if ct.len() == 2 && ct[0] is Node && ct[1] is Node {
                        if opt.len() == 0 {
                            Some(
                                ValueV::Node(
                                    ast_list(
                                        AstNodeKind::IfStatement,
                                        Seq::empty(),
                                        seq![ct[0]->Node_0, ct[1]->Node_0, null_ast()],
                                    ),
                                ),
                            )
                        } else if opt[0] is Node {
                            Some(
                                ValueV::Node(
                                    ast_list(
                                        AstNodeKind::IfStatement,
                                        Seq::empty(),
                                        seq![ct[0]->Node_0, ct[1]->Node_0, opt[0]->Node_0],
                                    ),
                                ),
                            )
                        } else {
                            None
                        }
                    } else {
                        None
                    }
                } else {
                    None
                }
            },
            _ => None,
        },
        TransformKind::WhileNode => match v {
            ValueV::List(l) => {
                if l.len() == 2 && l[0] is Node && l[1] is Node {
                    Some(
                        ValueV::Node(
                            ast2(
                                AstNodeKind::WhileLoop,
                                Seq::empty(),
                                l[0]->Node_0,
                                l[1]->Node_0,
                            ),
                        ),
                    )
                } else {
                    None
                }
            },
            _ => None,
        },
        TransformKind::VarNode => match v {
            ValueV::List(l) => {
                if l.len() == 2 && l[0] is Node && l[0]->Node_0.kind == AstNodeKind::Identifier
                    && l[1] is Node {
                    Some(
                        ValueV::Node(
                            ast1(
                                AstNodeKind::VariableDefinition,
                                l[0]->Node_0.value,
                                l[1]->Node_0,
                            ),
                        ),
                    )
                } else {
                    None
                }
            },
            _ => None,
        },
        TransformKind::AssignNode => match v {
            ValueV::List(l) => {
                if l.len() == 2 && l[0] is Node && l[0]->Node_0.kind == AstNodeKind::Identifier
                    && l[1] is Node {
                    Some(
                        ValueV::Node(
                            ast1(AstNodeKind::Assign, l[0]->Node_0.value, l[1]->Node_0),
                        ),
                    )
                } else {
                    None
                }
            },
            _ => None,
        },
        TransformKind::BlockNode => match v {
            ValueV::List(l) => {
                if all_nodes(l) {
                    Some(ValueV::Node(ast_list(AstNodeKind::Block, Seq::empty(), nodes_of(l))))
                } else {
                    None
                }
            },
            _ => None,
        },
        TransformKind::FuncNode => match v {
            ValueV::List(l) => {
                if l.len() == 2 && l[0] is List && l[1] is Node && l[1]->Node_0.kind
                    == AstNodeKind::Block {
                    let hd = l[0]->List_0;
                    if hd.len() == 2 && hd[0] is Node && hd[0]->Node_0.kind
                        == AstNodeKind::Identifier && hd[1] is List {
                        let optp = hd[1]->List_0;
                        if optp.len() == 0 {
                            Some(
                                ValueV::Node(
                                    ast_list(
                                        AstNodeKind::FunctionDefinition,
                                        hd[0]->Node_0.value,
                                        seq![l[1]->Node_0],
                                    ),
                                ),
                            )
                        } else if optp[0] is List && all_nodes(optp[0]->List_0) && all_identifiers(
                            optp[0]->List_0,
                        ) {
                            Some(
                                ValueV::Node(
                                    ast_list(
                                        AstNodeKind::FunctionDefinition,
                                        hd[0]->Node_0.value,
                                        seq![l[1]->Node_0] + nodes_of(optp[0]->List_0),
                                    ),
                                ),
                            )
                        } else {
                            None
                        }
                    } else {
                        None
                    }
                } else {
                    None
                }
            },
            _ => None,
        },
        TransformKind::ProgramNode => match v {
            ValueV::List(l) => {
                if all_nodes(l) {
                    Some(
                        ValueV::Node(ast_list(AstNodeKind::Program, Seq::empty(), nodes_of(l))),
                    )
                } else {
                    None
                }
            },
            _ => None,
        },
    }
}

pub open spec fn all_identifiers(s: Seq<ValueV>) -> bool {
    forall|i: int|
        0 <= i < s.len() ==> (#[trigger] s[i])->Node_0.kind == AstNodeKind::Identifier
}

proof fn lemma_nodes_of_wf(l: Seq<ValueV>)
    requires
        all_nodes(l),
        forall|i: int| 0 <= i < l.len() ==> value_wf(#[trigger] l[i]),
    ensures
        forall|i: int| 0 <= i < nodes_of(l).len() ==> wf_ast(#[trigger] nodes_of(l)[i]),
{
    assert forall|i: int| 0 <= i < nodes_of(l).len() implies wf_ast(#[trigger] nodes_of(l)[i]) by {
        assert(nodes_of(l)[i] == l[i]->Node_0);
        assert(value_wf(l[i]));
    }
}

proof fn lemma_fold_ops_wf(cur: AstV, pairs: Seq<ValueV>)
    requires
        wf_ast(cur),
        forall|i: int| 0 <= i < pairs.len() ==> value_wf(#[trigger] pairs[i]),
    ensures
        fold_ops(cur, pairs) matches Some(a) ==> wf_ast(a),
    decreases pairs.len(),
{
    if pairs.len() > 0 {
        match pairs[0] {
            ValueV::List(p) => {
                if p.len() == 2 && p[0] is Node && p[1] is Node && is_binary_kind(
                    p[0]->Node_0.kind,
                ) {
                    let next = ast2(p[0]->Node_0.kind, p[0]->Node_0.value, cur, p[1]->Node_0);
                    assert(value_wf(pairs[0]));
                    assert(value_wf(p[1]));
                    assert(wf_ast(p[1]->Node_0));
                    assert(next.subnodes[0] == cur && next.subnodes[1] == p[1]->Node_0);
                    assert(wf_ast(next));
                    assert(forall|i: int|
                        0 <= i < pairs.drop_first().len() ==> value_wf(
                            #[trigger] pairs.drop_first()[i],
                        ));
                    lemma_fold_ops_wf(next, pairs.drop_first());
                }
            },
            _ => {},
        }
    }
}

/// Whatever shape of result a conversion accepts, what it builds keeps the
/// grammar's shape invariant.
pub proof fn lemma_spec_apply_wf(t: TransformKind, v: ValueV)
    requires
        value_wf(v),
    ensures
        spec_apply(t, v) matches Some(v2) ==> value_wf(v2),
{
    match t {
        TransformKind::IntegerLiteral => {
            if v is Text {
                assert(wf_ast(ast0(AstNodeKind::Integer, dec_seq(digits_val(v->Text_0)))));
            }
        },
        TransformKind::IdentifierName => {
            if v is Text {
                assert(wf_ast(ast0(AstNodeKind::Identifier, v->Text_0)));
            }
        },
        TransformKind::Operator(k) => {
            if v is Text && is_binary_kind(k) {
                let node = ast2(k, Seq::empty(), null_ast(), null_ast());
                assert(node.subnodes[0] == null_ast() && node.subnodes[1] == null_ast());
                assert(wf_ast(null_ast()));
                assert(wf_ast(node));
            }
        },
        TransformKind::UnaryNot => {
            if v is List && v->List_0.len() == 2 && v->List_0[0] is List && v->List_0[1] is Node {
                let l = v->List_0;
                assert(value_wf(l[1]));
                let node = ast1(AstNodeKind::Not, Seq::empty(), l[1]->Node_0);
                assert(node.subnodes[0] == l[1]->Node_0);
                assert(wf_ast(node));
            }
        },
        TransformKind::InfixFold => {
            if v is List && v->List_0.len() == 2 && v->List_0[0] is Node && v->List_0[1] is List {
                let l = v->List_0;
                assert(value_wf(l[0]));
                assert(value_wf(l[1]));
                lemma_fold_ops_wf(l[0]->Node_0, l[1]->List_0);
            }
        },
        TransformKind::ListFlatten => {
            if v is List && v->List_0.len() == 2 && v->List_0[1] is List {
                let l = v->List_0;
                let out = seq![l[0]] + l[1]->List_0;
                assert(value_wf(l[0]));
                assert(value_wf(l[1]));
                assert forall|i: int| 0 <= i < out.len() implies value_wf(#[trigger] out[i]) by {
                    if i == 0 {
                        assert(out[i] == l[0]);
                    } else {
                        assert(out[i] == l[1]->List_0[i - 1]);
                    }
                }
            }
        },
        TransformKind::CallNode => {
            if v is List && v->List_0.len() == 2 && v->List_0[0] is Node && v->List_0[0]->Node_0.kind
                == AstNodeKind::Identifier && v->List_0[1] is List {
                let l = v->List_0;
                let opt = l[1]->List_0;
                assert(value_wf(l[1]));
                if opt.len() == 0 {
                    assert(wf_ast(
                        ast_list(AstNodeKind::FunctionCall, l[0]->Node_0.value, Seq::empty()),
                    ));
                } else if opt[0] is List && all_nodes(opt[0]->List_0) {
                    assert(value_wf(opt[0]));
                    lemma_nodes_of_wf(opt[0]->List_0);
                    assert(wf_ast(
                        ast_list(
                            AstNodeKind::FunctionCall,
                            l[0]->Node_0.value,
                            nodes_of(opt[0]->List_0),
                        ),
                    ));
                }
            }
        },
        TransformKind::ReturnNode => {
            if v is Node {
                let a = v->Node_0;
                let node = ast1(AstNodeKind::FunctionReturn, Seq::empty(), a);
                assert(node.subnodes[0] == a);
                assert(wf_ast(node));
            }
        },
        TransformKind::IfNode => {
            if v is List && v->List_0.len() == 2 && v->List_0[0] is List && v->List_0[1] is List {
                let l = v->List_0;
                let ct = l[0]->List_0;
                let opt = l[1]->List_0;
                assert(value_wf(l[0]));
                assert(value_wf(l[1]));
                if ct.len() == 2 && ct[0] is Node && ct[1] is Node {
                    assert(value_wf(ct[0]));
                    assert(value_wf(ct[1]));
                    if opt.len() == 0 {
                        let node = ast_list(
                            AstNodeKind::IfStatement,
                            Seq::empty(),
                            seq![ct[0]->Node_0, ct[1]->Node_0, null_ast()],
                        );
                        assert(node.subnodes[0] == ct[0]->Node_0 && node.subnodes[1]
                            == ct[1]->Node_0 && node.subnodes[2] == null_ast());
                        assert(wf_ast(null_ast()));
                        assert(wf_ast(node));
                    } else if opt[0] is Node {
                        assert(value_wf(opt[0]));
                        let node = ast_list(
                            AstNodeKind::IfStatement,
                            Seq::empty(),
                            seq![ct[0]->Node_0, ct[1]->Node_0, opt[0]->Node_0],
                        );
                        assert(node.subnodes[0] == ct[0]->Node_0 && node.subnodes[1]
                            == ct[1]->Node_0 && node.subnodes[2] == opt[0]->Node_0);
                        assert(wf_ast(node));
                    }
                }
            }
        },
        TransformKind::WhileNode => {
            if v is List && v->List_0.len() == 2 && v->List_0[0] is Node && v->List_0[1] is Node {
                let l = v->List_0;
                assert(value_wf(l[0]));
                assert(value_wf(l[1]));
                let node = ast2(AstNodeKind::WhileLoop, Seq::empty(), l[0]->Node_0, l[1]->Node_0);
                assert(node.subnodes[0] == l[0]->Node_0 && node.subnodes[1] == l[1]->Node_0);
                assert(wf_ast(node));
            }
        },
        TransformKind::VarNode => {
            if v is List && v->List_0.len() == 2 && v->List_0[0] is Node && v->List_0[0]->Node_0.kind
                == AstNodeKind::Identifier && v->List_0[1] is Node {
                let l = v->List_0;
                assert(value_wf(l[1]));
                let node = ast1(AstNodeKind::VariableDefinition, l[0]->Node_0.value, l[1]->Node_0);
                assert(node.subnodes[0] == l[1]->Node_0);
                assert(wf_ast(node));
            }
        },
        TransformKind::AssignNode => {
            if v is List && v->List_0.len() == 2 && v->List_0[0] is Node && v->List_0[0]->Node_0.kind
                == AstNodeKind::Identifier && v->List_0[1] is Node {
                let l = v->List_0;
                assert(value_wf(l[1]));
                let node = ast1(AstNodeKind::Assign, l[0]->Node_0.value, l[1]->Node_0);
                assert(node.subnodes[0] == l[1]->Node_0);
                assert(wf_ast(node));
            }
        },
        TransformKind::BlockNode => {
            if v is List && all_nodes(v->List_0) {
                let l = v->List_0;
                lemma_nodes_of_wf(l);
                assert(wf_ast(ast_list(AstNodeKind::Block, Seq::empty(), nodes_of(l))));
            }
        },
        TransformKind::FuncNode => {
            if v is List && v->List_0.len() == 2 && v->List_0[0] is List && v->List_0[1] is Node
                && v->List_0[1]->Node_0.kind == AstNodeKind::Block {
                let l = v->List_0;
                let hd = l[0]->List_0;
                assert(value_wf(l[0]));
                assert(value_wf(l[1]));
                if hd.len() == 2 && hd[0] is Node && hd[0]->Node_0.kind == AstNodeKind::Identifier
                    && hd[1] is List {
                    let optp = hd[1]->List_0;
                    assert(value_wf(hd[1]));
                    if optp.len() == 0 {
                        let node = ast_list(
                            AstNodeKind::FunctionDefinition,
                            hd[0]->Node_0.value,
                            seq![l[1]->Node_0],
                        );
                        assert(node.subnodes[0] == l[1]->Node_0);
                        assert(wf_ast(node));
                    } else if optp[0] is List && all_nodes(optp[0]->List_0) && all_identifiers(
                        optp[0]->List_0,
                    ) {
                        assert(value_wf(optp[0]));
                        lemma_nodes_of_wf(optp[0]->List_0);
                        let params = nodes_of(optp[0]->List_0);
                        let node = ast_list(
                            AstNodeKind::FunctionDefinition,
                            hd[0]->Node_0.value,
                            seq![l[1]->Node_0] + params,
                        );
                        assert(node.subnodes[0] == l[1]->Node_0);
                        assert(wf_arity(node)) by {
                            assert forall|i: int| 1 <= i < node.subnodes.len() implies (
                            #[trigger] node.subnodes[i]).kind == AstNodeKind::Identifier by {
                                assert(node.subnodes[i] == params[i - 1]);
                                assert(params[i - 1] == optp[0]->List_0[i - 1]->Node_0);
                            }
                        }
                        assert forall|i: int| 0 <= i < node.subnodes.len() implies wf_ast(
                            #[trigger] node.subnodes[i],
                        ) by {
                            if i >= 1 {
                                assert(node.subnodes[i] == params[i - 1]);
                            }
                        }
                        assert(wf_ast(node));
                    }
                }
            }
        },
        TransformKind::ProgramNode => {
            if v is List && all_nodes(v->List_0) {
                let l = v->List_0;
                lemma_nodes_of_wf(l);
                assert(wf_ast(ast_list(AstNodeKind::Program, Seq::empty(), nodes_of(l))));
            }
        },
    }
}

fn binary_kind_exec(k: AstNodeKind) -> (r: bool)
    ensures
        r == is_binary_kind(k),
{
    match k {
        AstNodeKind::Equal => true,
        AstNodeKind::NotEqual => true,
        AstNodeKind::Add => true,
        AstNodeKind::Subtract => true,
        AstNodeKind::Multiply => true,
        AstNodeKind::Divide => true,
        _ => false,
    }
}

/// Splits a list value of exactly two elements into the pair.
fn take2(l: Vec<ParseValue>) -> (r: Option<(ParseValue, ParseValue)>)
    ensures
        (r is Some <==> l@.len() == 2),
        r matches Some(p) ==> value_view_seq(l@) =~= seq![p.0@, p.1@],
{
    proof {
        lemma_value_view_seq(l@);
    }
    if l.len() == 2 {
        let mut rest = l;
        let b = rest.pop().unwrap();
        let a = rest.pop().unwrap();
        proof {
            assert(value_view_seq(l@) =~= seq![value_view(a), value_view(b)]);
        }
        Some((a, b))
    } else {
        None
    }
}

/// The tree inside a `Node` value.
fn node_only(v: ParseValue) -> (r: Option<AstNode>)
    ensures
        (r is Some <==> v@ is Node),
        r matches Some(n) ==> v@ == ValueV::Node(n@),
{
    match v {
        ParseValue::Node(n) => Some(n),
        ParseValue::Text(_) => None,
        ParseValue::List(_) => None,
    }
}

/// The elements inside a `List` value.
fn list_only(v: ParseValue) -> (r: Option<Vec<ParseValue>>)
    ensures
        (r is Some <==> v@ is List),
        r matches Some(l) ==> v@ == ValueV::List(value_view_seq(l@)),
{
    match v {
        ParseValue::List(l) => Some(l),
        ParseValue::Text(_) => None,
        ParseValue::Node(_) => None,
    }
}

/// Rebuilds an operator node around the running result and the next term.
fn op_apply(op: AstNode, left: AstNode, right: AstNode) -> (r: AstNode)
    ensures
        r@ == ast2(op@.kind, op@.value, left@, right@),
{
    let AstNode { kind, value, subnodes: _ } = op;
    let mut subnodes: Vec<AstNode> = Vec::new();
    subnodes.push(left);
    subnodes.push(right);
    proof {
        lemma_ast_view_seq(subnodes@);
        assert(ast_view_seq(subnodes@) =~= seq![ast_view(left), ast_view(right)]);
    }
    AstNode { kind, value, subnodes }
}

/// The left fold of `InfixFold`, running down the operator-term pairs.
fn fold_exec(first: AstNode, ps: Vec<ParseValue>) -> (r: Option<AstNode>)
    ensures
        (r is Some <==> fold_ops(first@, value_view_seq(ps@)) is Some),
        r matches Some(n) ==> fold_ops(first@, value_view_seq(ps@)) == Some(n@),
{
    let ghost target = fold_ops(first@, value_view_seq(ps@));
    let mut cur = first;
    let mut rest = ps;
    while rest.len() > 0
        invariant
            target == fold_ops(first@, value_view_seq(ps@)),
            fold_ops(cur@, value_view_seq(rest@)) == target,
        decreases rest.len(),
    {
        let ghost pre = rest@;
        let ghost cur0 = cur@;
        let p = rest.remove(0);
        proof {
            lemma_value_view_seq(pre);
            assert(p == pre[0]);
            assert(rest@ =~= pre.drop_first());
            assert(value_view_seq(pre)[0] == value_view(p));
            assert(value_view_seq(pre).drop_first() =~= value_view_seq(pre.drop_first()));
            assert(value_view_seq(pre).len() == pre.len());
        }
        match p {
            ParseValue::List(pv) => {
                proof {
                    lemma_value_view_seq(pv@);
                }
                match take2(pv) {
                    Some((opv, termv)) => {
                        let ghost opvv = opv@;
                        let ghost termvv = termv@;
                        let op = match node_only(opv) {
                            Some(n) => n,
                            None => {
                                return None;
                            },
                        };
                        let term = match node_only(termv) {
                            Some(n) => n,
                            None => {
                                return None;
                            },
                        };
                        if binary_kind_exec(op.kind) {
                            let ghost opview = op@;
                            proof {
                                assert(opview.kind == op.kind);
                            }
                            cur = op_apply(op, cur, term);
                            proof {
                                assert(cur@ == ast2(opview.kind, opview.value, cur0, term@));
                                assert(fold_ops(cur0, value_view_seq(pre)) == fold_ops(
                                    cur@,
                                    value_view_seq(rest@),
                                ));
                            }
                        } else {
                            proof {
                                assert(fold_ops(cur0, value_view_seq(pre)) is None);
                            }
                            return None;
                        }
                    },
                    None => {
                        proof {
                            assert(fold_ops(cur0, value_view_seq(pre)) is None);
                        }
                        return None;
                    },
                }
            },
            ParseValue::Text(_) => {
                return None;
            },
            ParseValue::Node(_) => {
                return None;
            },
        }
    }
    proof {
        assert(rest@.len() == 0);
        assert(value_view_seq(rest@) =~= Seq::<ValueV>::empty());
        assert(fold_ops(cur@, value_view_seq(rest@)) == Some(cur@));
    }
    Some(cur)
}

/// Whether every node in the list is an `Identifier`.
fn all_identifiers_exec(ns: &Vec<AstNode>) -> (r: bool)
    ensures
        r == (forall|i: int|
            0 <= i < ns@.len() ==> ast_view(#[trigger] ns@[i]).kind == AstNodeKind::Identifier),
{
    let mut i: usize = 0;
    while i < ns.len()
        invariant
            0 <= i <= ns@.len(),
            forall|k: int|
                0 <= k < i ==> ast_view(#[trigger] ns@[k]).kind == AstNodeKind::Identifier,
        decreases ns@.len() - i,
    {
        if !matches!(ns[i].kind, AstNodeKind::Identifier) {
            return false;
        }
        i = i + 1;
    }
    true
}

/// Applies one conversion to a match result; the executable counterpart of
/// `spec_apply`.
pub fn apply_transform(t: TransformKind, v: ParseValue) -> (r: Option<ParseValue>)
    ensures
        (r is Some <==> spec_apply(t, v@) is Some),
        r matches Some(v2) ==> spec_apply(t, v@) == Some(v2@),
{
    match t {
        TransformKind::IntegerLiteral => apply_integer_literal(v),
        TransformKind::IdentifierName => apply_identifier_name(v),
        TransformKind::Operator(k) => apply_operator(k, v),
        TransformKind::UnaryNot => apply_unary_not(v),
        TransformKind::InfixFold => apply_infix_fold(v),
        TransformKind::ListFlatten => apply_list_flatten(v),
        TransformKind::CallNode => apply_call_node(v),
        TransformKind::ReturnNode => apply_return_node(v),
        TransformKind::IfNode => apply_if_node(v),
        TransformKind::WhileNode => apply_while_node(v),
        TransformKind::VarNode => apply_var_node(v),
        TransformKind::AssignNode => apply_assign_node(v),
        TransformKind::BlockNode => apply_block_node(v),
        TransformKind::FuncNode => apply_func_node(v),
        TransformKind::ProgramNode => apply_program_node(v),
    }
}

fn apply_integer_literal(v: ParseValue) -> (r: Option<ParseValue>)
    ensures
        (r is Some <==> spec_apply(TransformKind::IntegerLiteral, v@) is Some),
        r matches Some(v2) ==> spec_apply(TransformKind::IntegerLiteral, v@) == Some(v2@),
{
    match v {
            ParseValue::Text(s) => {
                if s.as_str().unicode_len() == 0 {
                    return None;
                }
                match digits_value_within(s.as_str(), INTEGER_LIMIT) {
                    None => None,
                    Some(None) => None,
                    Some(Some(val)) => {
                        let text = dec_string(val);
                        let node = AstNode {
                            kind: AstNodeKind::Integer,
                            value: text,
                            subnodes: Vec::new(),
                        };
                        proof {
                            assert(ast_view_seq(Seq::<AstNode>::empty()) =~= Seq::<AstV>::empty());
                            assert(node@ == ast0(AstNodeKind::Integer, dec_seq(digits_val(s@))));
                        }
                        Some(ParseValue::Node(node))
                    },
                }
            },
            _ => None,
        }
}

fn apply_identifier_name(v: ParseValue) -> (r: Option<ParseValue>)
    ensures
        (r is Some <==> spec_apply(TransformKind::IdentifierName, v@) is Some),
        r matches Some(v2) ==> spec_apply(TransformKind::IdentifierName, v@) == Some(v2@),
{
    match v {
            ParseValue::Text(s) => Some(ParseValue::Node(AstNode::identifier(s))),
            _ => None,
        }
}

fn apply_operator(k: AstNodeKind, v: ParseValue) -> (r: Option<ParseValue>)
    ensures
        (r is Some <==> spec_apply(TransformKind::Operator(k), v@) is Some),
        r matches Some(v2) ==> spec_apply(TransformKind::Operator(k), v@) == Some(v2@),
{
    match v {
            ParseValue::Text(_) => {
                if binary_kind_exec(k) {
                    Some(ParseValue::Node(AstNode::binary(k, AstNode::null(), AstNode::null())))
                } else {
                    None
                }
            },
            _ => None,
        }
}

fn apply_unary_not(v: ParseValue) -> (r: Option<ParseValue>)
    ensures
        (r is Some <==> spec_apply(TransformKind::UnaryNot, v@) is Some),
        r matches Some(v2) ==> spec_apply(TransformKind::UnaryNot, v@) == Some(v2@),
{
    match v {
            ParseValue::List(l) => match take2(l) {
                Some((a, b)) => {
                    let opt = match list_only(a) {
                        Some(x) => x,
                        None => {
                            return None;
                        },
                    };
                    let n = match node_only(b) {
                        Some(x) => x,
                        None => {
                            return None;
                        },
                    };
                    proof {
                        lemma_value_view_seq(opt@);
                    }
                    if opt.len() == 0 {
                        Some(ParseValue::Node(n))
                    } else {
                        Some(ParseValue::Node(AstNode::not(n)))
                    }
                },
                None => None,
            },
            _ => None,
        }
}

fn apply_infix_fold(v: ParseValue) -> (r: Option<ParseValue>)
    ensures
        (r is Some <==> spec_apply(TransformKind::InfixFold, v@) is Some),
        r matches Some(v2) ==> spec_apply(TransformKind::InfixFold, v@) == Some(v2@),
{
    match v {
            ParseValue::List(l) => match take2(l) {
                Some((a, b)) => {
                    let first = match node_only(a) {
                        Some(x) => x,
                        None => {
                            return None;
                        },
                    };
                    let ps = match list_only(b) {
                        Some(x) => x,
                        None => {
                            return None;
                        },
                    };
                    match fold_exec(first, ps) {
                        Some(n) => Some(ParseValue::Node(n)),
                        None => None,
                    }
                },
                None => None,
            },
            _ => None,
        }
}

fn apply_list_flatten(v: ParseValue) -> (r: Option<ParseValue>)
    ensures
        (r is Some <==> spec_apply(TransformKind::ListFlatten, v@) is Some),
        r matches Some(v2) ==> spec_apply(TransformKind::ListFlatten, v@) == Some(v2@),
{
    match v {
            ParseValue::List(l) => match take2(l) {
                Some((a, b)) => {
                    let mut ov = match list_only(b) {
                        Some(x) => x,
                        None => {
                            return None;
                        },
                    };
                    let ghost ov0 = ov@;
                    let ghost av = a@;
                    let mut out: Vec<ParseValue> = Vec::new();
                    out.push(a);
                    out.append(&mut ov);
                    proof {
                        assert(out@ =~= seq![a] + ov0);
                        crate::values::lemma_value_view_seq_concat(seq![a], ov0);
                        lemma_value_view_seq(seq![a]);
                        assert(value_view_seq(seq![a]) =~= seq![av]);
                        assert(value_view_seq(out@) =~= seq![av] + value_view_seq(ov0));
                    }
                    Some(ParseValue::List(out))
                },
                None => None,
            },
            _ => None,
        }
}

fn apply_call_node(v: ParseValue) -> (r: Option<ParseValue>)
    ensures
        (r is Some <==> spec_apply(TransformKind::CallNode, v@) is Some),
        r matches Some(v2) ==> spec_apply(TransformKind::CallNode, v@) == Some(v2@),
{
    match v {
            ParseValue::List(l) => match take2(l) {
                Some((a, b)) => {
                    let id = match node_only(a) {
                        Some(x) => x,
                        None => {
                            return None;
                        },
                    };
                    if !matches!(id.kind, AstNodeKind::Identifier) {
                        return None;
                    }
                    let mut opt = match list_only(b) {
                        Some(x) => x,
                        None => {
                            return None;
                        },
                    };
                    proof {
                        lemma_value_view_seq(opt@);
                    }
                    if opt.len() == 0 {
                        proof {
                            crate::ast::lemma_ast_view_seq(Seq::<AstNode>::empty());
                            assert(ast_view_seq(Seq::<AstNode>::empty()) =~= Seq::<AstV>::empty());
                        }
                        Some(ParseValue::Node(AstNode::function_call(id.value, Vec::new())))
                    } else {
                        let ghost opt0 = opt@;
                        let a0 = opt.remove(0);
                        proof {
                            lemma_value_view_seq(opt0);
                            assert(a0 == opt0[0]);
                            assert(value_view_seq(opt0)[0] == value_view(a0));
                        }
                        let args = match list_only(a0) {
                            Some(x) => x,
                            None => {
                                return None;
                            },
                        };
                        match nodes_vec(args) {
                            Some(ns) => Some(
                                ParseValue::Node(AstNode::function_call(id.value, ns)),
                            ),
                            None => None,
                        }
                    }
                },
                None => None,
            },
            _ => None,
        }
}

fn apply_return_node(v: ParseValue) -> (r: Option<ParseValue>)
    ensures
        (r is Some <==> spec_apply(TransformKind::ReturnNode, v@) is Some),
        r matches Some(v2) ==> spec_apply(TransformKind::ReturnNode, v@) == Some(v2@),
{
    match v {
            ParseValue::Node(n) => Some(ParseValue::Node(AstNode::function_return(n))),
            _ => None,
        }
}

fn apply_if_node(v: ParseValue) -> (r: Option<ParseValue>)
    ensures
        (r is Some <==> spec_apply(TransformKind::IfNode, v@) is Some),
        r matches Some(v2) ==> spec_apply(TransformKind::IfNode, v@) == Some(v2@),
{
    match v {
            ParseValue::List(l) => match take2(l) {
                Some((a, b)) => {
                    let ct = match list_only(a) {
                        Some(x) => x,
                        None => {
                            return None;
                        },
                    };
                    let mut opt = match list_only(b) {
                        Some(x) => x,
                        None => {
                            return None;
                        },
                    };
                    proof {
                        lemma_value_view_seq(ct@);
                        lemma_value_view_seq(opt@);
                    }
                    match take2(ct) {
                        Some((cv, tv)) => {
                            let c = match node_only(cv) {
                                Some(x) => x,
                                None => {
                                    return None;
                                },
                            };
                            let q = match node_only(tv) {
                                Some(x) => x,
                                None => {
                                    return None;
                                },
                            };
                            if opt.len() == 0 {
                                Some(ParseValue::Node(AstNode::if_statement(c, q, None)))
                            } else {
                                let ghost opt0 = opt@;
                                let a0 = opt.remove(0);
                                proof {
                                    lemma_value_view_seq(opt0);
                                    assert(a0 == opt0[0]);
                                    assert(value_view_seq(opt0)[0] == value_view(a0));
                                }
                                let e = match node_only(a0) {
                                    Some(x) => x,
                                    None => {
                                        return None;
                                    },
                                };
                                Some(ParseValue::Node(AstNode::if_statement(c, q, Some(e))))
                            }
                        },
                        None => None,
                    }
                },
                None => None,
            },
            _ => None,
        }
}

fn apply_while_node(v: ParseValue) -> (r: Option<ParseValue>)
    ensures
        (r is Some <==> spec_apply(TransformKind::WhileNode, v@) is Some),
        r matches Some(v2) ==> spec_apply(TransformKind::WhileNode, v@) == Some(v2@),
{
    match v {
            ParseValue::List(l) => match take2(l) {
                Some((a, b)) => {
                    let c = match node_only(a) {
                        Some(x) => x,
                        None => {
                            return None;
                        },
                    };
                    let bd = match node_only(b) {
                        Some(x) => x,
                        None => {
                            return None;
                        },
                    };
                    Some(ParseValue::Node(AstNode::while_loop(c, bd)))
                },
                None => None,
            },
            _ => None,
        }
}

fn apply_var_node(v: ParseValue) -> (r: Option<ParseValue>)
    ensures
        (r is Some <==> spec_apply(TransformKind::VarNode, v@) is Some),
        r matches Some(v2) ==> spec_apply(TransformKind::VarNode, v@) == Some(v2@),
{
    match v {
            ParseValue::List(l) => match take2(l) {
                Some((a, b)) => {
                    let id = match node_only(a) {
                        Some(x) => x,
                        None => {
                            return None;
                        },
                    };
                    let e = match node_only(b) {
                        Some(x) => x,
                        None => {
                            return None;
                        },
                    };
                    if matches!(id.kind, AstNodeKind::Identifier) {
                        Some(ParseValue::Node(AstNode::variable_definition(id.value, e)))
                    } else {
                        None
                    }
                },
                None => None,
            },
            _ => None,
        }
}

fn apply_assign_node(v: ParseValue) -> (r: Option<ParseValue>)
    ensures
        (r is Some <==> spec_apply(TransformKind::AssignNode, v@) is Some),
        r matches Some(v2) ==> spec_apply(TransformKind::AssignNode, v@) == Some(v2@),
{
    match v {
            ParseValue::List(l) => match take2(l) {
                Some((a, b)) => {
                    let id = match node_only(a) {
                        Some(x) => x,
                        None => {
                            return None;
                        },
                    };
                    let e = match node_only(b) {
                        Some(x) => x,
                        None => {
                            return None;
                        },
                    };
                    if matches!(id.kind, AstNodeKind::Identifier) {
                        Some(ParseValue::Node(AstNode::assign(id.value, e)))
                    } else {
                        None
                    }
                },
                None => None,
            },
            _ => None,
        }
}

fn apply_block_node(v: ParseValue) -> (r: Option<ParseValue>)
    ensures
        (r is Some <==> spec_apply(TransformKind::BlockNode, v@) is Some),
        r matches Some(v2) ==> spec_apply(TransformKind::BlockNode, v@) == Some(v2@),
{
    match v {
            ParseValue::List(l) => match nodes_vec(l) {
                Some(ns) => Some(ParseValue::Node(AstNode::block(ns))),
                None => None,
            },
            _ => None,
        }
}

fn apply_func_node(v: ParseValue) -> (r: Option<ParseValue>)
    ensures
        (r is Some <==> spec_apply(TransformKind::FuncNode, v@) is Some),
        r matches Some(v2) ==> spec_apply(TransformKind::FuncNode, v@) == Some(v2@),
{
    match v {
            ParseValue::List(l) => match take2(l) {
                Some((a, b)) => {
                    let hd = match list_only(a) {
                        Some(x) => x,
                        None => {
                            return None;
                        },
                    };
                    let bd = match node_only(b) {
                        Some(x) => x,
                        None => {
                            return None;
                        },
                    };
                    if !matches!(bd.kind, AstNodeKind::Block) {
                        return None;
                    }
                    match take2(hd) {
                        Some((idv, optpv)) => {
                            let id = match node_only(idv) {
                                Some(x) => x,
                                None => {
                                    return None;
                                },
                            };
                            if !matches!(id.kind, AstNodeKind::Identifier) {
                                return None;
                            }
                            let mut optp = match list_only(optpv) {
                                Some(x) => x,
                                None => {
                                    return None;
                                },
                            };
                            proof {
                                lemma_value_view_seq(optp@);
                            }
                            if optp.len() == 0 {
                                proof {
                                    crate::ast::lemma_ast_view_seq(Seq::<AstNode>::empty());
                                    assert(ast_view_seq(Seq::<AstNode>::empty())
                                        =~= Seq::<AstV>::empty());
                                    assert(seq![bd@] + Seq::<AstV>::empty() =~= seq![bd@]);
                                }
                                Some(
                                    ParseValue::Node(
                                        AstNode::function_definition(id.value, Vec::new(), bd),
                                    ),
                                )
                            } else {
                                let ghost optp0 = optp@;
                                let a0 = optp.remove(0);
                                proof {
                                    lemma_value_view_seq(optp0);
                                    assert(a0 == optp0[0]);
                                    assert(value_view_seq(optp0)[0] == value_view(a0));
                                }
                                let ps = match list_only(a0) {
                                    Some(x) => x,
                                    None => {
                                        return None;
                                    },
                                };
                                let ghost psv = value_view_seq(ps@);
                                match nodes_vec(ps) {
                                    Some(ns) => {
                                        if all_identifiers_exec(&ns) {
                                            proof {
                                                crate::ast::lemma_ast_view_seq(ns@);
                                                crate::values::lemma_value_view_seq(ps@);
                                                assert forall|i: int| 0 <= i < psv.len() implies (
                                                #[trigger] psv[i])->Node_0.kind
                                                    == AstNodeKind::Identifier by {
                                                    assert(nodes_of(psv)[i] == psv[i]->Node_0);
                                                    assert(ast_view_seq(ns@)[i] == ast_view(
                                                        ns@[i],
                                                    ));
                                                }
                                                assert(all_identifiers(psv));
                                            }
                                            Some(
                                                ParseValue::Node(
                                                    AstNode::function_definition(
                                                        id.value,
                                                        ns,
                                                        bd,
                                                    ),
                                                ),
                                            )
                                        } else {
                                            proof {
                                                crate::ast::lemma_ast_view_seq(ns@);
                                                assert(!all_identifiers(psv)) by {
                                                    let i = choose|i: int|
                                                        0 <= i < ns@.len() && ast_view(
                                                            #[trigger] ns@[i],
                                                        ).kind != AstNodeKind::Identifier;
                                                    assert(nodes_of(psv)[i] == psv[i]->Node_0);
                                                    assert(ast_view_seq(ns@)[i] == ast_view(
                                                        ns@[i],
                                                    ));
                                                }
                                            }
                                            None
                                        }
                                    },
                                    None => None,
                                }
                            }
                        },
                        None => None,
                    }
                },
                None => None,
            },
            _ => None,
        }
}

fn apply_program_node(v: ParseValue) -> (r: Option<ParseValue>)
    ensures
        (r is Some <==> spec_apply(TransformKind::ProgramNode, v@) is Some),
        r matches Some(v2) ==> spec_apply(TransformKind::ProgramNode, v@) == Some(v2@),
{
    match v {
            ParseValue::List(l) => match nodes_vec(l) {
                Some(ns) => Some(ParseValue::Node(AstNode::program(ns))),
                None => None,
            },
            _ => None,
        }
}

} // verus!
