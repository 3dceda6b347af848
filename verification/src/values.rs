use vstd::prelude::*;
use crate::ast::{AstNode, AstV, ast_view, ast_view_seq, wf_ast};

verus! {

broadcast use vstd::std_specs::vec::group_vec_axioms, vstd::seq::axiom_seq_index_decreases;

/// What a successful match reports: a raw text span, an ordered list of
/// results, or a finished syntax tree fragment.
#[derive(Debug)]
pub enum ParseValue {
    Text(String),
    List(Vec<ParseValue>),
    Node(AstNode),
}

/// The mathematical model of a match result.
pub enum ValueV {
    Text(Seq<char>),
    List(Seq<ValueV>),
    Node(AstV),
}

pub open spec fn value_view(v: ParseValue) -> ValueV
    decreases v,
{
    match v {
        ParseValue::Text(s) => ValueV::Text(s@),
        ParseValue::List(l) => ValueV::List(value_view_seq(l@)),
        ParseValue::Node(n) => ValueV::Node(ast_view(n)),
    }
}

pub open spec fn value_view_seq(s: Seq<ParseValue>) -> Seq<ValueV>
    decreases s,
{
    if s.len() == 0 {
        Seq::empty()
    } else {
        seq![value_view(s[0])] + value_view_seq(s.drop_first())
    }
}

impl View for ParseValue {
    type V = ValueV;

    open spec fn view(&self) -> ValueV {
        value_view(*self)
    }
}

pub broadcast proof fn lemma_value_view_seq(s: Seq<ParseValue>)
    ensures
        #[trigger] value_view_seq(s).len() == s.len(),
        forall|i: int| 0 <= i < s.len() ==> value_view_seq(s)[i] == value_view(s[i]),
    decreases s,
{
    if s.len() > 0 {
        lemma_value_view_seq(s.drop_first());
    }
}

/// Every syntax tree fragment inside the value satisfies the grammar's shape
/// invariant.
pub open spec fn value_wf(v: ValueV) -> bool
    decreases v,
{
    match v {
        ValueV::Text(_) => true,
        ValueV::List(l) => forall|i: int| 0 <= i < l.len() ==> value_wf(#[trigger] l[i]),
        ValueV::Node(n) => wf_ast(n),
    }
}

pub open spec fn all_nodes(s: Seq<ValueV>) -> bool {
    forall|i: int| 0 <= i < s.len() ==> (#[trigger] s[i]) is Node
}

/// The syntax trees held by a sequence of `Node` values.
pub open spec fn nodes_of(s: Seq<ValueV>) -> Seq<AstV> {
    Seq::new(s.len(), |i: int| s[i]->Node_0)
}

pub proof fn lemma_value_view_seq_concat(a: Seq<ParseValue>, b: Seq<ParseValue>)
    ensures
        value_view_seq(a + b) == value_view_seq(a) + value_view_seq(b),
    decreases a,
{
    if a.len() == 0 {
        assert(a + b =~= b);
        assert(value_view_seq(a) + value_view_seq(b) =~= value_view_seq(b));
    } else {
        assert((a + b).drop_first() =~= a.drop_first() + b);
        lemma_value_view_seq_concat(a.drop_first(), b);
        assert(value_view_seq(a + b) =~= value_view_seq(a) + value_view_seq(b));
    }
}

/// Unwraps a list of values that must all be `Node`s into their trees.
pub fn nodes_vec(l: Vec<ParseValue>) -> (r: Option<Vec<AstNode>>)
    ensures
        (r is Some <==> all_nodes(value_view_seq(l@))),
        r matches Some(out) ==> ast_view_seq(out@) =~= nodes_of(value_view_seq(l@)),
{
    let ghost orig = l@;
    let mut rest = l;
    let mut out: Vec<AstNode> = Vec::new();
    proof {
        lemma_value_view_seq(orig);
    }
    while rest.len() > 0
        invariant
            orig == l@,
            out.len() <= orig.len(),
            rest@ =~= orig.skip(out.len() as int),
            forall|k: int|
                0 <= k < out.len() ==> value_view(orig[k]) is Node && value_view(orig[k])->Node_0
                    == ast_view(out[k]),
        decreases rest.len(),
    {
        let ghost i = out.len() as int;
        let first = rest.remove(0);
        proof {
            assert(first == orig[i]);
            assert(rest@ =~= orig.skip(i + 1));
        }
        match first {
            ParseValue::Node(n) => {
                out.push(n);
            },
            ParseValue::Text(t) => {
                proof {
                    lemma_value_view_seq(orig);
                    assert(value_view(orig[i]) == ValueV::Text(t@));
                    assert(value_view_seq(orig)[i] == value_view(orig[i]));
                    assert(!all_nodes(value_view_seq(orig)));
                }
                return None;
            },
            ParseValue::List(t) => {
                proof {
                    lemma_value_view_seq(orig);
                    assert(value_view(orig[i]) == ValueV::List(value_view_seq(t@)));
                    assert(value_view_seq(orig)[i] == value_view(orig[i]));
                    assert(!all_nodes(value_view_seq(orig)));
                }
                return None;
            },
        }
    }
    proof {
        lemma_value_view_seq(orig);
        crate::ast::lemma_ast_view_seq(out@);
        assert(orig.skip(out.len() as int).len() == 0);
        assert(out.len() == orig.len());
        assert forall|i: int| 0 <= i < orig.len() implies (#[trigger] value_view_seq(orig)[i])
            is Node && ast_view_seq(out@)[i] == nodes_of(value_view_seq(orig))[i] by {
            assert(value_view(orig[i]) is Node && value_view(orig[i])->Node_0 == ast_view(
                out@[i],
            ));
            assert(value_view_seq(orig)[i] == value_view(orig[i]));
            assert(ast_view_seq(out@)[i] == ast_view(out@[i]));
        }
        assert(all_nodes(value_view_seq(orig)));
        assert(ast_view_seq(out@) =~= nodes_of(value_view_seq(orig)));
    }
    Some(out)
}

} // verus!
