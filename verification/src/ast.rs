use vstd::prelude::*;

verus! {

broadcast use vstd::std_specs::vec::group_vec_axioms, vstd::seq::axiom_seq_index_decreases;

/// The kind tag of a syntax tree node.
#[derive(Clone, Copy, PartialEq, Eq, Structural, Debug)]
pub enum AstNodeKind {
    Integer,
    Identifier,
    Not,
    NotEqual,
    Equal,
    Add,
    Subtract,
    Multiply,
    Divide,
    Block,
    IfStatement,
    WhileLoop,
    Program,
    FunctionCall,
    FunctionReturn,
    FunctionDefinition,
    VariableDefinition,
    VariableDeclaration,
    Assign,
    Null,
}

/// A syntax tree node: a kind tag, a literal value (the empty string where a
/// kind carries none), and an ordered list of child nodes.
///
/// Binary operator nodes have exactly two children; `IfStatement` has two or
/// three (condition, consequence, optional alternative); `WhileLoop` has two
/// (condition, body); `FunctionDefinition` stores its body as child 0 and its
/// parameters, each an `Identifier`, as children 1..; a `Null` node marks an
/// absent optional child, such as a missing `else`.
#[derive(Debug, PartialEq)]
pub struct AstNode {
    pub kind: AstNodeKind,
    pub value: String,
    pub subnodes: Vec<AstNode>,
}

/// The mathematical model of a syntax tree node.
pub struct AstV {
    pub kind: AstNodeKind,
    pub value: Seq<char>,
    pub subnodes: Seq<AstV>,
}

pub open spec fn ast_view(n: AstNode) -> AstV
    decreases n,
{
    AstV { kind: n.kind, value: n.value@, subnodes: ast_view_seq(n.subnodes@) }
}

pub open spec fn ast_view_seq(s: Seq<AstNode>) -> Seq<AstV>
    decreases s,
{
    if s.len() == 0 {
        Seq::empty()
    } else {
        seq![ast_view(s[0])] + ast_view_seq(s.drop_first())
    }
}

impl View for AstNode {
    type V = AstV;

    open spec fn view(&self) -> AstV {
        ast_view(*self)
    }
}

pub broadcast proof fn lemma_ast_view_seq(s: Seq<AstNode>)
    ensures
        #[trigger] ast_view_seq(s).len() == s.len(),
        forall|i: int| 0 <= i < s.len() ==> ast_view_seq(s)[i] == ast_view(s[i]),
    decreases s,
{
    if s.len() > 0 {
        lemma_ast_view_seq(s.drop_first());
    }
}

/// The shape invariant that the grammar establishes for every node it builds:
/// each kind has the child arity described on `AstNode`.
pub open spec fn wf_ast(n: AstV) -> bool
    decreases n,
{
    wf_arity(n) && (forall|i: int|
        0 <= i < n.subnodes.len() ==> wf_ast(#[trigger] n.subnodes[i]))
}

pub open spec fn wf_arity(n: AstV) -> bool {
    match n.kind {
        AstNodeKind::Integer => n.subnodes.len() == 0,
        AstNodeKind::Identifier => n.subnodes.len() == 0,
        AstNodeKind::Not => n.subnodes.len() == 1,
        AstNodeKind::NotEqual => n.subnodes.len() == 2,
        AstNodeKind::Equal => n.subnodes.len() == 2,
        AstNodeKind::Add => n.subnodes.len() == 2,
        AstNodeKind::Subtract => n.subnodes.len() == 2,
        AstNodeKind::Multiply => n.subnodes.len() == 2,
        AstNodeKind::Divide => n.subnodes.len() == 2,
        AstNodeKind::Block => true,
        AstNodeKind::IfStatement => n.subnodes.len() == 2 || n.subnodes.len() == 3,
        AstNodeKind::WhileLoop => n.subnodes.len() == 2,
        AstNodeKind::Program => true,
        AstNodeKind::FunctionCall => true,
        AstNodeKind::FunctionReturn => n.subnodes.len() == 1,
        AstNodeKind::FunctionDefinition => n.subnodes.len() >= 1
            && n.subnodes[0].kind == AstNodeKind::Block && (forall|i: int|
            1 <= i < n.subnodes.len() ==> (#[trigger] n.subnodes[i]).kind
                == AstNodeKind::Identifier),
        AstNodeKind::VariableDefinition => n.subnodes.len() == 1,
        AstNodeKind::VariableDeclaration => n.subnodes.len() == 0,
        AstNodeKind::Assign => n.subnodes.len() == 1,
        AstNodeKind::Null => n.subnodes.len() == 0,
    }
}

/// How many `WhileLoop` nodes a tree holds; each costs one fresh symbol
/// during emission.
pub open spec fn while_count(n: AstV) -> nat
    decreases n,
{
    (if n.kind == AstNodeKind::WhileLoop {
        1nat
    } else {
        0nat
    }) + while_count_seq(n.subnodes)
}

pub open spec fn while_count_seq(s: Seq<AstV>) -> nat
    decreases s,
{
    if s.len() == 0 {
        0nat
    } else {
        while_count(s[0]) + while_count_seq(s.drop_first())
    }
}

pub proof fn lemma_ast_view_seq_concat(a: Seq<AstNode>, b: Seq<AstNode>)
    ensures
        ast_view_seq(a + b) == ast_view_seq(a) + ast_view_seq(b),
    decreases a,
{
    if a.len() == 0 {
        assert(a + b =~= b);
        assert(ast_view_seq(a) + ast_view_seq(b) =~= ast_view_seq(b));
    } else {
        assert((a + b).drop_first() =~= a.drop_first() + b);
        lemma_ast_view_seq_concat(a.drop_first(), b);
        assert(ast_view_seq(a + b) =~= ast_view_seq(a) + ast_view_seq(b));
    }
}

/// A node with the given children.
pub open spec fn ast_list(kind: AstNodeKind, value: Seq<char>, subnodes: Seq<AstV>) -> AstV {
    AstV { kind, value, subnodes }
}

/// A node with no children.
pub open spec fn ast0(kind: AstNodeKind, value: Seq<char>) -> AstV {
    AstV { kind, value, subnodes: Seq::empty() }
}

/// A node with one child.
pub open spec fn ast1(kind: AstNodeKind, value: Seq<char>, a: AstV) -> AstV {
    AstV { kind, value, subnodes: seq![a] }
}

/// A node with two children.
pub open spec fn ast2(kind: AstNodeKind, value: Seq<char>, a: AstV, b: AstV) -> AstV {
    AstV { kind, value, subnodes: seq![a, b] }
}

/// The view of an optional node, a `Null` node when absent.
pub open spec fn opt_or_null(o: Option<AstNode>) -> AstV {
    match o {
        Option::Some(a) => ast_view(a),
        Option::None => null_ast(),
    }
}

pub open spec fn null_ast() -> AstV {
    ast0(AstNodeKind::Null, Seq::empty())
}

impl AstNode {
    /// An integer literal node; its value is the decimal text.
    pub fn integer(value: i32) -> (r: AstNode)
        ensures
            r@ == ast0(AstNodeKind::Integer, crate::numeral::int_dec(value as int)),
    {
        let text = if value < 0 {
            let magnitude = (-(value as i64)) as u64;
            let mut s = String::from_str("-");
            s.append(crate::numeral::dec_string(magnitude).as_str());
            proof {
                reveal_strlit("-");
                assert(s@ =~= crate::numeral::int_dec(value as int));
            }
            s
        } else {
            crate::numeral::dec_string(value as u64)
        };
        AstNode { kind: AstNodeKind::Integer, value: text, subnodes: Vec::new() }
    }

    pub fn identifier(value: String) -> (r: AstNode)
        ensures
            r@ == ast0(AstNodeKind::Identifier, value@),
    {
        AstNode { kind: AstNodeKind::Identifier, value, subnodes: Vec::new() }
    }

    pub fn not(operand: AstNode) -> (r: AstNode)
        ensures
            r@ == ast1(AstNodeKind::Not, Seq::empty(), operand@),
    {
        let mut subnodes: Vec<AstNode> = Vec::new();
        subnodes.push(operand);
        proof {
            lemma_ast_view_seq(subnodes@);
            assert(ast_view_seq(subnodes@) =~= seq![ast_view(operand)]);
        }
        AstNode { kind: AstNodeKind::Not, value: String::new(), subnodes }
    }

    pub fn equal(left: AstNode, right: AstNode) -> (r: AstNode)
        ensures
            r@ == ast2(AstNodeKind::Equal, Seq::empty(), left@, right@),
    {
        AstNode::binary(AstNodeKind::Equal, left, right)
    }

    pub fn not_equal(left: AstNode, right: AstNode) -> (r: AstNode)
        ensures
            r@ == ast2(AstNodeKind::NotEqual, Seq::empty(), left@, right@),
    {
        AstNode::binary(AstNodeKind::NotEqual, left, right)
    }

    pub fn add(left: AstNode, right: AstNode) -> (r: AstNode)
        ensures
            r@ == ast2(AstNodeKind::Add, Seq::empty(), left@, right@),
    {
        AstNode::binary(AstNodeKind::Add, left, right)
    }

    pub fn subtract(left: AstNode, right: AstNode) -> (r: AstNode)
        ensures
            r@ == ast2(AstNodeKind::Subtract, Seq::empty(), left@, right@),
    {
        AstNode::binary(AstNodeKind::Subtract, left, right)
    }

    pub fn multiply(left: AstNode, right: AstNode) -> (r: AstNode)
        ensures
            r@ == ast2(AstNodeKind::Multiply, Seq::empty(), left@, right@),
    {
        AstNode::binary(AstNodeKind::Multiply, left, right)
    }

    pub fn divide(left: AstNode, right: AstNode) -> (r: AstNode)
        ensures
            r@ == ast2(AstNodeKind::Divide, Seq::empty(), left@, right@),
    {
        AstNode::binary(AstNodeKind::Divide, left, right)
    }

    /// A binary operator node with the two operands as its children.
    pub fn binary(kind: AstNodeKind, left: AstNode, right: AstNode) -> (r: AstNode)
        ensures
            r@ == ast2(kind, Seq::empty(), left@, right@),
    {
        let mut subnodes: Vec<AstNode> = Vec::new();
        subnodes.push(left);
        subnodes.push(right);
        proof {
            lemma_ast_view_seq(subnodes@);
            assert(ast_view_seq(subnodes@) =~= seq![ast_view(left), ast_view(right)]);
        }
        AstNode { kind, value: String::new(), subnodes }
    }

    pub fn assign(identifier: String, value: AstNode) -> (r: AstNode)
        ensures
            r@ == ast1(AstNodeKind::Assign, identifier@, value@),
    {
        let mut subnodes: Vec<AstNode> = Vec::new();
        subnodes.push(value);
        proof {
            lemma_ast_view_seq(subnodes@);
            assert(ast_view_seq(subnodes@) =~= seq![ast_view(value)]);
        }
        AstNode { kind: AstNodeKind::Assign, value: identifier, subnodes }
    }

    pub fn block(statements: Vec<AstNode>) -> (r: AstNode)
        ensures
            r@ == ast_list(AstNodeKind::Block, Seq::empty(), ast_view_seq(statements@)),
    {
        AstNode { kind: AstNodeKind::Block, value: String::new(), subnodes: statements }
    }

    /// An `if`; the third child is a `Null` node when no `else` is given.
    pub fn if_statement(
        condition: AstNode,
        consequence: AstNode,
        alternative: Option<AstNode>,
    ) -> (r: AstNode)
        ensures
            r@ == ast_list(
                AstNodeKind::IfStatement,
                Seq::empty(),
                seq![condition@, consequence@, opt_or_null(alternative)],
            ),
    {
        let alt = match alternative {
            Option::Some(a) => a,
            Option::None => AstNode::null(),
        };
        let mut subnodes: Vec<AstNode> = Vec::new();
        subnodes.push(condition);
        subnodes.push(consequence);
        subnodes.push(alt);
        proof {
            lemma_ast_view_seq(subnodes@);
            assert(ast_view_seq(subnodes@) =~= seq![
                ast_view(condition),
                ast_view(consequence),
                ast_view(alt),
            ]);
        }
        AstNode { kind: AstNodeKind::IfStatement, value: String::new(), subnodes }
    }

    pub fn while_loop(condition: AstNode, body: AstNode) -> (r: AstNode)
        ensures
            r@ == ast2(AstNodeKind::WhileLoop, Seq::empty(), condition@, body@),
    {
        AstNode::binary(AstNodeKind::WhileLoop, condition, body)
    }

    pub fn function_call(identifier: String, arguments: Vec<AstNode>) -> (r: AstNode)
        ensures
            r@ == ast_list(AstNodeKind::FunctionCall, identifier@, ast_view_seq(arguments@)),
    {
        AstNode { kind: AstNodeKind::FunctionCall, value: identifier, subnodes: arguments }
    }

    pub fn function_return(value: AstNode) -> (r: AstNode)
        ensures
            r@ == ast1(AstNodeKind::FunctionReturn, Seq::empty(), value@),
    {
        let mut subnodes: Vec<AstNode> = Vec::new();
        subnodes.push(value);
        proof {
            lemma_ast_view_seq(subnodes@);
            assert(ast_view_seq(subnodes@) =~= seq![ast_view(value)]);
        }
        AstNode { kind: AstNodeKind::FunctionReturn, value: String::new(), subnodes }
    }

    /// A function definition: the body stands first, the parameters follow.
    pub fn function_definition(
        identifier: String,
        arguments: Vec<AstNode>,
        body: AstNode,
    ) -> (r: AstNode)
        ensures
            r@ == ast_list(
                AstNodeKind::FunctionDefinition,
                identifier@,
                seq![body@] + ast_view_seq(arguments@),
            ),
    {
        let mut subnodes: Vec<AstNode> = Vec::new();
        subnodes.push(body);
        let mut arguments = arguments;
        proof {
            lemma_ast_view_seq(subnodes@);
            assert(ast_view_seq(subnodes@) =~= seq![ast_view(body)]);
            lemma_ast_view_seq_concat(subnodes@, arguments@);
        }
        subnodes.append(&mut arguments);
        AstNode { kind: AstNodeKind::FunctionDefinition, value: identifier, subnodes }
    }

    pub fn variable_declaration(identifier: String) -> (r: AstNode)
        ensures
            r@ == ast0(AstNodeKind::VariableDeclaration, identifier@),
    {
        AstNode { kind: AstNodeKind::VariableDeclaration, value: identifier, subnodes: Vec::new() }
    }

    pub fn variable_definition(identifier: String, value: AstNode) -> (r: AstNode)
        ensures
            r@ == ast1(AstNodeKind::VariableDefinition, identifier@, value@),
    {
        let mut subnodes: Vec<AstNode> = Vec::new();
        subnodes.push(value);
        proof {
            lemma_ast_view_seq(subnodes@);
            assert(ast_view_seq(subnodes@) =~= seq![ast_view(value)]);
        }
        AstNode { kind: AstNodeKind::VariableDefinition, value: identifier, subnodes }
    }

    pub fn program(statements: Vec<AstNode>) -> (r: AstNode)
        ensures
            r@ == ast_list(AstNodeKind::Program, Seq::empty(), ast_view_seq(statements@)),
    {
        AstNode { kind: AstNodeKind::Program, value: String::new(), subnodes: statements }
    }

    pub fn null() -> (r: AstNode)
        ensures
            r@ == null_ast(),
    {
        AstNode { kind: AstNodeKind::Null, value: String::new(), subnodes: Vec::new() }
    }
}

} // verus!
