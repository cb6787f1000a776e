//! The syntax tree that the parser builds and the interpreter walks.
use vstd::prelude::*;

use crate::ops::Operation;

verus! {

/// A node of the syntax tree.
#[derive(Debug, PartialEq)]
#[allow(inconsistent_fields)]
pub enum ASTNode {
    Bool { value: bool },
    Numeric { value: i32 },
    Str { value: String },
    Identifier { name: String },
    Statements { stmts: Vec<ASTNode> },
    Array { elements: Vec<ASTNode> },
    ArrayIndex { arr: Box<ASTNode>, index: Box<ASTNode> },
    BinaryOp { op: Operation, lhs: Box<ASTNode>, rhs: Box<ASTNode> },
    Import { path: Vec<ASTNode> },
    Assign { identifier: Box<ASTNode>, body: Box<ASTNode> },
    LetBinding { identifier: Box<ASTNode>, body: Box<ASTNode> },
    WhileLoop { cond: Box<ASTNode>, body: Box<ASTNode> },
    ForLoop { itr: Box<ASTNode>, var: Box<ASTNode>, body: Box<ASTNode> },
    IfStatement { cond: Box<ASTNode>, then_branch: Box<ASTNode>, else_branch: Option<Box<ASTNode>> },
    FunctionDef { name: Box<ASTNode>, params: Vec<ASTNode>, body: Box<ASTNode> },
    Return { value: Box<ASTNode> },
    Call { name: Box<ASTNode>, args: Vec<ASTNode> },
}

/// The mathematical model of a syntax tree: names and strings are sequences
/// of characters, lists of children are sequences.
#[allow(inconsistent_fields)]
pub enum SpecAst {
    Bool { value: bool },
    Numeric { value: i32 },
    Str { value: Seq<char> },
    Identifier { name: Seq<char> },
    Statements { stmts: Seq<SpecAst> },
    Array { elements: Seq<SpecAst> },
    ArrayIndex { arr: Box<SpecAst>, index: Box<SpecAst> },
    BinaryOp { op: Operation, lhs: Box<SpecAst>, rhs: Box<SpecAst> },
    Import { path: Seq<SpecAst> },
    Assign { identifier: Box<SpecAst>, body: Box<SpecAst> },
    LetBinding { identifier: Box<SpecAst>, body: Box<SpecAst> },
    WhileLoop { cond: Box<SpecAst>, body: Box<SpecAst> },
    ForLoop { itr: Box<SpecAst>, var: Box<SpecAst>, body: Box<SpecAst> },
    IfStatement { cond: Box<SpecAst>, then_branch: Box<SpecAst>, else_branch: Option<Box<SpecAst>> },
    FunctionDef { name: Box<SpecAst>, params: Seq<SpecAst>, body: Box<SpecAst> },
    Return { value: Box<SpecAst> },
    Call { name: Box<SpecAst>, args: Seq<SpecAst> },
}

/// The models of a list of nodes.
pub open spec fn views(s: Seq<ASTNode>) -> Seq<SpecAst>
    decreases s,
{
    if s.len() == 0 {
        seq![]
    } else {
        seq![s[0].model()] + views(s.drop_first())
    }
}

impl View for ASTNode {
    type V = SpecAst;

    open spec fn view(&self) -> SpecAst {
        self.model()
    }
}

impl ASTNode {
    /// The model of this node (see [`SpecAst`]).
    pub open spec fn model(&self) -> SpecAst
        decreases self,
    {
        match self {
            ASTNode::Bool { value } => SpecAst::Bool { value: *value },
            ASTNode::Numeric { value } => SpecAst::Numeric { value: *value },
            ASTNode::Str { value } => SpecAst::Str { value: value@ },
            ASTNode::Identifier { name } => SpecAst::Identifier { name: name@ },
            ASTNode::Statements { stmts } => SpecAst::Statements { stmts: views(stmts@) },
            ASTNode::Array { elements } => SpecAst::Array { elements: views(elements@) },
            ASTNode::ArrayIndex { arr, index } => SpecAst::ArrayIndex {
                arr: Box::new(arr.model()),
                index: Box::new(index.model()),
            },
            ASTNode::BinaryOp { op, lhs, rhs } => SpecAst::BinaryOp {
                op: *op,
                lhs: Box::new(lhs.model()),
                rhs: Box::new(rhs.model()),
            },
            ASTNode::Import { path } => SpecAst::Import { path: views(path@) },
            ASTNode::Assign { identifier, body } => SpecAst::Assign {
                identifier: Box::new(identifier.model()),
                body: Box::new(body.model()),
            },
            ASTNode::LetBinding { identifier, body } => SpecAst::LetBinding {
                identifier: Box::new(identifier.model()),
                body: Box::new(body.model()),
            },
            ASTNode::WhileLoop { cond, body } => SpecAst::WhileLoop {
                cond: Box::new(cond.model()),
                body: Box::new(body.model()),
            },
            ASTNode::ForLoop { itr, var, body } => SpecAst::ForLoop {
                itr: Box::new(itr.model()),
                var: Box::new(var.model()),
                body: Box::new(body.model()),
            },
            ASTNode::IfStatement { cond, then_branch, else_branch } => SpecAst::IfStatement {
                cond: Box::new(cond.model()),
                then_branch: Box::new(then_branch.model()),
                else_branch: match else_branch {
                    Some(e) => Some(Box::new(e.model())),
                    None => None,
                },
            },
            ASTNode::FunctionDef { name, params, body } => SpecAst::FunctionDef {
                name: Box::new(name.model()),
                params: views(params@),
                body: Box::new(body.model()),
            },
            ASTNode::Return { value } => SpecAst::Return { value: Box::new(value.model()) },
            ASTNode::Call { name, args } => SpecAst::Call { name: Box::new(name.model()), args: views(args@) },
        }
    }
}


/// `views` is the element-wise model of a list of nodes.
pub proof fn lemma_views(s: Seq<ASTNode>)
    ensures
        views(s).len() == s.len(),
        forall|i: int| 0 <= i < s.len() ==> #[trigger] views(s)[i] == s[i].model(),
    decreases s.len(),
{
    if s.len() > 0 {
        lemma_views(s.drop_first());
        assert forall|i: int| 0 <= i < s.len() implies #[trigger] views(s)[i] == s[i].model() by {
            if i > 0 {
                assert(views(s)[i] == views(s.drop_first())[i - 1]);
            }
        }
    }
}

/// The models of a list with one more node.
pub proof fn lemma_views_push(s: Seq<ASTNode>, x: ASTNode)
    ensures
        views(s.push(x)) == views(s).push(x.model()),
{
    lemma_views(s);
    lemma_views(s.push(x));
    assert(views(s.push(x)) =~= views(s).push(x.model()));
}

/// Two lists of nodes with element-wise equal models have equal models.
pub proof fn lemma_views_ext(a: Seq<ASTNode>, b: Seq<SpecAst>)
    requires
        a.len() == b.len(),
        forall|i: int| 0 <= i < a.len() ==> #[trigger] a[i].model() == b[i],
    ensures
        views(a) == b,
{
    lemma_views(a);
    assert(views(a) =~= b);
}

impl ASTNode {
    pub fn statements(stmts: Vec<ASTNode>) -> (r: Self)
        ensures
            r@ == (SpecAst::Statements { stmts: views(stmts@) }),
    {
        ASTNode::Statements { stmts }
    }

    pub fn numeric(value: i32) -> (r: Self)
        ensures
            r@ == (SpecAst::Numeric { value }),
    {
        ASTNode::Numeric { value }
    }

    pub fn boolean(value: bool) -> (r: Self)
        ensures
            r@ == (SpecAst::Bool { value }),
    {
        ASTNode::Bool { value }
    }

    pub fn string(value: &str) -> (r: Self)
        ensures
            r@ == (SpecAst::Str { value: value@ }),
    {
        ASTNode::Str { value: String::from_str(value) }
    }

    pub fn array(elements: Vec<ASTNode>) -> (r: Self)
        ensures
            r@ == (SpecAst::Array { elements: views(elements@) }),
    {
        ASTNode::Array { elements }
    }

    pub fn identifier(name: &str) -> (r: Self)
        ensures
            r@ == (SpecAst::Identifier { name: name@ }),
    {
        ASTNode::Identifier { name: String::from_str(name) }
    }

    pub fn binary_op(op: Operation, lhs: ASTNode, rhs: ASTNode) -> (r: Self)
        ensures
            r@ == (SpecAst::BinaryOp { op, lhs: Box::new(lhs@), rhs: Box::new(rhs@) }),
    {
        ASTNode::BinaryOp { op, lhs: Box::new(lhs), rhs: Box::new(rhs) }
    }

    pub fn assign(identifier: ASTNode, body: ASTNode) -> (r: Self)
        ensures
            r@ == (SpecAst::Assign { identifier: Box::new(identifier@), body: Box::new(body@) }),
    {
        ASTNode::Assign { identifier: Box::new(identifier), body: Box::new(body) }
    }

    pub fn import(path: Vec<ASTNode>) -> (r: Self)
        ensures
            r@ == (SpecAst::Import { path: views(path@) }),
    {
        ASTNode::Import { path: path }
    }

    pub fn let_binding(identifier: ASTNode, body: ASTNode) -> (r: Self)
        ensures
            r@ == (SpecAst::LetBinding { identifier: Box::new(identifier@), body: Box::new(body@) }),
    {
        ASTNode::LetBinding { identifier: Box::new(identifier), body: Box::new(body) }
    }

    pub fn array_index(arr: ASTNode, index: ASTNode) -> (r: Self)
        ensures
            r@ == (SpecAst::ArrayIndex { arr: Box::new(arr@), index: Box::new(index@) }),
    {
        ASTNode::ArrayIndex { arr: Box::new(arr), index: Box::new(index) }
    }

    pub fn while_loop(cond: ASTNode, body: ASTNode) -> (r: Self)
        ensures
            r@ == (SpecAst::WhileLoop { cond: Box::new(cond@), body: Box::new(body@) }),
    {
        ASTNode::WhileLoop { cond: Box::new(cond), body: Box::new(body) }
    }

    pub fn for_loop(var: ASTNode, itr: ASTNode, body: ASTNode) -> (r: Self)
        ensures
            r@ == (SpecAst::ForLoop {
                itr: Box::new(itr@),
                var: Box::new(var@),
                body: Box::new(body@),
            }),
    {
        ASTNode::ForLoop { var: Box::new(var), itr: Box::new(itr), body: Box::new(body) }
    }

    pub fn if_statement(cond: ASTNode, then_branch: ASTNode, else_branch: Option<ASTNode>) -> (r: Self)
        ensures
            r@ == (SpecAst::IfStatement {
                cond: Box::new(cond@),
                then_branch: Box::new(then_branch@),
                else_branch: match else_branch {
                    Some(e) => Some(Box::new(e@)),
                    None => None,
                },
            }),
    {
        let else_branch = match else_branch {
            Some(e) => Some(Box::new(e)),
            None => None,
        };
        ASTNode::IfStatement { cond: Box::new(cond), then_branch: Box::new(then_branch), else_branch }
    }

    pub fn function_def(name: ASTNode, params: Vec<ASTNode>, body: ASTNode) -> (r: Self)
        ensures
            r@ == (SpecAst::FunctionDef {
                name: Box::new(name@),
                params: views(params@),
                body: Box::new(body@),
            }),
    {
        ASTNode::FunctionDef { name: Box::new(name), params, body: Box::new(body) }
    }

    pub fn return_stmt(value: ASTNode) -> (r: Self)
        ensures
            r@ == (SpecAst::Return { value: Box::new(value@) }),
    {
        ASTNode::Return { value: Box::new(value) }
    }

    pub fn call(name: ASTNode, args: Vec<ASTNode>) -> (r: Self)
        ensures
            r@ == (SpecAst::Call { name: Box::new(name@), args: views(args@) }),
    {
        ASTNode::Call { name: Box::new(name), args }
    }

    /// A copy of this node with the same model.
    pub fn deep_clone(&self) -> (r: ASTNode)
        ensures
            r@ == self@,
        decreases self,
    {
        match self {
            ASTNode::Bool { value } => ASTNode::Bool { value: *value },
            ASTNode::Numeric { value } => ASTNode::Numeric { value: *value },
            ASTNode::Str { value } => ASTNode::Str { value: value.clone() },
            ASTNode::Identifier { name } => ASTNode::Identifier { name: name.clone() },
            ASTNode::Statements { stmts } => ASTNode::Statements { stmts: clone_nodes(stmts) },
            ASTNode::Array { elements } => ASTNode::Array { elements: clone_nodes(elements) },
            ASTNode::ArrayIndex { arr, index } => ASTNode::ArrayIndex {
                arr: Box::new(arr.deep_clone()),
                index: Box::new(index.deep_clone()),
            },
            ASTNode::BinaryOp { op, lhs, rhs } => ASTNode::BinaryOp {
                op: *op,
                lhs: Box::new(lhs.deep_clone()),
                rhs: Box::new(rhs.deep_clone()),
            },
            ASTNode::Import { path } => ASTNode::Import { path: clone_nodes(path) },
            ASTNode::Assign { identifier, body } => ASTNode::Assign {
                identifier: Box::new(identifier.deep_clone()),
                body: Box::new(body.deep_clone()),
            },
            ASTNode::LetBinding { identifier, body } => ASTNode::LetBinding {
                identifier: Box::new(identifier.deep_clone()),
                body: Box::new(body.deep_clone()),
            },
            ASTNode::WhileLoop { cond, body } => ASTNode::WhileLoop {
                cond: Box::new(cond.deep_clone()),
                body: Box::new(body.deep_clone()),
            },
            ASTNode::ForLoop { itr, var, body } => ASTNode::ForLoop {
                itr: Box::new(itr.deep_clone()),
                var: Box::new(var.deep_clone()),
                body: Box::new(body.deep_clone()),
            },
            ASTNode::IfStatement { cond, then_branch, else_branch } => {
                let e = match else_branch {
                    Some(e) => Some(Box::new(e.deep_clone())),
                    None => None,
                };
                ASTNode::IfStatement {
                    cond: Box::new(cond.deep_clone()),
                    then_branch: Box::new(then_branch.deep_clone()),
                    else_branch: e,
                }
            },
            ASTNode::FunctionDef { name, params, body } => ASTNode::FunctionDef {
                name: Box::new(name.deep_clone()),
                params: clone_nodes(params),
                body: Box::new(body.deep_clone()),
            },
            ASTNode::Return { value } => ASTNode::Return { value: Box::new(value.deep_clone()) },
            ASTNode::Call { name, args } => ASTNode::Call {
                name: Box::new(name.deep_clone()),
                args: clone_nodes(args),
            },
        }
    }
}

/// A copy of a list of nodes with the same models.
pub fn clone_nodes(v: &Vec<ASTNode>) -> (r: Vec<ASTNode>)
    ensures
        views(r@) == views(v@),
        r@.len() == v@.len(),
    decreases v,
{
    let mut r: Vec<ASTNode> = Vec::new();
    let mut i: usize = 0;
    while i < v.len()
        invariant
            i <= v.len(),
            r@.len() == i,
            forall|j: int| 0 <= j < i ==> #[trigger] r@[j].model() == v@[j].model(),
        decreases v.len() - i,
    {
        proof {
            assert(decreases_to!(v => v[i as int]));
        }
        let c = v[i].deep_clone();
        r.push(c);
        i += 1;
    }
    proof {
        lemma_views(v@);
        lemma_views_ext(r@, views(v@));
    }
    r
}

impl Clone for ASTNode {
    fn clone(&self) -> (r: Self)
        ensures
            r@ == self@,
    {
        self.deep_clone()
    }
}

} // verus!
