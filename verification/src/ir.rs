//! The intermediate representation a template compiles to: an ordered
//! sequence of nodes, each a literal text span, an expression to emit,
//! or a local assignment; together with its mathematical model.

use vstd::prelude::*;

verus! {

broadcast use vstd::std_specs::vec::group_vec_axioms;

/// A comparison operator.
#[derive(Clone, Copy, PartialEq, Eq, Structural)]
pub enum CmpOp {
    Eq,
    Ne,
    Lt,
    Le,
    Gt,
    Ge,
}

/// Model of an expression, over character sequences.
pub enum ExprV {
    IntLit(i64),
    StrLit(Seq<char>),
    BoolLit(bool),
    NullLit,
    Var(Seq<char>),
    Attr(Box<ExprV>, Seq<char>),
    Cmp(CmpOp, Box<ExprV>, Box<ExprV>),
    Filter(Box<ExprV>, Seq<char>, Seq<ArgV>),
    Call(Seq<char>, Seq<ArgV>),
}

/// Model of a call-site argument.
pub enum ArgV {
    Pos(ExprV),
    Kw(Seq<char>, ExprV),
}

/// Model of a template node.
pub enum NodeV {
    Text(Seq<char>),
    Emit(ExprV),
    Assign(Seq<char>, ExprV),
}

/// An expression: literals, variable references, attribute access,
/// one binary comparison, filter application and function calls.
pub enum Expr {
    IntLit(i64),
    StrLit(String),
    BoolLit(bool),
    NullLit,
    Var(String),
    Attr(Box<Expr>, String),
    Cmp(CmpOp, Box<Expr>, Box<Expr>),
    Filter(Box<Expr>, String, Vec<Arg>),
    Call(String, Vec<Arg>),
}

/// A call-site argument: positional, or keyword (`name=expr`).
pub enum Arg {
    Pos(Expr),
    Kw(String, Expr),
}

/// One compiled template node.
pub enum Node {
    Text(String),
    Emit(Expr),
    Assign(String, Expr),
}

/// The model of a sequence of arguments, elementwise.
pub open spec fn args_view(s: Seq<Arg>) -> Seq<ArgV>
    decreases s,
{
    if s.len() == 0 {
        Seq::empty()
    } else {
        args_view(s.drop_last()).push(s.last()@)
    }
}

/// The model of a sequence of nodes, elementwise.
pub open spec fn nodes_view(s: Seq<Node>) -> Seq<NodeV>
    decreases s,
{
    if s.len() == 0 {
        Seq::empty()
    } else {
        nodes_view(s.drop_last()).push(s.last()@)
    }
}

impl View for Expr {
    type V = ExprV;

    open spec fn view(&self) -> ExprV
        decreases self,
    {
        match self {
            Expr::IntLit(n) => ExprV::IntLit(*n),
            Expr::StrLit(s) => ExprV::StrLit(s@),
            Expr::BoolLit(b) => ExprV::BoolLit(*b),
            Expr::NullLit => ExprV::NullLit,
            Expr::Var(n) => ExprV::Var(n@),
            Expr::Attr(b, n) => ExprV::Attr(Box::new((**b)@), n@),
            Expr::Cmp(op, a, b) => ExprV::Cmp(*op, Box::new((**a)@), Box::new((**b)@)),
            Expr::Filter(b, n, args) => ExprV::Filter(Box::new((**b)@), n@, args_view(args@)),
            Expr::Call(n, args) => ExprV::Call(n@, args_view(args@)),
        }
    }
}

impl View for Arg {
    type V = ArgV;

    open spec fn view(&self) -> ArgV
        decreases self,
    {
        match self {
            Arg::Pos(e) => ArgV::Pos(e@),
            Arg::Kw(n, e) => ArgV::Kw(n@, e@),
        }
    }
}

impl View for Node {
    type V = NodeV;

    open spec fn view(&self) -> NodeV
        decreases self,
    {
        match self {
            Node::Text(s) => NodeV::Text(s@),
            Node::Emit(e) => NodeV::Emit(e@),
            Node::Assign(n, e) => NodeV::Assign(n@, e@),
        }
    }
}

pub broadcast proof fn lemma_args_view(s: Seq<Arg>)
    ensures
        (#[trigger] args_view(s)).len() == s.len(),
        forall|i: int| 0 <= i < s.len() ==> args_view(s)[i] == s[i]@,
    decreases s.len(),
{
    if s.len() > 0 {
        lemma_args_view(s.drop_last());
        assert(args_view(s) == args_view(s.drop_last()).push(s.last()@));
        assert(args_view(s).len() == s.len());
        assert forall|i: int| 0 <= i < s.len() implies args_view(s)[i] == s[i]@ by {
            if i < s.len() - 1 {
                assert(s.drop_last()[i] == s[i]);
                assert(args_view(s)[i] == args_view(s.drop_last())[i]);
            } else {
                assert(s[i] == s.last());
            }
        }
    }
}

pub broadcast proof fn lemma_nodes_view(s: Seq<Node>)
    ensures
        (#[trigger] nodes_view(s)).len() == s.len(),
        forall|i: int| 0 <= i < s.len() ==> nodes_view(s)[i] == s[i]@,
    decreases s.len(),
{
    if s.len() > 0 {
        lemma_nodes_view(s.drop_last());
        assert(nodes_view(s) == nodes_view(s.drop_last()).push(s.last()@));
        assert(nodes_view(s).len() == s.len());
        assert forall|i: int| 0 <= i < s.len() implies nodes_view(s)[i] == s[i]@ by {
            if i < s.len() - 1 {
                assert(s.drop_last()[i] == s[i]);
                assert(nodes_view(s)[i] == nodes_view(s.drop_last())[i]);
            } else {
                assert(s[i] == s.last());
            }
        }
    }
}

} // verus!
