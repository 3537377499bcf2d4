//! The compiler: template source text to the node-sequence intermediate
//! representation. `sp_scan` (over characters) and the `sp_p_*` family
//! (over tokens) are the model; the executable functions are proved to
//! return exactly what the model does, and to fail exactly where it does.

use vstd::prelude::*;

use crate::ir::{Arg, ArgV, CmpOp, Expr, ExprV, Node, NodeV};
use crate::ir::{args_view, lemma_args_view, lemma_nodes_view, nodes_view};
use crate::lex::{adv, lex_at, sp_lex, toks_view, Tok, TokV};
use crate::text::{str_chars, sub_string};

verus! {

broadcast use vstd::std_specs::vec::group_vec_axioms;

pub open spec fn cmp_of_tok(t: TokV) -> Option<CmpOp> {
    match t {
        TokV::OpEq => Option::Some(CmpOp::Eq),
        TokV::OpNe => Option::Some(CmpOp::Ne),
        TokV::OpLt => Option::Some(CmpOp::Lt),
        TokV::OpLe => Option::Some(CmpOp::Le),
        TokV::OpGt => Option::Some(CmpOp::Gt),
        TokV::OpGe => Option::Some(CmpOp::Ge),
        _ => Option::None,
    }
}

pub fn tok_cmp(t: &Tok) -> (r: Option<CmpOp>)
    ensures
        r == cmp_of_tok(t@),
{
    match t {
        Tok::OpEq => Some(CmpOp::Eq),
        Tok::OpNe => Some(CmpOp::Ne),
        Tok::OpLt => Some(CmpOp::Lt),
        Tok::OpLe => Some(CmpOp::Le),
        Tok::OpGt => Some(CmpOp::Gt),
        Tok::OpGe => Some(CmpOp::Ge),
        _ => None,
    }
}

pub open spec fn arg_cons(a: ArgV, rest: Option<(Seq<ArgV>, int)>) -> Option<(Seq<ArgV>, int)> {
    match rest {
        Option::None => Option::None,
        Option::Some((r, j)) => Option::Some((seq![a] + r, j)),
    }
}

/// An atom: a literal, a variable, or a function call.
pub open spec fn sp_p_atom(t: Seq<TokV>, i: int) -> Option<(ExprV, int)>
    decreases t.len() - i, 0int,
{
    let n = t.len() as int;
    if !(0 <= i < n) {
        Option::None
    } else {
        match t[i] {
            TokV::IntTok(v) => Option::Some((ExprV::IntLit(v), i + 1)),
            TokV::StrTok(s) => Option::Some((ExprV::StrLit(s), i + 1)),
            TokV::Ident(name) => if name == "true"@ {
                Option::Some((ExprV::BoolLit(true), i + 1))
            } else if name == "false"@ {
                Option::Some((ExprV::BoolLit(false), i + 1))
            } else if name == "none"@ {
                Option::Some((ExprV::NullLit, i + 1))
            } else if i + 1 < n && t[i + 1] is LPar {
                match sp_p_args(t, i + 2) {
                    Option::None => Option::None,
                    Option::Some((args, j)) => Option::Some((ExprV::Call(name, args), j)),
                }
            } else {
                Option::Some((ExprV::Var(name), i + 1))
            },
            _ => Option::None,
        }
    }
}

/// A chain of attribute accesses after a parsed base expression.
pub open spec fn sp_p_post(t: Seq<TokV>, i: int, base: ExprV) -> Option<(ExprV, int)>
    decreases t.len() - i, 1int,
{
    let n = t.len() as int;
    if 0 <= i && i + 1 < n && t[i] is Dot {
        match t[i + 1] {
            TokV::Ident(name) => sp_p_post(t, i + 2, ExprV::Attr(Box::new(base), name)),
            _ => Option::None,
        }
    } else {
        Option::Some((base, i))
    }
}

/// A chain of filter applications after a parsed base expression.
pub open spec fn sp_p_filt_more(t: Seq<TokV>, i: int, base: ExprV) -> Option<(ExprV, int)>
    decreases t.len() - i, 2int,
{
    let n = t.len() as int;
    if 0 <= i && i + 1 < n && t[i] is Pipe {
        match t[i + 1] {
            TokV::Ident(name) => if i + 2 < n && t[i + 2] is LPar {
                match sp_p_args(t, i + 3) {
                    Option::None => Option::None,
                    Option::Some((args, j)) => sp_p_filt_more(
                        t,
                        adv(n, i, j),
                        ExprV::Filter(Box::new(base), name, args),
                    ),
                }
            } else {
                sp_p_filt_more(t, i + 2, ExprV::Filter(Box::new(base), name, Seq::empty()))
            },
            _ => Option::None,
        }
    } else {
        Option::Some((base, i))
    }
}

/// An atom with its postfix accesses and filter chain.
pub open spec fn sp_p_filt(t: Seq<TokV>, i: int) -> Option<(ExprV, int)>
    decreases t.len() - i, 3int,
{
    let n = t.len() as int;
    if !(0 <= i < n) {
        Option::None
    } else {
        match sp_p_atom(t, i) {
            Option::None => Option::None,
            Option::Some((a, j)) => match sp_p_post(t, adv(n, i, j), a) {
                Option::None => Option::None,
                Option::Some((e, k)) => sp_p_filt_more(t, adv(n, i, k), e),
            },
        }
    }
}

/// A full expression: one optional binary comparison between filtered
/// operands.
pub open spec fn sp_p_expr(t: Seq<TokV>, i: int) -> Option<(ExprV, int)>
    decreases t.len() - i, 4int,
{
    let n = t.len() as int;
    if !(0 <= i < n) {
        Option::None
    } else {
        match sp_p_filt(t, i) {
        Option::None => Option::None,
        Option::Some((e1, j)) => if i < n && 0 <= j < n && cmp_of_tok(t[j]) is Some {
            match sp_p_filt(t, adv(n, i, j + 1)) {
                Option::None => Option::None,
                Option::Some((e2, k)) => Option::Some(
                    (ExprV::Cmp(cmp_of_tok(t[j])->0, Box::new(e1), Box::new(e2)), k),
                ),
            }
        } else {
            Option::Some((e1, j))
        },
        }
    }
}

/// An argument list after `(`, including the closing `)`; the returned
/// position is the one after `)`.
pub open spec fn sp_p_args(t: Seq<TokV>, i: int) -> Option<(Seq<ArgV>, int)>
    decreases t.len() - i, 5int,
{
    let n = t.len() as int;
    if !(0 <= i < n) {
        Option::None
    } else if t[i] is RPar {
        Option::Some((Seq::empty(), i + 1))
    } else {
        let kw = i + 1 < n && t[i] is Ident && t[i + 1] is Assign;
        let parsed = if kw {
            match sp_p_expr(t, i + 2) {
                Option::None => Option::None,
                Option::Some((e, j)) => Option::Some((ArgV::Kw(t[i]->Ident_0, e), j)),
            }
        } else {
            match sp_p_expr(t, i) {
                Option::None => Option::None,
                Option::Some((e, j)) => Option::Some((ArgV::Pos(e), j)),
            }
        };
        match parsed {
            Option::None => Option::None,
            Option::Some((a, j)) => if 0 <= j < n && t[j] is Comma {
                arg_cons(a, sp_p_args(t, adv(n, i, j + 1)))
            } else if 0 <= j < n && t[j] is RPar {
                Option::Some((seq![a], j + 1))
            } else {
                Option::None
            },
        }
    }
}

/// Executable atom parser.
pub fn p_atom(t: &Vec<Tok>, i: usize) -> (r: Result<(Expr, usize), ()>)
    requires
        i <= t@.len(),
    ensures
        match r {
            Result::Ok((e, j)) => sp_p_atom(toks_view(t@), i as int) == Option::Some(
                (e@, j as int),
            ) && i < j <= t@.len(),
            Result::Err(_) => sp_p_atom(toks_view(t@), i as int) is None,
        },
    decreases t@.len() - i, 0int,
{
    broadcast use crate::lex::lemma_toks_view;

    let n = t.len();
    if i >= n {
        return Err(());
    }
    match &t[i] {
        Tok::IntTok(v) => Ok((Expr::IntLit(*v), i + 1)),
        Tok::StrTok(s) => Ok((Expr::StrLit(s.clone()), i + 1)),
        Tok::Ident(name) => {
            if crate::value::str_eq(name.as_str(), "true") {
                Ok((Expr::BoolLit(true), i + 1))
            } else if crate::value::str_eq(name.as_str(), "false") {
                Ok((Expr::BoolLit(false), i + 1))
            } else if crate::value::str_eq(name.as_str(), "none") {
                Ok((Expr::NullLit, i + 1))
            } else if i + 1 < n && matches!(&t[i + 1], Tok::LPar) {
                match p_args(t, i + 2) {
                    Err(e) => Err(e),
                    Ok((args, j)) => Ok((Expr::Call(name.clone(), args), j)),
                }
            } else {
                Ok((Expr::Var(name.clone()), i + 1))
            }
        }
        _ => Err(()),
    }
}

/// Executable postfix-chain parser.
pub fn p_post(t: &Vec<Tok>, i: usize, base: Expr) -> (r: Result<(Expr, usize), ()>)
    requires
        i <= t@.len(),
    ensures
        match r {
            Result::Ok((e, j)) => sp_p_post(toks_view(t@), i as int, base@) == Option::Some(
                (e@, j as int),
            ) && i <= j <= t@.len(),
            Result::Err(_) => sp_p_post(toks_view(t@), i as int, base@) is None,
        },
    decreases t@.len() - i, 1int,
{
    broadcast use crate::lex::lemma_toks_view;

    let n = t.len();
    if i < n && i + 1 < n && matches!(&t[i], Tok::Dot) {
        match &t[i + 1] {
            Tok::Ident(name) => p_post(t, i + 2, Expr::Attr(Box::new(base), name.clone())),
            _ => Err(()),
        }
    } else {
        Ok((base, i))
    }
}

/// Executable filter-chain parser.
pub fn p_filt_more(t: &Vec<Tok>, i: usize, base: Expr) -> (r: Result<(Expr, usize), ()>)
    requires
        i <= t@.len(),
    ensures
        match r {
            Result::Ok((e, j)) => sp_p_filt_more(toks_view(t@), i as int, base@) == Option::Some(
                (e@, j as int),
            ) && i <= j <= t@.len(),
            Result::Err(_) => sp_p_filt_more(toks_view(t@), i as int, base@) is None,
        },
    decreases t@.len() - i, 2int,
{
    broadcast use crate::lex::lemma_toks_view;

    let n = t.len();
    if i < n && i + 1 < n && matches!(&t[i], Tok::Pipe) {
        match &t[i + 1] {
            Tok::Ident(name) => {
                if i + 2 < n && matches!(&t[i + 2], Tok::LPar) {
                    match p_args(t, i + 3) {
                        Err(e) => Err(e),
                        Ok((args, j)) => {
                            proof {
                                lemma_args_view(args@);
                            }
                            p_filt_more(t, j, Expr::Filter(Box::new(base), name.clone(), args))
                        }
                    }
                } else {
                    let empty_args: Vec<Arg> = Vec::new();
                    proof {
                        assert(args_view(empty_args@) =~= Seq::<ArgV>::empty());
                    }
                    p_filt_more(t, i + 2, Expr::Filter(Box::new(base), name.clone(), empty_args))
                }
            }
            _ => Err(()),
        }
    } else {
        Ok((base, i))
    }
}

/// Executable parser for an atom with postfixes and filters.
pub fn p_filt(t: &Vec<Tok>, i: usize) -> (r: Result<(Expr, usize), ()>)
    requires
        i <= t@.len(),
    ensures
        match r {
            Result::Ok((e, j)) => sp_p_filt(toks_view(t@), i as int) == Option::Some(
                (e@, j as int),
            ) && i < j <= t@.len(),
            Result::Err(_) => sp_p_filt(toks_view(t@), i as int) is None,
        },
    decreases t@.len() - i, 3int,
{
    broadcast use crate::lex::lemma_toks_view;

    let (a, j) = p_atom(t, i)?;
    let (e, k) = p_post(t, j, a)?;
    p_filt_more(t, k, e)
}

/// Executable expression parser.
pub fn p_expr(t: &Vec<Tok>, i: usize) -> (r: Result<(Expr, usize), ()>)
    requires
        i <= t@.len(),
    ensures
        match r {
            Result::Ok((e, j)) => sp_p_expr(toks_view(t@), i as int) == Option::Some(
                (e@, j as int),
            ) && i < j <= t@.len(),
            Result::Err(_) => sp_p_expr(toks_view(t@), i as int) is None,
        },
    decreases t@.len() - i, 4int,
{
    broadcast use crate::lex::lemma_toks_view;

    let (e1, j) = p_filt(t, i)?;
    let n = t.len();
    if j < n {
        match tok_cmp(&t[j]) {
            Some(op) => {
                let (e2, k) = p_filt(t, j + 1)?;
                Ok((Expr::Cmp(op, Box::new(e1), Box::new(e2)), k))
            }
            None => Ok((e1, j)),
        }
    } else {
        Ok((e1, j))
    }
}

/// Executable argument-list parser.
#[verifier::rlimit(60)]
pub fn p_args(t: &Vec<Tok>, i: usize) -> (r: Result<(Vec<Arg>, usize), ()>)
    requires
        i <= t@.len(),
    ensures
        match r {
            Result::Ok((args, j)) => sp_p_args(toks_view(t@), i as int) == Option::Some(
                (args_view(args@), j as int),
            ) && i < j <= t@.len(),
            Result::Err(_) => sp_p_args(toks_view(t@), i as int) is None,
        },
    decreases t@.len() - i, 5int,
{
    broadcast use crate::lex::lemma_toks_view, lemma_args_view;

    let n = t.len();
    if i >= n {
        return Err(());
    }
    if matches!(&t[i], Tok::RPar) {
        let args: Vec<Arg> = Vec::new();
        proof {
            assert(args_view(args@) =~= Seq::<ArgV>::empty());
        }
        return Ok((args, i + 1));
    }
    let kw = i + 1 < n && matches!(&t[i], Tok::Ident(_)) && matches!(&t[i + 1], Tok::Assign);
    let (a, j): (Arg, usize) = if kw {
        let name = match &t[i] {
            Tok::Ident(nm) => nm.clone(),
            _ => {
                return Err(());
            }
        };
        let (e, j) = p_expr(t, i + 2)?;
        (Arg::Kw(name, e), j)
    } else {
        let (e, j) = p_expr(t, i)?;
        (Arg::Pos(e), j)
    };
    if j < n && matches!(&t[j], Tok::Comma) {
        let (rest, k) = p_args(t, j + 1)?;
        let ghost av = a@;
        let ghost rv = rest@;
        let mut out = rest;
        out.insert(0, a);
        proof {
            assert(args_view(out@) =~= seq![av] + args_view(rv));
        }
        Ok((out, k))
    } else if j < n && matches!(&t[j], Tok::RPar) {
        let ghost av = a@;
        let out: Vec<Arg> = vec![a];
        proof {
            assert(args_view(out@) =~= seq![av]);
        }
        Ok((out, j + 1))
    } else {
        Err(())
    }
}

/// First position at or after `i` where a tag opens, or the length.
pub open spec fn sp_find_open(s: Seq<char>, i: int) -> int
    decreases s.len() - i,
{
    let n = s.len() as int;
    if !(0 <= i < n) {
        n
    } else if s[i] == '{' && i + 1 < n && (s[i + 1] == '{' || s[i + 1] == '%') {
        i
    } else {
        sp_find_open(s, i + 1)
    }
}

/// First position at or after `i` where `c` is followed by `}`, if any.
pub open spec fn sp_find_close(s: Seq<char>, i: int, c: char) -> Option<int>
    decreases s.len() - i,
{
    let n = s.len() as int;
    if !(0 <= i < n) {
        Option::None
    } else if s[i] == c && i + 1 < n && s[i + 1] == '}' {
        Option::Some(i)
    } else {
        sp_find_close(s, i + 1, c)
    }
}

/// A complete expression: all tokens of `s` parse as one expression.
pub open spec fn sp_expr_of(s: Seq<char>) -> Option<ExprV> {
    match sp_lex(s, 0) {
        Option::None => Option::None,
        Option::Some(toks) => match sp_p_expr(toks, 0) {
            Option::None => Option::None,
            Option::Some((e, j)) => if j == toks.len() {
                Option::Some(e)
            } else {
                Option::None
            },
        },
    }
}

/// A complete statement body: `set name = expr`.
pub open spec fn sp_set_of(s: Seq<char>) -> Option<(Seq<char>, ExprV)> {
    match sp_lex(s, 0) {
        Option::None => Option::None,
        Option::Some(toks) => if toks.len() >= 3 && toks[0] == TokV::Ident("set"@) && toks[1]
            is Ident && toks[2] is Assign {
            match sp_p_expr(toks, 3) {
                Option::None => Option::None,
                Option::Some((e, j)) => if j == toks.len() {
                    Option::Some((toks[1]->Ident_0, e))
                } else {
                    Option::None
                },
            }
        } else {
            Option::None
        },
    }
}

/// The node sequence of the template text from position `i` on: literal
/// text up to each tag, `{{ expr }}` as an emit node, `{% set name =
/// expr %}` as an assignment node.
pub open spec fn sp_scan(s: Seq<char>, i: int) -> Option<Seq<NodeV>>
    decreases s.len() - i,
{
    let n = s.len() as int;
    if !(0 <= i < n) {
        Option::Some(Seq::empty())
    } else {
        let t = sp_find_open(s, i);
        let pre: Seq<NodeV> = if t > i {
            seq![NodeV::Text(s.subrange(i, t))]
        } else {
            Seq::empty()
        };
        if t >= n {
            Option::Some(pre)
        } else if t + 1 < n && s[t + 1] == '{' {
            match sp_find_close(s, t + 2, '}') {
                Option::None => Option::None,
                Option::Some(c) => match sp_expr_of(s.subrange(t + 2, adv(n, t + 1, c))) {
                    Option::None => Option::None,
                    Option::Some(e) => match sp_scan(s, adv(n, i, c + 2)) {
                        Option::None => Option::None,
                        Option::Some(rest) => Option::Some(pre + seq![NodeV::Emit(e)] + rest),
                    },
                },
            }
        } else if t + 1 < n && s[t + 1] == '%' {
            match sp_find_close(s, t + 2, '%') {
                Option::None => Option::None,
                Option::Some(c) => match sp_set_of(s.subrange(t + 2, adv(n, t + 1, c))) {
                    Option::None => Option::None,
                    Option::Some((name, e)) => match sp_scan(s, adv(n, i, c + 2)) {
                        Option::None => Option::None,
                        Option::Some(rest) => Option::Some(
                            pre + seq![NodeV::Assign(name, e)] + rest,
                        ),
                    },
                },
            }
        } else {
            Option::None
        }
    }
}

/// The compiled form of a whole template source.
pub open spec fn sp_compile(s: Seq<char>) -> Option<Seq<NodeV>> {
    sp_scan(s, 0)
}

/// Executable tag-open search.
pub fn find_open(cs: &Vec<char>, i: usize) -> (r: usize)
    requires
        i <= cs@.len(),
    ensures
        r as int == sp_find_open(cs@, i as int),
        i <= r <= cs@.len(),
        r < cs@.len() ==> r + 1 < cs@.len() && cs@[r as int] == '{' && (cs@[r as int + 1] == '{'
            || cs@[r as int + 1] == '%'),
    decreases cs@.len() - i,
{
    let n = cs.len();
    if i >= n {
        n
    } else if cs[i] == '{' && i + 1 < n && (cs[i + 1] == '{' || cs[i + 1] == '%') {
        i
    } else {
        find_open(cs, i + 1)
    }
}

/// Executable tag-close search.
pub fn find_close(cs: &Vec<char>, i: usize, c: char) -> (r: Option<usize>)
    requires
        i <= cs@.len(),
    ensures
        match r {
            Option::Some(k) => sp_find_close(cs@, i as int, c) == Option::Some(k as int) && i <= k
                && k + 1 < cs@.len(),
            Option::None => sp_find_close(cs@, i as int, c) is None,
        },
    decreases cs@.len() - i,
{
    let n = cs.len();
    if i >= n {
        None
    } else if cs[i] == c && i + 1 < n && cs[i + 1] == '}' {
        Some(i)
    } else {
        find_close(cs, i + 1, c)
    }
}

/// Executable complete-expression parser over a character vector.
pub fn expr_of(cs: &Vec<char>) -> (r: Result<Expr, ()>)
    ensures
        match r {
            Result::Ok(e) => sp_expr_of(cs@) == Option::Some(e@),
            Result::Err(_) => sp_expr_of(cs@) is None,
        },
{
    broadcast use crate::lex::lemma_toks_view;

    let toks = match lex_at(cs, 0) {
        Ok(ts) => ts,
        Err(_) => {
            return Err(());
        }
    };
    let (e, j) = match p_expr(&toks, 0) {
        Ok(p) => p,
        Err(_) => {
            return Err(());
        }
    };
    if j == toks.len() {
        Ok(e)
    } else {
        Err(())
    }
}

/// Executable complete `set`-statement parser over a character vector.
pub fn set_of(cs: &Vec<char>) -> (r: Result<(String, Expr), ()>)
    ensures
        match r {
            Result::Ok((name, e)) => sp_set_of(cs@) == Option::Some((name@, e@)),
            Result::Err(_) => sp_set_of(cs@) is None,
        },
{
    broadcast use crate::lex::lemma_toks_view;

    let toks = match lex_at(cs, 0) {
        Ok(ts) => ts,
        Err(_) => {
            return Err(());
        }
    };
    if toks.len() < 3 {
        return Err(());
    }
    let ok0 = match &toks[0] {
        Tok::Ident(s) => crate::value::str_eq(s.as_str(), "set"),
        _ => false,
    };
    if !ok0 {
        return Err(());
    }
    let name = match &toks[1] {
        Tok::Ident(s) => s.clone(),
        _ => {
            return Err(());
        }
    };
    if !matches!(&toks[2], Tok::Assign) {
        return Err(());
    }
    let (e, j) = match p_expr(&toks, 3) {
        Ok(p) => p,
        Err(_) => {
            return Err(());
        }
    };
    if j == toks.len() {
        Ok((name, e))
    } else {
        Err(())
    }
}

/// Executable template scanner; `Err` carries the position of the tag
/// that failed to compile.
#[verifier::rlimit(100)]
pub fn scan(cs: &Vec<char>, i: usize) -> (r: Result<Vec<Node>, usize>)
    requires
        i <= cs@.len(),
    ensures
        match r {
            Result::Ok(nodes) => sp_scan(cs@, i as int) == Option::Some(nodes_view(nodes@)),
            Result::Err(_) => sp_scan(cs@, i as int) is None,
        },
    decreases cs@.len() - i,
{
    broadcast use lemma_nodes_view;

    let n = cs.len();
    if i >= n {
        let out: Vec<Node> = Vec::new();
        proof {
            assert(nodes_view(out@) =~= Seq::<NodeV>::empty());
        }
        return Ok(out);
    }
    let t = find_open(cs, i);
    let ghost pre: Seq<NodeV> = if t > i {
        seq![NodeV::Text(cs@.subrange(i as int, t as int))]
    } else {
        Seq::empty()
    };
    if t >= n {
        let mut out: Vec<Node> = Vec::new();
        if t > i {
            out.push(Node::Text(sub_string(cs, i, t)));
        }
        proof {
            assert(nodes_view(out@) =~= pre);
        }
        return Ok(out);
    }
    let is_emit = cs[t + 1] == '{';
    let closer: char = if is_emit {
        '}'
    } else {
        '%'
    };
    let c = match find_close(cs, t + 2, closer) {
        Some(c) => c,
        None => {
            return Err(t);
        }
    };
    let inner = crate::text::sub_chars(cs, t + 2, c);
    proof {
        assert(adv(n as int, t as int + 1, c as int) == c as int);
        assert(inner@ == cs@.subrange(t as int + 2, adv(n as int, t as int + 1, c as int)));
    }
    let node: Node = if is_emit {
        match expr_of(&inner) {
            Ok(e) => Node::Emit(e),
            Err(_) => {
                return Err(t);
            }
        }
    } else {
        match set_of(&inner) {
            Ok((name, e)) => Node::Assign(name, e),
            Err(_) => {
                return Err(t);
            }
        }
    };
    let ghost nv = node@;
    let rest = scan(cs, c + 2)?;
    proof {
        assert(adv(n as int, i as int, c as int + 2) == c as int + 2);
    }
    let ghost rv = rest@;
    let mut out = rest;
    out.insert(0, node);
    proof {
        assert(nodes_view(out@) =~= seq![nv] + nodes_view(rv));
    }
    let ghost mv = out@;
    if t > i {
        let text = sub_string(cs, i, t);
        out.insert(0, Node::Text(text));
        proof {
            assert(nodes_view(out@) =~= seq![NodeV::Text(cs@.subrange(i as int, t as int))]
                + nodes_view(mv));
        }
    }
    proof {
        assert(nodes_view(out@) =~= pre + seq![nv] + nodes_view(rv));
    }
    Ok(out)
}

/// Compiles template source text into its node sequence. Returns the
/// nodes exactly when the model accepts the source; the error carries
/// the position of the tag that failed.
pub fn compile_source(src: &str) -> (r: Result<Vec<Node>, usize>)
    ensures
        match r {
            Result::Ok(nodes) => sp_compile(src@) == Option::Some(nodes_view(nodes@)),
            Result::Err(_) => sp_compile(src@) is None,
        },
{
    let cs = str_chars(src);
    scan(&cs, 0)
}

} // verus!
