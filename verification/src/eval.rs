//! The evaluator: walks a template's nodes against a layered scope
//! seeded from the caller's context, resolves names, applies filters
//! and functions through the binding protocol, and produces output text
//! plus a final scope snapshot.

use vstd::prelude::*;

use crate::bind::{bind_args, sp_bind};
use crate::builtins::{apply_builtin, sp_apply};
use crate::env::{cvs_get, CallableV, EnvV, Environment};
use crate::err::{ErrV, Error};
use crate::fmt::{push_fmt, sp_fmt};
use crate::ir::{args_view, lemma_args_view, lemma_nodes_view, nodes_view, Arg, ArgV, CmpOp, Expr, ExprV, Node, NodeV};
use crate::value::{assoc, kvs_get, kvs_view, lemma_kvs_view, lemma_list_view, list_view, value_eq, Val, Value};

verus! {

broadcast use vstd::std_specs::vec::group_vec_axioms;

/// The result of one comparison on evaluated operands: equality is
/// structural over all shapes; ordering is defined on integers alone;
/// an undefined operand demands a concrete value and fails.
pub open spec fn sp_cmp_vals(op: CmpOp, a: Val, b: Val) -> Result<Val, ErrV> {
    if a is Undef || b is Undef {
        Result::Err(ErrV::Undefined { name: Seq::empty() })
    } else {
        match op {
            CmpOp::Eq => Result::Ok(Val::Bool(a == b)),
            CmpOp::Ne => Result::Ok(Val::Bool(a != b)),
            _ => match (a, b) {
                (Val::Int(x), Val::Int(y)) => Result::Ok(
                    Val::Bool(
                        match op {
                            CmpOp::Lt => x < y,
                            CmpOp::Le => x <= y,
                            CmpOp::Gt => x > y,
                            _ => x >= y,
                        },
                    ),
                ),
                _ => Result::Err(ErrV::TypeErr),
            },
        }
    }
}

/// One call through the binding protocol and the callable's behavior.
pub open spec fn sp_call(
    c: CallableV,
    pos: Seq<Val>,
    kw: Seq<(Seq<char>, Val)>,
    tname: Seq<char>,
) -> Result<Val, ErrV> {
    match sp_bind(c.schema, pos, kw) {
        Result::Err(e) => Result::Err(e),
        Result::Ok(b) => sp_apply(c.body, b, tname),
    }
}

/// The value of an expression in a scope: variable lookups that miss
/// give the undefined marker; attribute access reads mappings and
/// objects and gives the undefined marker on absence; filters and
/// functions resolve in the environment's tables.
pub open spec fn sp_eval(env: EnvV, tname: Seq<char>, scope: Seq<(Seq<char>, Val)>, e: ExprV) -> Result<
    Val,
    ErrV,
>
    decreases e, 0int,
{
    match e {
        ExprV::IntLit(n) => Result::Ok(Val::Int(n)),
        ExprV::StrLit(s) => Result::Ok(Val::Str(s)),
        ExprV::BoolLit(b) => Result::Ok(Val::Bool(b)),
        ExprV::NullLit => Result::Ok(Val::Null),
        ExprV::Var(name) => match assoc(scope, name) {
            Option::Some(v) => Result::Ok(v),
            Option::None => Result::Ok(Val::Undef),
        },
        ExprV::Attr(b, name) => match sp_eval(env, tname, scope, *b) {
            Result::Err(er) => Result::Err(er),
            Result::Ok(v) => match v {
                Val::Dict(entries) => Result::Ok(
                    match assoc(entries, name) {
                        Option::Some(x) => x,
                        Option::None => Val::Undef,
                    },
                ),
                Val::Kwargs(entries) => Result::Ok(
                    match assoc(entries, name) {
                        Option::Some(x) => x,
                        Option::None => Val::Undef,
                    },
                ),
                Val::Obj(attrs) => Result::Ok(
                    match assoc(attrs, name) {
                        Option::Some(x) => x,
                        Option::None => Val::Undef,
                    },
                ),
                Val::Undef => Result::Err(ErrV::Undefined { name }),
                _ => Result::Ok(Val::Undef),
            },
        },
        ExprV::Cmp(op, a, b) => match sp_eval(env, tname, scope, *a) {
            Result::Err(er) => Result::Err(er),
            Result::Ok(va) => match sp_eval(env, tname, scope, *b) {
                Result::Err(er) => Result::Err(er),
                Result::Ok(vb) => sp_cmp_vals(op, va, vb),
            },
        },
        ExprV::Filter(b, name, args) => match sp_eval(env, tname, scope, *b) {
            Result::Err(er) => Result::Err(er),
            Result::Ok(v) => match sp_eval_args(env, tname, scope, args, 0) {
                Result::Err(er) => Result::Err(er),
                Result::Ok((pos, kw)) => match assoc(env.filters, name) {
                    Option::None => Result::Err(ErrV::UnknownFilter { name }),
                    Option::Some(c) => sp_call(c, seq![v] + pos, kw, tname),
                },
            },
        },
        ExprV::Call(name, args) => match sp_eval_args(env, tname, scope, args, 0) {
            Result::Err(er) => Result::Err(er),
            Result::Ok((pos, kw)) => match assoc(env.functions, name) {
                Option::None => Result::Err(ErrV::UnknownFunction { name }),
                Option::Some(c) => sp_call(c, pos, kw, tname),
            },
        },
    }
}

/// The evaluated positional and keyword arguments from position `i`
/// on, left to right.
pub open spec fn sp_eval_args(
    env: EnvV,
    tname: Seq<char>,
    scope: Seq<(Seq<char>, Val)>,
    args: Seq<ArgV>,
    i: int,
) -> Result<(Seq<Val>, Seq<(Seq<char>, Val)>), ErrV>
    decreases args, args.len() - i,
{
    if !(0 <= i < args.len()) {
        Result::Ok((Seq::empty(), Seq::empty()))
    } else {
        match args[i] {
            ArgV::Pos(e) => match sp_eval(env, tname, scope, e) {
                Result::Err(er) => Result::Err(er),
                Result::Ok(v) => match sp_eval_args(env, tname, scope, args, i + 1) {
                    Result::Err(er) => Result::Err(er),
                    Result::Ok((pos, kw)) => Result::Ok((seq![v] + pos, kw)),
                },
            },
            ArgV::Kw(n, e) => match sp_eval(env, tname, scope, e) {
                Result::Err(er) => Result::Err(er),
                Result::Ok(v) => match sp_eval_args(env, tname, scope, args, i + 1) {
                    Result::Err(er) => Result::Err(er),
                    Result::Ok((pos, kw)) => Result::Ok((pos, seq![(n, v)] + kw)),
                },
            },
        }
    }
}

/// Executable expression evaluation.
#[verifier::rlimit(100)]
pub fn eval_expr(env: &Environment, tname: &str, scope: &Vec<(String, Value)>, e: &Expr) -> (r:
    Result<Value, Error>)
    ensures
        match r {
            Result::Ok(v) => sp_eval(env.model(), tname@, kvs_view(scope@), e@) == Result::<
                Val,
                ErrV,
            >::Ok(v@),
            Result::Err(er) => sp_eval(env.model(), tname@, kvs_view(scope@), e@) == Result::<
                Val,
                ErrV,
            >::Err(er@),
        },
    decreases e, 0int,
{
    broadcast use lemma_list_view, lemma_kvs_view;

    match e {
        Expr::IntLit(n) => Ok(Value::Int(*n)),
        Expr::StrLit(s) => Ok(Value::Str(s.clone())),
        Expr::BoolLit(b) => Ok(Value::Bool(*b)),
        Expr::NullLit => Ok(Value::Null),
        Expr::Var(name) => match kvs_get(scope, name.as_str()) {
            Some(v) => Ok(v),
            None => Ok(Value::Undef),
        },
        Expr::Attr(b, name) => {
            let v = eval_expr(env, tname, scope, b)?;
            match &v {
                Value::Dict(entries) => match kvs_get(entries, name.as_str()) {
                    Some(x) => Ok(x),
                    None => Ok(Value::Undef),
                },
                Value::Kwargs(entries) => match kvs_get(entries, name.as_str()) {
                    Some(x) => Ok(x),
                    None => Ok(Value::Undef),
                },
                Value::Obj(o) => {
                    let key = Value::Str(name.clone());
                    match o.get_attribute(&key) {
                        Some(x) => Ok(x),
                        None => Ok(Value::Undef),
                    }
                }
                Value::Undef => Err(Error::Undefined { name: name.clone() }),
                _ => Ok(Value::Undef),
            }
        }
        Expr::Cmp(op, a, b) => {
            let va = eval_expr(env, tname, scope, a)?;
            let vb = eval_expr(env, tname, scope, b)?;
            if matches!(&va, Value::Undef) || matches!(&vb, Value::Undef) {
                return Err(Error::Undefined { name: String::new() });
            }
            match op {
                CmpOp::Eq => Ok(Value::Bool(value_eq(&va, &vb))),
                CmpOp::Ne => Ok(Value::Bool(!value_eq(&va, &vb))),
                _ => match (&va, &vb) {
                    (Value::Int(x), Value::Int(y)) => Ok(
                        Value::Bool(
                            match op {
                                CmpOp::Lt => *x < *y,
                                CmpOp::Le => *x <= *y,
                                CmpOp::Gt => *x > *y,
                                _ => *x >= *y,
                            },
                        ),
                    ),
                    _ => Err(Error::TypeErr),
                },
            }
        }
        Expr::Filter(b, name, args) => {
            let v = eval_expr(env, tname, scope, b)?;
            let (pos, kw) = eval_args(env, tname, scope, args, 0)?;
            let ghost vv = v@;
            let ghost posv = list_view(pos@);
            let mut full = pos;
            full.insert(0, v);
            proof {
                assert(list_view(full@) =~= seq![vv] + posv);
            }
            match cvs_get(&env.filters, name.as_str()) {
                None => Err(Error::UnknownFilter { name: name.clone() }),
                Some(c) => {
                    match bind_args(&c.schema, &full, &kw) {
                        Err(er) => Err(er),
                        Ok(bound) => apply_builtin(&c.body, &bound, tname),
                    }
                }
            }
        }
        Expr::Call(name, args) => {
            let (pos, kw) = eval_args(env, tname, scope, args, 0)?;
            match cvs_get(&env.functions, name.as_str()) {
                None => Err(Error::UnknownFunction { name: name.clone() }),
                Some(c) => {
                    match bind_args(&c.schema, &pos, &kw) {
                        Err(er) => Err(er),
                        Ok(bound) => apply_builtin(&c.body, &bound, tname),
                    }
                }
            }
        }
    }
}

/// Executable argument evaluation, left to right.
pub fn eval_args(
    env: &Environment,
    tname: &str,
    scope: &Vec<(String, Value)>,
    args: &Vec<Arg>,
    i: usize,
) -> (r: Result<(Vec<Value>, Vec<(String, Value)>), Error>)
    requires
        i <= args@.len(),
    ensures
        match r {
            Result::Ok((pos, kw)) => sp_eval_args(
                env.model(),
                tname@,
                kvs_view(scope@),
                args_view(args@),
                i as int,
            ) == Result::<(Seq<Val>, Seq<(Seq<char>, Val)>), ErrV>::Ok(
                (list_view(pos@), kvs_view(kw@)),
            ),
            Result::Err(er) => sp_eval_args(
                env.model(),
                tname@,
                kvs_view(scope@),
                args_view(args@),
                i as int,
            ) == Result::<(Seq<Val>, Seq<(Seq<char>, Val)>), ErrV>::Err(er@),
        },
    decreases args, args@.len() - i,
{
    broadcast use lemma_list_view, lemma_kvs_view, lemma_args_view;

    if i >= args.len() {
        let pos: Vec<Value> = Vec::new();
        let kw: Vec<(String, Value)> = Vec::new();
        proof {
            assert(list_view(pos@) =~= Seq::<Val>::empty());
            assert(kvs_view(kw@) =~= Seq::<(Seq<char>, Val)>::empty());
        }
        return Ok((pos, kw));
    }
    match &args[i] {
        Arg::Pos(e) => {
            let v = eval_expr(env, tname, scope, e)?;
            let ghost vv = v@;
            let (pos, kw) = eval_args(env, tname, scope, args, i + 1)?;
            let ghost posv = list_view(pos@);
            let mut pos2 = pos;
            pos2.insert(0, v);
            proof {
                assert(list_view(pos2@) =~= seq![vv] + posv);
            }
            Ok((pos2, kw))
        }
        Arg::Kw(n, e) => {
            let v = eval_expr(env, tname, scope, e)?;
            let ghost vv = v@;
            let ghost nv = n@;
            let (pos, kw) = eval_args(env, tname, scope, args, i + 1)?;
            let ghost kwv = kvs_view(kw@);
            let mut kw2 = kw;
            kw2.insert(0, (n.clone(), v));
            proof {
                assert(kvs_view(kw2@) =~= seq![(nv, vv)] + kwv);
            }
            Ok((pos, kw2))
        }
    }
}

/// What one evaluation produces: output text, the final scope, and the
/// bindings introduced by assignments, in order.
pub struct RunV {
    pub out: Seq<char>,
    pub scope: Seq<(Seq<char>, Val)>,
    pub exports: Seq<(Seq<char>, Val)>,
}

/// The evaluation of the nodes from `i` on: text is emitted verbatim,
/// emitted expressions render per `sp_fmt`, and assignments bind a name
/// for every later node and are captured as exports.
pub open spec fn sp_run(
    env: EnvV,
    tname: Seq<char>,
    nodes: Seq<NodeV>,
    i: int,
    scope: Seq<(Seq<char>, Val)>,
) -> Result<RunV, ErrV>
    decreases nodes.len() - i,
{
    if !(0 <= i < nodes.len()) {
        Result::Ok(RunV { out: Seq::empty(), scope, exports: Seq::empty() })
    } else {
        match nodes[i] {
            NodeV::Text(t) => match sp_run(env, tname, nodes, i + 1, scope) {
                Result::Err(er) => Result::Err(er),
                Result::Ok(rest) => Result::Ok(
                    RunV { out: t + rest.out, scope: rest.scope, exports: rest.exports },
                ),
            },
            NodeV::Emit(e) => match sp_eval(env, tname, scope, e) {
                Result::Err(er) => Result::Err(er),
                Result::Ok(v) => match sp_run(env, tname, nodes, i + 1, scope) {
                    Result::Err(er) => Result::Err(er),
                    Result::Ok(rest) => Result::Ok(
                        RunV { out: sp_fmt(v) + rest.out, scope: rest.scope, exports: rest.exports },
                    ),
                },
            },
            NodeV::Assign(name, e) => match sp_eval(env, tname, scope, e) {
                Result::Err(er) => Result::Err(er),
                Result::Ok(v) => match sp_run(env, tname, nodes, i + 1, scope.push((name, v))) {
                    Result::Err(er) => Result::Err(er),
                    Result::Ok(rest) => Result::Ok(
                        RunV {
                            out: rest.out,
                            scope: rest.scope,
                            exports: seq![(name, v)] + rest.exports,
                        },
                    ),
                },
            },
        }
    }
}

/// Executable node evaluation from `i` on, with the scope moved in.
#[verifier::rlimit(100)]
pub fn run_nodes(
    env: &Environment,
    tname: &str,
    nodes: &Vec<Node>,
    i: usize,
    scope: Vec<(String, Value)>,
) -> (r: Result<(Vec<char>, Vec<(String, Value)>, Vec<(String, Value)>), Error>)
    requires
        i <= nodes@.len(),
    ensures
        match r {
            Result::Ok((out, fsc, exp)) => sp_run(
                env.model(),
                tname@,
                nodes_view(nodes@),
                i as int,
                kvs_view(scope@),
            ) == Result::<RunV, ErrV>::Ok(
                RunV { out: out@, scope: kvs_view(fsc@), exports: kvs_view(exp@) },
            ),
            Result::Err(er) => sp_run(
                env.model(),
                tname@,
                nodes_view(nodes@),
                i as int,
                kvs_view(scope@),
            ) == Result::<RunV, ErrV>::Err(er@),
        },
    decreases nodes@.len() - i,
{
    broadcast use lemma_nodes_view, lemma_kvs_view;

    if i >= nodes.len() {
        let out: Vec<char> = Vec::new();
        let exp: Vec<(String, Value)> = Vec::new();
        proof {
            assert(out@ =~= Seq::<char>::empty());
            assert(kvs_view(exp@) =~= Seq::<(Seq<char>, Val)>::empty());
        }
        return Ok((out, scope, exp));
    }
    match &nodes[i] {
        Node::Text(t) => {
            let (rest_out, fsc, exp) = run_nodes(env, tname, nodes, i + 1, scope)?;
            let ghost rv = rest_out@;
            let mut out: Vec<char> = Vec::new();
            crate::fmt::push_str_chars(&mut out, t.as_str());
            let mut tail = rest_out;
            out.append(&mut tail);
            proof {
                assert(out@ =~= t@ + rv);
            }
            Ok((out, fsc, exp))
        }
        Node::Emit(e) => {
            let v = eval_expr(env, tname, &scope, e)?;
            let ghost vv = v@;
            let mut out: Vec<char> = Vec::new();
            push_fmt(&mut out, &v);
            let (rest_out, fsc, exp) = run_nodes(env, tname, nodes, i + 1, scope)?;
            let ghost rv = rest_out@;
            let mut tail = rest_out;
            out.append(&mut tail);
            proof {
                assert(out@ =~= sp_fmt(vv) + rv);
            }
            Ok((out, fsc, exp))
        }
        Node::Assign(name, e) => {
            let v = eval_expr(env, tname, &scope, e)?;
            let ghost vv = v@;
            let ghost nv = name@;
            let ghost sc0 = kvs_view(scope@);
            let mut scope2 = scope;
            scope2.push((name.clone(), v.dup()));
            proof {
                assert(kvs_view(scope2@) =~= sc0.push((nv, vv)));
            }
            let (out, fsc, exp) = run_nodes(env, tname, nodes, i + 1, scope2)?;
            let ghost ev = kvs_view(exp@);
            let mut exp2 = exp;
            exp2.insert(0, (name.clone(), v));
            proof {
                assert(kvs_view(exp2@) =~= seq![(nv, vv)] + ev);
            }
            Ok((out, fsc, exp2))
        }
    }
}

/// The entries a map-shaped context seeds the scope with.
pub open spec fn sp_ctx_entries(v: Val) -> Option<Seq<(Seq<char>, Val)>> {
    match v {
        Val::Dict(e) => Option::Some(e),
        Val::Kwargs(e) => Option::Some(e),
        Val::Obj(e) => Option::Some(e),
        _ => Option::None,
    }
}

/// One full render of a node sequence against a context value.
pub open spec fn sp_render(env: EnvV, tname: Seq<char>, nodes: Seq<NodeV>, ctx: Val) -> Result<
    RunV,
    ErrV,
> {
    match sp_ctx_entries(ctx) {
        Option::None => Result::Err(ErrV::InvalidContext),
        Option::Some(sc) => sp_run(env, tname, nodes, 0, sc),
    }
}

/// Executable full render of a node sequence against a context value.
pub fn render_nodes(env: &Environment, tname: &str, nodes: &Vec<Node>, ctx: &Value) -> (r: Result<
    (Vec<char>, Vec<(String, Value)>, Vec<(String, Value)>),
    Error,
>)
    ensures
        match r {
            Result::Ok((out, fsc, exp)) => sp_render(env.model(), tname@, nodes_view(nodes@), ctx@)
                == Result::<RunV, ErrV>::Ok(
                RunV { out: out@, scope: kvs_view(fsc@), exports: kvs_view(exp@) },
            ),
            Result::Err(er) => sp_render(env.model(), tname@, nodes_view(nodes@), ctx@)
                == Result::<RunV, ErrV>::Err(er@),
        },
{
    let entries: &Vec<(String, Value)> = match ctx {
        Value::Dict(e) => e,
        Value::Kwargs(e) => e,
        Value::Obj(o) => &o.attrs,
        _ => {
            return Err(Error::InvalidContext);
        }
    };
    let scope = crate::value::dup_kvs(entries);
    run_nodes(env, tname, nodes, 0, scope)
}

} // verus!
