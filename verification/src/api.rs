//! The rendering surface: template rendering in its buffered, state-
//! returning and sink-appending forms, one-shot compile-and-render,
//! expression-only evaluation, and template introspection.

use vstd::prelude::*;

use crate::analyze::{sp_undeclared, strs_nodup, strs_set, undeclared_of_nodes};
use crate::env::{Environment, Template};
use crate::err::{ErrV, Error};
use crate::eval::{eval_expr, render_nodes, sp_eval, sp_render, RunV};
use crate::ir::{nodes_view, Expr, ExprV};
use crate::parse::{compile_source, sp_compile, sp_expr_of};
use crate::text::collect_chars;
use crate::value::{assoc, kvs_get, kvs_view, Val, Value};

verus! {

broadcast use vstd::std_specs::vec::group_vec_axioms;

/// The scope snapshot an evaluation ends with: every binding (context
/// entries and assignments, latest last), and the assignments alone.
pub struct FinalState {
    pub bindings: Vec<(String, Value)>,
    pub exported: Vec<(String, Value)>,
}

impl FinalState {
    /// Every binding, in order; the latest binding of a name wins.
    pub open spec fn bindings_model(&self) -> Seq<(Seq<char>, Val)> {
        kvs_view(self.bindings@)
    }

    /// The bindings assignments introduced, in order.
    pub open spec fn exports_model(&self) -> Seq<(Seq<char>, Val)> {
        kvs_view(self.exported@)
    }

    /// Read-only access to any binding of the final scope.
    pub fn lookup(&self, name: &str) -> (r: Option<Value>)
        ensures
            match assoc(self.bindings_model(), name@) {
                Option::Some(m) => r is Some && r->0@ == m,
                Option::None => r is None,
            },
    {
        kvs_get(&self.bindings, name)
    }

    /// The bindings introduced during evaluation, in order.
    pub fn exports<'a>(&'a self) -> (r: &'a Vec<(String, Value)>)
        ensures
            kvs_view(r@) == self.exports_model(),
    {
        &self.exported
    }
}

impl Template {
    /// Renders this template against a context value, buffering the
    /// output text.
    pub fn render(&self, env: &Environment, ctx: &Value) -> (r: Result<String, Error>)
        ensures
            match r {
                Result::Ok(s) => sp_render(env.model(), self@.name, self@.nodes, ctx@) is Ok && s@
                    == sp_render(env.model(), self@.name, self@.nodes, ctx@)->Ok_0.out,
                Result::Err(e) => sp_render(env.model(), self@.name, self@.nodes, ctx@)
                    == Result::<RunV, ErrV>::Err(e@),
            },
    {
        match render_nodes(env, self.name.as_str(), &self.nodes, ctx) {
            Ok((out, _, _)) => Ok(collect_chars(&out)),
            Err(e) => Err(e),
        }
    }

    /// Renders and also returns the final scope snapshot.
    pub fn render_and_return_state(&self, env: &Environment, ctx: &Value) -> (r: Result<
        (String, FinalState),
        Error,
    >)
        ensures
            match r {
                Result::Ok((s, st)) => sp_render(env.model(), self@.name, self@.nodes, ctx@) is Ok
                    && {
                    let run = sp_render(env.model(), self@.name, self@.nodes, ctx@)->Ok_0;
                    s@ == run.out && st.bindings_model() == run.scope && st.exports_model()
                        == run.exports
                },
                Result::Err(e) => sp_render(env.model(), self@.name, self@.nodes, ctx@)
                    == Result::<RunV, ErrV>::Err(e@),
            },
    {
        match render_nodes(env, self.name.as_str(), &self.nodes, ctx) {
            Ok((out, fsc, exp)) => Ok(
                (collect_chars(&out), FinalState { bindings: fsc, exported: exp }),
            ),
            Err(e) => Err(e),
        }
    }

    /// Evaluates without keeping output, returning only the final
    /// scope snapshot.
    pub fn eval_to_state(&self, env: &Environment, ctx: &Value) -> (r: Result<FinalState, Error>)
        ensures
            match r {
                Result::Ok(st) => sp_render(env.model(), self@.name, self@.nodes, ctx@) is Ok && {
                    let run = sp_render(env.model(), self@.name, self@.nodes, ctx@)->Ok_0;
                    st.bindings_model() == run.scope && st.exports_model() == run.exports
                },
                Result::Err(e) => sp_render(env.model(), self@.name, self@.nodes, ctx@)
                    == Result::<RunV, ErrV>::Err(e@),
            },
    {
        match render_nodes(env, self.name.as_str(), &self.nodes, ctx) {
            Ok((_, fsc, exp)) => Ok(FinalState { bindings: fsc, exported: exp }),
            Err(e) => Err(e),
        }
    }

    /// Renders into a caller-provided sink, appending the output text.
    /// On an error the sink is left as it was: partial output is not
    /// written.
    pub fn render_to_sink(&self, env: &Environment, ctx: &Value, sink: &mut String) -> (r: Result<
        (),
        Error,
    >)
        ensures
            match r {
                Result::Ok(_) => sp_render(env.model(), self@.name, self@.nodes, ctx@) is Ok
                    && final(sink)@ == old(sink)@ + sp_render(
                    env.model(),
                    self@.name,
                    self@.nodes,
                    ctx@,
                )->Ok_0.out,
                Result::Err(e) => sp_render(env.model(), self@.name, self@.nodes, ctx@)
                    == Result::<RunV, ErrV>::Err(e@) && final(sink)@ == old(sink)@,
            },
    {
        match render_nodes(env, self.name.as_str(), &self.nodes, ctx) {
            Ok((out, _, _)) => {
                let chunk = collect_chars(&out);
                sink.append(chunk.as_str());
                Ok(())
            }
            Err(e) => Err(e),
        }
    }

    /// The names this template reads but never assigns, each once; with
    /// `track_paths`, dotted attribute paths instead of root names.
    pub fn undeclared_variables(&self, track_paths: bool) -> (r: Vec<String>)
        ensures
            strs_set(r@) == sp_undeclared(self@.nodes, track_paths),
            strs_nodup(r@),
    {
        undeclared_of_nodes(&self.nodes, track_paths)
    }
}

/// A compiled single expression, for condition checks.
pub struct Expression {
    pub expr: Expr,
}

impl View for Expression {
    type V = ExprV;

    open spec fn view(&self) -> ExprV {
        self.expr@
    }
}

/// The value of a single compiled expression against a context value:
/// the scope is seeded from the context, and the expression evaluates
/// with no enclosing template (the empty template name).
pub open spec fn sp_eval_expression(env: crate::env::EnvV, e: ExprV, ctx: Val) -> Result<
    Val,
    ErrV,
> {
    match crate::eval::sp_ctx_entries(ctx) {
        Option::None => Result::Err(ErrV::InvalidContext),
        Option::Some(sc) => sp_eval(env, Seq::empty(), sc, e),
    }
}

impl Expression {
    /// Evaluates the expression against a context value.
    pub fn eval(&self, env: &Environment, ctx: &Value) -> (r: Result<Value, Error>)
        ensures
            match r {
                Result::Ok(v) => sp_eval_expression(env.model(), self@, ctx@) == Result::<
                    Val,
                    ErrV,
                >::Ok(v@),
                Result::Err(e) => sp_eval_expression(env.model(), self@, ctx@) == Result::<
                    Val,
                    ErrV,
                >::Err(e@),
            },
    {
        let entries: &Vec<(String, Value)> = match ctx {
            Value::Dict(e) => e,
            Value::Kwargs(e) => e,
            Value::Obj(o) => &o.attrs,
            _ => {
                return Err(Error::InvalidContext);
            }
        };
        let scope = crate::value::dup_kvs(entries);
        proof {
            reveal_strlit("");
            assert(""@ =~= Seq::<char>::empty());
        }
        eval_expr(env, "", &scope, &self.expr)
    }
}

impl Environment {
    /// Compiles a single expression.
    pub fn compile_expression(&self, source: &str) -> (r: Result<Expression, Error>)
        ensures
            match r {
                Result::Ok(ex) => sp_expr_of(source@) == Option::Some(ex@),
                Result::Err(e) => sp_expr_of(source@) is None && e@ is Syntax,
            },
    {
        let cs = crate::text::str_chars(source);
        match crate::parse::expr_of(&cs) {
            Ok(e) => Ok(Expression { expr: e }),
            Err(_) => Err(Error::Syntax { pos: 0 }),
        }
    }

    /// Compiles and renders in one go, without retaining the template.
    pub fn render_named_str(&self, name: &str, source: &str, ctx: &Value) -> (r: Result<
        String,
        Error,
    >)
        ensures
            match r {
                Result::Ok(s) => sp_compile(source@) is Some && sp_render(
                    self.model(),
                    name@,
                    sp_compile(source@)->0,
                    ctx@,
                ) is Ok && s@ == sp_render(self.model(), name@, sp_compile(source@)->0, ctx@)->Ok_0.out,
                Result::Err(e) => (sp_compile(source@) is None && e@ is Syntax) || (sp_compile(
                    source@,
                ) is Some && sp_render(self.model(), name@, sp_compile(source@)->0, ctx@)
                    == Result::<RunV, ErrV>::Err(e@)),
            },
    {
        match compile_source(source) {
            Err(pos) => Err(Error::Syntax { pos }),
            Ok(nodes) => match render_nodes(self, name, &nodes, ctx) {
                Ok((out, _, _)) => Ok(collect_chars(&out)),
                Err(e) => Err(e),
            },
        }
    }
}

} // verus!
