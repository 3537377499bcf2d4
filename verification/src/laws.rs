//! Laws of the engine, stated over the models that the public
//! functions' contracts use.

use vstd::prelude::*;

use crate::bind::{sp_bind, sp_bound, BoundV, ParamV, SchemaV};
use crate::env::EnvV;
use crate::err::ErrV;
use crate::eval::{sp_eval, sp_render, RunV};
use crate::ir::{ExprV, NodeV};
use crate::value::{assoc, Val};

verus! {

/// Rendering is a pure function of the template, the environment's
/// tables and the context: two renders of the same template with the
/// same context yield identical output and identical final-state
/// snapshots — in particular, output length is deterministic.
pub proof fn lemma_render_deterministic(
    env: EnvV,
    tname: Seq<char>,
    nodes: Seq<NodeV>,
    ctx: Val,
    r1: RunV,
    r2: RunV,
)
    requires
        sp_render(env, tname, nodes, ctx) == Result::<RunV, ErrV>::Ok(r1),
        sp_render(env, tname, nodes, ctx) == Result::<RunV, ErrV>::Ok(r2),
    ensures
        r1.out == r2.out,
        r1.out.len() == r2.out.len(),
        r1.scope == r2.scope,
        r1.exports == r2.exports,
{
}

/// Attribute access on an object returns exactly the registered value
/// for a registered name, and the undefined marker — not an error —
/// for any other name.
pub proof fn lemma_object_attribute(
    env: EnvV,
    tname: Seq<char>,
    scope: Seq<(Seq<char>, Val)>,
    obj_name: Seq<char>,
    attrs: Seq<(Seq<char>, Val)>,
    attr: Seq<char>,
)
    requires
        assoc(scope, obj_name) == Option::Some(Val::Obj(attrs)),
    ensures
        sp_eval(env, tname, scope, ExprV::Attr(Box::new(ExprV::Var(obj_name)), attr)) == (
        match assoc(attrs, attr) {
            Option::Some(v) => Result::<Val, ErrV>::Ok(v),
            Option::None => Result::<Val, ErrV>::Ok(Val::Undef),
        }),
{
    let e = ExprV::Attr(Box::new(ExprV::Var(obj_name)), attr);
    assert(sp_eval(env, tname, scope, ExprV::Var(obj_name)) == Result::<Val, ErrV>::Ok(
        Val::Obj(attrs),
    ));
    assert(sp_eval(env, tname, scope, e) == (match assoc(attrs, attr) {
        Option::Some(v) => Result::<Val, ErrV>::Ok(v),
        Option::None => Result::<Val, ErrV>::Ok(Val::Undef),
    }));
}

/// Binding keyword arguments that each match a declared parameter fills
/// those parameters and leaves the keyword collector empty.
pub proof fn lemma_kw_binding_fills_params(schema: SchemaV, kw: Seq<(Seq<char>, Val)>, b: BoundV)
    requires
        sp_bind(schema, Seq::empty(), kw) == Result::<BoundV, ErrV>::Ok(b),
        forall|k: int|
            0 <= k < kw.len() ==> crate::bind::kw_consumed(schema.params, 0, (#[trigger] kw[k]).0),
    ensures
        b.kwrest == Seq::<(Seq<char>, Val)>::empty(),
        forall|j: int|
            0 <= j < schema.params.len() ==> (#[trigger] b.named[j]) == assoc(
                kw,
                schema.params[j].name,
            ),
{
    assert(b == sp_bound(schema, Seq::empty(), kw));
    if schema.has_kwrest {
        lemma_kwrest_consumed(schema.params, 0, kw);
    }
    assert forall|j: int|
        0 <= j < schema.params.len() implies (#[trigger] b.named[j]) == assoc(
        kw,
        schema.params[j].name,
    ) by {
        assert(b.named[j] == crate::bind::sp_fill(schema.params, j, Seq::empty(), kw));
    }
}

/// With no positional arguments, a keyword argument naming any declared
/// parameter is consumed, so the keyword collector stays empty.
proof fn lemma_kwrest_consumed(params: Seq<ParamV>, pos_len: int, kw: Seq<(Seq<char>, Val)>)
    requires
        pos_len == 0,
        forall|k: int|
            0 <= k < kw.len() ==> crate::bind::kw_consumed(params, pos_len, (#[trigger] kw[k]).0),
    ensures
        crate::bind::sp_kwrest(params, pos_len, kw) == Seq::<(Seq<char>, Val)>::empty(),
    decreases kw.len(),
{
    if kw.len() > 0 {
        assert forall|k: int|
            0 <= k < kw.drop_last().len() implies crate::bind::kw_consumed(
            params,
            pos_len,
            (#[trigger] kw.drop_last()[k]).0,
        ) by {
            assert(kw.drop_last()[k] == kw[k]);
        }
        lemma_kwrest_consumed(params, pos_len, kw.drop_last());
        let k = kw.len() - 1;
        assert(kw[k] == kw.last());
        assert(crate::bind::kw_consumed(params, pos_len, kw.last().0));
        assert(crate::bind::sp_kwrest(params, pos_len, kw) =~= Seq::<(Seq<char>, Val)>::empty());
    }
}

/// A callable declaring no parameters but a variadic collector receives
/// every positional argument, in order, in that collector.
pub proof fn lemma_variadic_rest(schema: SchemaV, pos: Seq<Val>, kw: Seq<(Seq<char>, Val)>, b: BoundV)
    requires
        schema.params.len() == 0,
        schema.has_rest,
        sp_bind(schema, pos, kw) == Result::<BoundV, ErrV>::Ok(b),
    ensures
        b.rest == pos,
{
    assert(b == sp_bound(schema, pos, kw));
    if pos.len() > 0 {
        assert(pos.skip(0) =~= pos);
    } else {
        assert(pos =~= Seq::<Val>::empty());
    }
}

} // verus!
