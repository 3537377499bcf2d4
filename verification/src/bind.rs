//! The call-binding protocol: resolving a call site's positional and
//! keyword arguments against a callable's declared parameter shape.
//! Positional arguments fill declared parameters left to right; the
//! remaining declared parameters are filled from keyword arguments by
//! name; extra positional arguments go to the variadic collector if one
//! is declared; keyword arguments matching no parameter go to the
//! keyword collector if one is declared. The protocol itself enforces
//! the no-unused-keyword-argument policy: with no keyword collector, a
//! keyword argument that fills no parameter fails the call.

use vstd::prelude::*;

use crate::err::{ErrV, Error};
use crate::value::{assoc, kvs_get, kvs_view, lemma_kvs_view, lemma_list_view, list_view, Val, Value};

verus! {

broadcast use vstd::std_specs::vec::group_vec_axioms;

/// The shape a supplied value must have for a parameter.
#[derive(Clone, Copy, PartialEq, Eq, Structural)]
pub enum ParamTy {
    Any,
    Bool,
    Int,
    Str,
    List,
}

/// One declared parameter.
pub struct Param {
    pub name: String,
    pub required: bool,
    pub ty: ParamTy,
}

/// Model of a declared parameter.
pub struct ParamV {
    pub name: Seq<char>,
    pub required: bool,
    pub ty: ParamTy,
}

impl View for Param {
    type V = ParamV;

    open spec fn view(&self) -> ParamV {
        ParamV { name: self.name@, required: self.required, ty: self.ty }
    }
}

/// A callable's declared parameter shape.
pub struct Schema {
    pub params: Vec<Param>,
    pub has_rest: bool,
    pub has_kwrest: bool,
}

/// Model of a parameter shape.
pub struct SchemaV {
    pub params: Seq<ParamV>,
    pub has_rest: bool,
    pub has_kwrest: bool,
}

/// The model of a parameter vector, elementwise.
pub open spec fn params_view(s: Seq<Param>) -> Seq<ParamV>
    decreases s,
{
    if s.len() == 0 {
        Seq::empty()
    } else {
        params_view(s.drop_last()).push(s.last()@)
    }
}

pub broadcast proof fn lemma_params_view(s: Seq<Param>)
    ensures
        (#[trigger] params_view(s)).len() == s.len(),
        forall|i: int| 0 <= i < s.len() ==> params_view(s)[i] == s[i]@,
    decreases s.len(),
{
    if s.len() > 0 {
        lemma_params_view(s.drop_last());
        assert(params_view(s) == params_view(s.drop_last()).push(s.last()@));
        assert forall|i: int| 0 <= i < s.len() implies params_view(s)[i] == s[i]@ by {
            if i < s.len() - 1 {
                assert(s.drop_last()[i] == s[i]);
                assert(params_view(s)[i] == params_view(s.drop_last())[i]);
            } else {
                assert(s[i] == s.last());
            }
        }
    }
}

impl View for Schema {
    type V = SchemaV;

    open spec fn view(&self) -> SchemaV {
        SchemaV {
            params: params_view(self.params@),
            has_rest: self.has_rest,
            has_kwrest: self.has_kwrest,
        }
    }
}

/// The bound arguments handed to a callable: one slot per declared
/// parameter, the variadic collector, and the keyword collector.
pub struct Bound {
    pub named: Vec<Option<Value>>,
    pub rest: Vec<Value>,
    pub kwrest: Vec<(String, Value)>,
}

/// Model of bound arguments.
pub struct BoundV {
    pub named: Seq<Option<Val>>,
    pub rest: Seq<Val>,
    pub kwrest: Seq<(Seq<char>, Val)>,
}

/// The model of a vector of optional values, elementwise.
pub open spec fn opts_view(s: Seq<Option<Value>>) -> Seq<Option<Val>>
    decreases s,
{
    if s.len() == 0 {
        Seq::empty()
    } else {
        opts_view(s.drop_last()).push(
            match s.last() {
                Option::Some(v) => Option::Some(v@),
                Option::None => Option::None,
            },
        )
    }
}

pub broadcast proof fn lemma_opts_view(s: Seq<Option<Value>>)
    ensures
        (#[trigger] opts_view(s)).len() == s.len(),
        forall|i: int|
            0 <= i < s.len() ==> opts_view(s)[i] == (match s[i] {
                Option::Some(v) => Option::<Val>::Some(v@),
                Option::None => Option::<Val>::None,
            }),
    decreases s.len(),
{
    if s.len() > 0 {
        lemma_opts_view(s.drop_last());
        assert(opts_view(s).len() == s.len());
        assert forall|i: int|
            0 <= i < s.len() implies opts_view(s)[i] == (match s[i] {
            Option::Some(v) => Option::<Val>::Some(v@),
            Option::None => Option::<Val>::None,
        }) by {
            if i < s.len() - 1 {
                assert(s.drop_last()[i] == s[i]);
                assert(opts_view(s)[i] == opts_view(s.drop_last())[i]);
            } else {
                assert(s[i] == s.last());
            }
        }
    }
}

impl View for Bound {
    type V = BoundV;

    open spec fn view(&self) -> BoundV {
        BoundV {
            named: opts_view(self.named@),
            rest: list_view(self.rest@),
            kwrest: kvs_view(self.kwrest@),
        }
    }
}

/// Whether a value has the shape a parameter demands.
pub open spec fn ty_ok(ty: ParamTy, v: Val) -> bool {
    match ty {
        ParamTy::Any => true,
        ParamTy::Bool => v is Bool,
        ParamTy::Int => v is Int,
        ParamTy::Str => v is Str,
        ParamTy::List => v is List,
    }
}

/// The value bound to parameter `k`: positional first, then by name.
pub open spec fn sp_fill(params: Seq<ParamV>, k: int, pos: Seq<Val>, kw: Seq<(Seq<char>, Val)>) -> Option<Val> {
    if 0 <= k < pos.len() {
        Option::Some(pos[k])
    } else {
        assoc(kw, params[k].name)
    }
}

/// The first binding failure among parameters `k` and later: a supplied
/// value of the wrong shape, or a required parameter left unfilled.
pub open spec fn sp_check_params(
    params: Seq<ParamV>,
    k: int,
    pos: Seq<Val>,
    kw: Seq<(Seq<char>, Val)>,
) -> Option<ErrV>
    decreases params.len() - k,
{
    if !(0 <= k < params.len()) {
        Option::None
    } else {
        match sp_fill(params, k, pos, kw) {
            Option::Some(v) => if !ty_ok(params[k].ty, v) {
                Option::Some(ErrV::ArgumentTypeErr { param: params[k].name })
            } else {
                sp_check_params(params, k + 1, pos, kw)
            },
            Option::None => if params[k].required {
                Option::Some(ErrV::MissingArgument { param: params[k].name })
            } else {
                sp_check_params(params, k + 1, pos, kw)
            },
        }
    }
}

/// Whether a keyword argument of this name fills some declared
/// parameter not already filled positionally.
pub open spec fn kw_consumed(params: Seq<ParamV>, pos_len: int, name: Seq<char>) -> bool {
    exists|j: int| 0 <= j < params.len() && params[j].name == name && j >= pos_len
}

/// The first keyword argument that fills no parameter.
pub open spec fn sp_first_unused(
    params: Seq<ParamV>,
    pos_len: int,
    kw: Seq<(Seq<char>, Val)>,
    k: int,
) -> Option<Seq<char>>
    decreases kw.len() - k,
{
    if !(0 <= k < kw.len()) {
        Option::None
    } else if !kw_consumed(params, pos_len, kw[k].0) {
        Option::Some(kw[k].0)
    } else {
        sp_first_unused(params, pos_len, kw, k + 1)
    }
}

/// The keyword arguments that fill no parameter, in order.
pub open spec fn sp_kwrest(params: Seq<ParamV>, pos_len: int, kw: Seq<(Seq<char>, Val)>) -> Seq<
    (Seq<char>, Val),
>
    decreases kw,
{
    if kw.len() == 0 {
        Seq::empty()
    } else {
        sp_kwrest(params, pos_len, kw.drop_last()) + (if kw_consumed(params, pos_len, kw.last().0) {
            Seq::empty()
        } else {
            seq![kw.last()]
        })
    }
}

/// The bound arguments for a call, or the first binding failure:
/// parameter checks in declaration order, then the extra-positional
/// check, then the unused-keyword check.
pub open spec fn sp_bind(schema: SchemaV, pos: Seq<Val>, kw: Seq<(Seq<char>, Val)>) -> Result<
    BoundV,
    ErrV,
> {
    let np = schema.params.len() as int;
    match sp_check_params(schema.params, 0, pos, kw) {
        Option::Some(e) => Result::Err(e),
        Option::None => if pos.len() > np && !schema.has_rest {
            Result::Err(ErrV::TooManyArguments)
        } else {
            match sp_first_unused(schema.params, pos.len() as int, kw, 0) {
                Option::Some(name) => if schema.has_kwrest {
                    Result::Ok(sp_bound(schema, pos, kw))
                } else {
                    Result::Err(ErrV::UnusedKeywordArgument { name })
                },
                Option::None => Result::Ok(sp_bound(schema, pos, kw)),
            }
        },
    }
}

/// The successful binding: one slot per parameter, the overflowing
/// positional arguments, and the uncollected keyword arguments.
pub open spec fn sp_bound(schema: SchemaV, pos: Seq<Val>, kw: Seq<(Seq<char>, Val)>) -> BoundV {
    let np = schema.params.len() as int;
    BoundV {
        named: Seq::new(schema.params.len(), |k: int| sp_fill(schema.params, k, pos, kw)),
        rest: if pos.len() > np {
            pos.skip(np)
        } else {
            Seq::empty()
        },
        kwrest: if schema.has_kwrest {
            sp_kwrest(schema.params, pos.len() as int, kw)
        } else {
            Seq::empty()
        },
    }
}

/// Whether a keyword argument of this name is consumed by the schema.
#[verifier::loop_isolation(false)]
fn consumed(params: &Vec<Param>, pos_len: usize, name: &str) -> (r: bool)
    ensures
        r == kw_consumed(params_view(params@), pos_len as int, name@),
{
    broadcast use lemma_params_view;

    let mut j: usize = 0;
    while j < params.len()
        invariant
            j <= params@.len(),
            forall|t: int|
                0 <= t < j ==> !(params_view(params@)[t].name == name@ && t >= pos_len as int),
        decreases params@.len() - j,
    {
        if j >= pos_len && crate::value::str_eq(params[j].name.as_str(), name) {
            proof {
                let jj = j as int;
                assert(0 <= jj < params_view(params@).len() && params_view(params@)[jj].name
                    == name@ && jj >= pos_len as int);
            }
            return true;
        }
        j += 1;
    }
    assert(!kw_consumed(params_view(params@), pos_len as int, name@));
    false
}

/// Binds a call site's arguments against a schema. Returns the bound
/// arguments exactly when the model accepts the call, and the model's
/// error otherwise.
#[verifier::rlimit(100)]
#[verifier::loop_isolation(false)]
pub fn bind_args(schema: &Schema, pos: &Vec<Value>, kw: &Vec<(String, Value)>) -> (r: Result<
    Bound,
    Error,
>)
    ensures
        match r {
            Result::Ok(b) => sp_bind(schema@, list_view(pos@), kvs_view(kw@)) == Result::<
                BoundV,
                ErrV,
            >::Ok(b@),
            Result::Err(e) => sp_bind(schema@, list_view(pos@), kvs_view(kw@)) == Result::<
                BoundV,
                ErrV,
            >::Err(e@),
        },
{
    broadcast use lemma_params_view, lemma_kvs_view, lemma_list_view, lemma_opts_view;

    let ghost pv = params_view(schema.params@);
    let ghost posv = list_view(pos@);
    let ghost kwv = kvs_view(kw@);
    let np = schema.params.len();

    // parameter slots, with shape and missing checks in order
    let mut named: Vec<Option<Value>> = Vec::new();
    let mut k: usize = 0;
    while k < np
        invariant
            k <= np,
            np == schema.params@.len(),
            named@.len() == k,
            sp_check_params(pv, 0, posv, kwv) == sp_check_params(pv, k as int, posv, kwv),
            forall|t: int|
                0 <= t < k ==> opts_view(named@)[t] == sp_fill(pv, t, posv, kwv),
        decreases np - k,
    {
        let filled: Option<Value> = if k < pos.len() {
            Some(pos[k].dup())
        } else {
            kvs_get(kw, schema.params[k].name.as_str())
        };
        match &filled {
            Some(v) => {
                let ok = match schema.params[k].ty {
                    ParamTy::Any => true,
                    ParamTy::Bool => matches!(v, Value::Bool(_)),
                    ParamTy::Int => matches!(v, Value::Int(_)),
                    ParamTy::Str => matches!(v, Value::Str(_)),
                    ParamTy::List => matches!(v, Value::List(_)),
                };
                if !ok {
                    return Err(Error::ArgumentTypeErr { param: schema.params[k].name.clone() });
                }
            }
            None => {
                if schema.params[k].required {
                    return Err(Error::MissingArgument { param: schema.params[k].name.clone() });
                }
            }
        }
        named.push(filled);
        k += 1;
    }

    // extra positional arguments
    if pos.len() > np && !schema.has_rest {
        return Err(Error::TooManyArguments);
    }
    let mut rest: Vec<Value> = Vec::new();
    if pos.len() > np {
        let mut t: usize = np;
        while t < pos.len()
            invariant
                np <= t <= pos@.len(),
                list_view(rest@) =~= posv.subrange(np as int, t as int),
            decreases pos@.len() - t,
        {
            rest.push(pos[t].dup());
            proof {
                assert(list_view(rest@) =~= posv.subrange(np as int, t as int + 1));
            }
            t += 1;
        }
    }

    // unused keyword arguments
    let mut u: usize = 0;
    while u < kw.len()
        invariant
            u <= kw@.len(),
            sp_first_unused(pv, posv.len() as int, kwv, 0) == sp_first_unused(
                pv,
                posv.len() as int,
                kwv,
                u as int,
            ),
        decreases kw@.len() - u,
    {
        if !consumed(&schema.params, pos.len(), kw[u].0.as_str()) {
            if !schema.has_kwrest {
                return Err(Error::UnusedKeywordArgument { name: kw[u].0.clone() });
            }
            break;
        }
        u += 1;
    }

    // keyword collector
    let mut kwrest: Vec<(String, Value)> = Vec::new();
    if schema.has_kwrest {
        let mut t: usize = 0;
        while t < kw.len()
            invariant
                t <= kw@.len(),
                kvs_view(kwrest@) =~= sp_kwrest(pv, posv.len() as int, kwv.take(t as int)),
            decreases kw@.len() - t,
        {
            proof {
                assert(kwv.take(t as int + 1).drop_last() =~= kwv.take(t as int));
                assert(kwv.take(t as int + 1).last() == kwv[t as int]);
            }
            if !consumed(&schema.params, pos.len(), kw[t].0.as_str()) {
                kwrest.push((kw[t].0.clone(), kw[t].1.dup()));
            }
            proof {
                assert(kvs_view(kwrest@) =~= sp_kwrest(pv, posv.len() as int, kwv.take(
                    t as int + 1,
                )));
            }
            t += 1;
        }
        proof {
            assert(kwv.take(kwv.len() as int) =~= kwv);
        }
    }

    let b = Bound { named, rest, kwrest };
    proof {
        assert(b@.named =~= sp_bound(schema@, posv, kwv).named);
        assert(b@.rest =~= sp_bound(schema@, posv, kwv).rest);
        assert(b@.kwrest =~= sp_bound(schema@, posv, kwv).kwrest);
        assert(b@ == sp_bound(schema@, posv, kwv));
    }
    Ok(b)
}

} // verus!
