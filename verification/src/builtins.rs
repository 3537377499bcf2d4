//! The callables this library ships: the behaviors a registered filter
//! or function can have, each with its declared parameter shape and an
//! exact model of what it computes on bound arguments.

use vstd::prelude::*;

use crate::bind::{BoundV, Bound};
use crate::err::{ErrV, Error};
use crate::fmt::sp_fmt;
use crate::text::{collect_chars, str_chars};
use crate::value::{assoc, kvs_get, Val, Value, lemma_list_view, list_view};

verus! {

broadcast use vstd::std_specs::vec::group_vec_axioms;

/// The behavior of a registered callable.
#[derive(Clone, Copy)]
pub enum Builtin {
    /// Filter: repeats its string input a given number of times.
    Repeat,
    /// Filter: lowercases its input and joins the words with dashes.
    Slugify,
    /// Filter: appends `-` and the rendering template's name.
    AppendTemplate,
    /// Function: reverses and truncates a sequence per keyword options.
    Modify,
    /// Function: folds its variadic integer arguments by the `op`
    /// keyword: product for `mul`, sum for `add`, one otherwise.
    MathFold,
}

/// What `str::to_lowercase` returns; the result depends on the
/// characters alone.
pub uninterp spec fn lower_of(s: Seq<char>) -> Seq<char>;

/// Relies on `str::to_lowercase`: Unicode lowercasing of the input.
#[verifier::external_body]
fn lowercase(s: &str) -> (r: String)
    ensures
        r@ == lower_of(s@),
{
    s.to_lowercase()
}

/// The Unicode white-space characters, the set `char::is_whitespace`
/// accepts.
pub open spec fn is_uspace(c: char) -> bool {
    c == ' ' || c == '\t' || c == '\n' || c == '\u{b}' || c == '\u{c}' || c == '\r' || c
        == '\u{85}' || c == '\u{a0}' || c == '\u{1680}' || c == '\u{2000}' || c == '\u{2001}' || c
        == '\u{2002}' || c == '\u{2003}' || c == '\u{2004}' || c == '\u{2005}' || c == '\u{2006}'
        || c == '\u{2007}' || c == '\u{2008}' || c == '\u{2009}' || c == '\u{200a}' || c
        == '\u{2028}' || c == '\u{2029}' || c == '\u{202f}' || c == '\u{205f}' || c == '\u{3000}'
}

fn c_is_uspace(c: char) -> (r: bool)
    ensures
        r == is_uspace(c),
{
    c == ' ' || c == '\t' || c == '\n' || c == '\u{b}' || c == '\u{c}' || c == '\r' || c
        == '\u{85}' || c == '\u{a0}' || c == '\u{1680}' || c == '\u{2000}' || c == '\u{2001}' || c
        == '\u{2002}' || c == '\u{2003}' || c == '\u{2004}' || c == '\u{2005}' || c == '\u{2006}'
        || c == '\u{2007}' || c == '\u{2008}' || c == '\u{2009}' || c == '\u{200a}' || c
        == '\u{2028}' || c == '\u{2029}' || c == '\u{202f}' || c == '\u{205f}' || c == '\u{3000}'
}

/// The slug of the characters from `i` on: white-space runs collapse,
/// and a dash separates consecutive words.
pub open spec fn sp_slug_core(s: Seq<char>, i: int, in_word: bool, any: bool) -> Seq<char>
    decreases s.len() - i,
{
    if !(0 <= i < s.len()) {
        Seq::empty()
    } else if is_uspace(s[i]) {
        sp_slug_core(s, i + 1, false, any)
    } else {
        (if !in_word && any {
            seq!['-']
        } else {
            Seq::empty()
        }) + seq![s[i]] + sp_slug_core(s, i + 1, true, true)
    }
}

/// The slug of a string: its lowercased words joined by dashes.
pub open spec fn sp_slugify(s: Seq<char>) -> Seq<char> {
    sp_slug_core(lower_of(s), 0, false, false)
}

fn slug_core(cs: &Vec<char>, i: usize, in_word: bool, any: bool, out: &mut Vec<char>)
    requires
        i <= cs@.len(),
    ensures
        final(out)@ == old(out)@ + sp_slug_core(cs@, i as int, in_word, any),
    decreases cs@.len() - i,
{
    if i >= cs.len() {
        proof {
            assert(out@ =~= out@ + sp_slug_core(cs@, i as int, in_word, any));
        }
        return ;
    }
    if c_is_uspace(cs[i]) {
        slug_core(cs, i + 1, false, any, out);
    } else {
        let ghost pre = out@;
        if !in_word && any {
            out.push('-');
        }
        out.push(cs[i]);
        slug_core(cs, i + 1, true, true, out);
        proof {
            assert(out@ =~= pre + sp_slug_core(cs@, i as int, in_word, any));
        }
    }
}

/// Lowercases the input and joins its white-space-separated words with
/// single dashes.
pub fn slugify(value: String) -> (r: String)
    ensures
        r@ == sp_slugify(value@),
{
    let low = lowercase(value.as_str());
    let cs = str_chars(low.as_str());
    let mut out: Vec<char> = Vec::new();
    slug_core(&cs, 0, false, false, &mut out);
    collect_chars(&out)
}

/// A string repeated a number of times; a nonpositive count gives the
/// empty string.
pub open spec fn sp_rep(s: Seq<char>, n: int) -> Seq<char>
    decreases n,
{
    if n <= 0 {
        Seq::empty()
    } else {
        sp_rep(s, n - 1) + s
    }
}

/// A sequence reversed.
pub open spec fn sp_rev(s: Seq<Val>) -> Seq<Val>
    decreases s,
{
    if s.len() == 0 {
        Seq::empty()
    } else {
        seq![s.last()] + sp_rev(s.drop_last())
    }
}

/// Integer fold with overflow detection: product or sum of the values,
/// which must all be integers.
pub open spec fn sp_fold(items: Seq<Val>, i: int, acc: i64, mul: bool) -> Result<i64, ErrV>
    decreases items.len() - i,
{
    if !(0 <= i < items.len()) {
        Result::Ok(acc)
    } else {
        match items[i] {
            Val::Int(v) => {
                let next: int = if mul {
                    acc * v
                } else {
                    acc + v
                };
                if i64::MIN <= next <= i64::MAX {
                    sp_fold(items, i + 1, next as i64, mul)
                } else {
                    Result::Err(ErrV::Arithmetic)
                }
            },
            _ => Result::Err(ErrV::TypeErr),
        }
    }
}

/// What a builtin computes from its bound arguments. `tname` is the
/// name of the template being rendered.
pub open spec fn sp_apply(b: Builtin, bound: BoundV, tname: Seq<char>) -> Result<Val, ErrV> {
    match b {
        Builtin::Repeat => if bound.named.len() == 2 {
            match (bound.named[0], bound.named[1]) {
                (Option::Some(Val::Str(s)), Option::Some(Val::Int(n))) => Result::Ok(
                    Val::Str(sp_rep(s, n as int)),
                ),
                _ => Result::Err(ErrV::TypeErr),
            }
        } else {
            Result::Err(ErrV::TypeErr)
        },
        Builtin::Slugify => if bound.named.len() == 1 {
            match bound.named[0] {
                Option::Some(Val::Str(s)) => Result::Ok(Val::Str(sp_slugify(s))),
                _ => Result::Err(ErrV::TypeErr),
            }
        } else {
            Result::Err(ErrV::TypeErr)
        },
        Builtin::AppendTemplate => if bound.named.len() == 1 {
            match bound.named[0] {
                Option::Some(v) => Result::Ok(Val::Str(sp_fmt(v) + seq!['-'] + tname)),
                _ => Result::Err(ErrV::TypeErr),
            }
        } else {
            Result::Err(ErrV::TypeErr)
        },
        Builtin::Modify => if bound.named.len() == 3 {
            match bound.named[0] {
                Option::Some(Val::List(items)) => {
                    let turned: Seq<Val> = match bound.named[1] {
                        Option::Some(Val::Bool(true)) => sp_rev(items),
                        _ => items,
                    };
                    let cut: Seq<Val> = match bound.named[2] {
                        Option::Some(Val::Int(l)) => if l < 0 {
                            turned.take(0)
                        } else if l < turned.len() {
                            turned.take(l as int)
                        } else {
                            turned
                        },
                        _ => turned,
                    };
                    Result::Ok(Val::List(cut))
                },
                _ => Result::Err(ErrV::TypeErr),
            }
        } else {
            Result::Err(ErrV::TypeErr)
        },
        Builtin::MathFold => {
            match assoc(bound.kwrest, "op"@) {
                Option::Some(Val::Str(o)) => if o == "mul"@ {
                    match sp_fold(bound.rest, 0, 1, true) {
                        Result::Ok(v) => Result::Ok(Val::Int(v)),
                        Result::Err(e) => Result::Err(e),
                    }
                } else if o == "add"@ {
                    match sp_fold(bound.rest, 0, 0, false) {
                        Result::Ok(v) => Result::Ok(Val::Int(v)),
                        Result::Err(e) => Result::Err(e),
                    }
                } else {
                    Result::Ok(Val::Int(1))
                },
                Option::None => Result::Ok(Val::Int(1)),
                Option::Some(_) => Result::Err(ErrV::TypeErr),
            }
        },
    }
}

/// Executable integer fold.
fn fold_vals(items: &Vec<Value>, i: usize, acc: i64, mul: bool) -> (r: Result<i64, Error>)
    requires
        i <= items@.len(),
    ensures
        match r {
            Result::Ok(v) => sp_fold(list_view(items@), i as int, acc, mul) == Result::<
                i64,
                ErrV,
            >::Ok(v),
            Result::Err(e) => sp_fold(list_view(items@), i as int, acc, mul) == Result::<
                i64,
                ErrV,
            >::Err(e@),
        },
    decreases items@.len() - i,
{
    broadcast use lemma_list_view;

    if i >= items.len() {
        return Ok(acc);
    }
    match &items[i] {
        Value::Int(v) => {
            proof {
                assert(i128::MIN as int <= (acc as int) * ((*v) as int) <= i128::MAX as int)
                    by (nonlinear_arith)
                    requires
                        i64::MIN <= acc <= i64::MAX,
                        i64::MIN <= *v <= i64::MAX,
                ;
            }
            let next: i128 = if mul {
                (acc as i128) * (*v as i128)
            } else {
                (acc as i128) + (*v as i128)
            };
            if i64::MIN as i128 <= next && next <= i64::MAX as i128 {
                fold_vals(items, i + 1, next as i64, mul)
            } else {
                Err(Error::Arithmetic)
            }
        }
        _ => Err(Error::TypeErr),
    }
}

/// Applies a builtin to bound arguments; returns exactly what the model
/// computes.
#[verifier::loop_isolation(false)]
#[verifier::rlimit(100)]
pub fn apply_builtin(b: &Builtin, bound: &Bound, tname: &str) -> (r: Result<Value, Error>)
    ensures
        match r {
            Result::Ok(v) => sp_apply(*b, bound@, tname@) == Result::<Val, ErrV>::Ok(v@),
            Result::Err(e) => sp_apply(*b, bound@, tname@) == Result::<Val, ErrV>::Err(e@),
        },
{
    broadcast use lemma_list_view, crate::value::lemma_kvs_view, crate::bind::lemma_opts_view;

    match b {
        Builtin::Repeat => {
            if bound.named.len() != 2 {
                return Err(Error::TypeErr);
            }
            let s: &String = match &bound.named[0] {
                Some(Value::Str(s)) => s,
                _ => {
                    return Err(Error::TypeErr);
                }
            };
            let n: i64 = match &bound.named[1] {
                Some(Value::Int(n)) => *n,
                _ => {
                    return Err(Error::TypeErr);
                }
            };
            let cs = str_chars(s.as_str());
            let mut out: Vec<char> = Vec::new();
            let mut k: i64 = 0;
            if n > 0 {
                proof {
                    assert(out@ =~= sp_rep(cs@, 0));
                }
                while k < n
                    invariant
                        0 <= k <= n,
                        cs@ == s@,
                        out@ =~= sp_rep(cs@, k as int),
                    decreases n - k,
                {
                    let mut t: usize = 0;
                    let ghost pre = out@;
                    while t < cs.len()
                        invariant
                            t <= cs@.len(),
                            out@ =~= pre + cs@.take(t as int),
                        decreases cs@.len() - t,
                    {
                        out.push(cs[t]);
                        proof {
                            assert(out@ =~= pre + cs@.take(t as int + 1));
                        }
                        t += 1;
                    }
                    proof {
                        assert(cs@.take(cs@.len() as int) =~= cs@);
                        assert(out@ =~= sp_rep(cs@, k as int + 1));
                    }
                    k += 1;
                }
            }
            Ok(Value::Str(collect_chars(&out)))
        }
        Builtin::Slugify => {
            if bound.named.len() != 1 {
                return Err(Error::TypeErr);
            }
            let s: String = match &bound.named[0] {
                Some(Value::Str(s)) => s.clone(),
                _ => {
                    return Err(Error::TypeErr);
                }
            };
            Ok(Value::Str(slugify(s)))
        }
        Builtin::AppendTemplate => {
            if bound.named.len() != 1 {
                return Err(Error::TypeErr);
            }
            let v: &Value = match &bound.named[0] {
                Some(v) => v,
                None => {
                    return Err(Error::TypeErr);
                }
            };
            let mut out: Vec<char> = Vec::new();
            crate::fmt::push_fmt(&mut out, v);
            out.push('-');
            let ghost mid = out@;
            let tcs = str_chars(tname);
            let mut t: usize = 0;
            while t < tcs.len()
                invariant
                    t <= tcs@.len(),
                    out@ =~= mid + tcs@.take(t as int),
                decreases tcs@.len() - t,
            {
                out.push(tcs[t]);
                proof {
                    assert(out@ =~= mid + tcs@.take(t as int + 1));
                }
                t += 1;
            }
            proof {
                assert(tcs@.take(tcs@.len() as int) =~= tcs@);
                assert(out@ =~= sp_fmt(v@) + seq!['-'] + tname@);
            }
            Ok(Value::Str(collect_chars(&out)))
        }
        Builtin::Modify => {
            if bound.named.len() != 3 {
                return Err(Error::TypeErr);
            }
            let items: &Vec<Value> = match &bound.named[0] {
                Some(Value::List(items)) => items,
                _ => {
                    return Err(Error::TypeErr);
                }
            };
            let turn = matches!(&bound.named[1], Some(Value::Bool(true)));
            let mut picked: Vec<Value> = Vec::new();
            let ghost turned: Seq<Val> = if turn {
                sp_rev(list_view(items@))
            } else {
                list_view(items@)
            };
            if turn {
                let mut k: usize = items.len();
                proof {
                    lemma_rev(list_view(items@));
                }
                while k > 0
                    invariant
                        k <= items@.len(),
                        picked@.len() == items@.len() - k,
                        forall|j: int|
                            0 <= j < picked@.len() ==> picked@[j]@ == list_view(items@)[items@.len()
                                - 1 - j],
                    decreases k,
                {
                    k -= 1;
                    picked.push(items[k].dup());
                }
                proof {
                    assert(list_view(picked@) =~= turned);
                }
            } else {
                let mut k: usize = 0;
                while k < items.len()
                    invariant
                        k <= items@.len(),
                        picked@.len() == k,
                        forall|j: int| 0 <= j < k ==> picked@[j]@ == list_view(items@)[j],
                    decreases items@.len() - k,
                {
                    picked.push(items[k].dup());
                    k += 1;
                }
                proof {
                    assert(list_view(picked@) =~= turned);
                }
            }
            match &bound.named[2] {
                Some(Value::Int(l)) => {
                    let keep: usize = if *l < 0 {
                        0
                    } else if (*l as u64) < (picked.len() as u64) {
                        *l as usize
                    } else {
                        picked.len()
                    };
                    picked.truncate(keep);
                    proof {
                        assert(list_view(picked@) =~= (match sp_apply(
                            *b,
                            bound@,
                            tname@,
                        ) {
                            Result::Ok(Val::List(s)) => s,
                            _ => list_view(picked@),
                        }));
                    }
                    Ok(Value::List(picked))
                }
                _ => Ok(Value::List(picked)),
            }
        }
        Builtin::MathFold => {
            let op = kvs_get(&bound.kwrest, "op");
            match &op {
                Some(Value::Str(o)) => {
                    if crate::value::str_eq(o.as_str(), "mul") {
                        match fold_vals(&bound.rest, 0, 1, true) {
                            Ok(v) => Ok(Value::Int(v)),
                            Err(e) => Err(e),
                        }
                    } else if crate::value::str_eq(o.as_str(), "add") {
                        match fold_vals(&bound.rest, 0, 0, false) {
                            Ok(v) => Ok(Value::Int(v)),
                            Err(e) => Err(e),
                        }
                    } else {
                        Ok(Value::Int(1))
                    }
                }
                None => Ok(Value::Int(1)),
                Some(_) => Err(Error::TypeErr),
            }
        }
    }
}

/// The reversal of a sequence, elementwise.
pub proof fn lemma_rev(s: Seq<Val>)
    ensures
        sp_rev(s).len() == s.len(),
        forall|i: int| 0 <= i < s.len() ==> sp_rev(s)[i] == s[s.len() - 1 - i],
    decreases s.len(),
{
    if s.len() > 0 {
        lemma_rev(s.drop_last());
        assert forall|i: int| 0 <= i < s.len() implies sp_rev(s)[i] == s[s.len() - 1 - i] by {
            if i > 0 {
                assert(sp_rev(s)[i] == sp_rev(s.drop_last())[i - 1]);
                assert(s.drop_last()[s.len() - 1 - i] == s[s.len() - 1 - i]);
            }
        }
    }
}

} // verus!
