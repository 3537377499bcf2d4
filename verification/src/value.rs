//! The dynamic value model: a tagged union over primitives, sequences,
//! ordered string-keyed mappings, keyword-argument bags and host objects,
//! together with its mathematical model `Val` over `Seq<char>`.

use vstd::prelude::*;

verus! {

broadcast use vstd::std_specs::vec::group_vec_axioms;

/// Mathematical model of a dynamic value. Strings are character
/// sequences; every collection is a sequence of entries so that
/// insertion order is part of the model.
pub enum Val {
    Null,
    Bool(bool),
    Int(i64),
    Str(Seq<char>),
    List(Seq<Val>),
    Dict(Seq<(Seq<char>, Val)>),
    Kwargs(Seq<(Seq<char>, Val)>),
    Obj(Seq<(Seq<char>, Val)>),
    Undef,
}

/// A host object: a table of named attributes, reached only through the
/// object protocol (`get_attribute`, `enumerate_attributes`).
pub struct AttrObject {
    pub attrs: Vec<(String, Value)>,
}

/// A dynamic value. Immutable once constructed; `Undef` is the marker a
/// failed lookup evaluates to, and is only an error once a concrete
/// value is demanded.
pub enum Value {
    Null,
    Bool(bool),
    Int(i64),
    Str(String),
    List(Vec<Value>),
    Dict(Vec<(String, Value)>),
    Kwargs(Vec<(String, Value)>),
    Obj(AttrObject),
    Undef,
}

/// The model of a sequence of values, elementwise.
pub open spec fn list_view(s: Seq<Value>) -> Seq<Val>
    decreases s,
{
    if s.len() == 0 {
        Seq::empty()
    } else {
        list_view(s.drop_last()).push(s.last()@)
    }
}

/// The model of a sequence of string-keyed entries, in order.
pub open spec fn kvs_view(s: Seq<(String, Value)>) -> Seq<(Seq<char>, Val)>
    decreases s,
{
    if s.len() == 0 {
        Seq::empty()
    } else {
        kvs_view(s.drop_last()).push((s.last().0@, s.last().1@))
    }
}

impl View for Value {
    type V = Val;

    open spec fn view(&self) -> Val
        decreases self,
    {
        match self {
            Value::Null => Val::Null,
            Value::Bool(b) => Val::Bool(*b),
            Value::Int(i) => Val::Int(*i),
            Value::Str(s) => Val::Str(s@),
            Value::List(v) => Val::List(list_view(v@)),
            Value::Dict(v) => Val::Dict(kvs_view(v@)),
            Value::Kwargs(v) => Val::Kwargs(kvs_view(v@)),
            Value::Obj(o) => Val::Obj(kvs_view(o.attrs@)),
            Value::Undef => Val::Undef,
        }
    }
}

pub broadcast proof fn lemma_list_view(s: Seq<Value>)
    ensures
        (#[trigger] list_view(s)).len() == s.len(),
        forall|i: int| 0 <= i < s.len() ==> list_view(s)[i] == s[i]@,
    decreases s.len(),
{
    if s.len() > 0 {
        lemma_list_view(s.drop_last());
        assert(list_view(s) == list_view(s.drop_last()).push(s.last()@));
        assert(list_view(s).len() == s.len());
        assert forall|i: int| 0 <= i < s.len() implies list_view(s)[i] == s[i]@ by {
            if i < s.len() - 1 {
                assert(s.drop_last()[i] == s[i]);
                assert(list_view(s)[i] == list_view(s.drop_last())[i]);
            } else {
                assert(s[i] == s.last());
                assert(list_view(s)[i] == s.last()@);
            }
        }
    }
}

pub broadcast proof fn lemma_kvs_view(s: Seq<(String, Value)>)
    ensures
        (#[trigger] kvs_view(s)).len() == s.len(),
        forall|i: int| 0 <= i < s.len() ==> kvs_view(s)[i] == (s[i].0@, s[i].1@),
    decreases s.len(),
{
    if s.len() > 0 {
        lemma_kvs_view(s.drop_last());
        assert(kvs_view(s) == kvs_view(s.drop_last()).push((s.last().0@, s.last().1@)));
        assert(kvs_view(s).len() == s.len());
        assert forall|i: int| 0 <= i < s.len() implies kvs_view(s)[i] == (s[i].0@, s[i].1@) by {
            if i < s.len() - 1 {
                assert(s.drop_last()[i] == s[i]);
                assert(kvs_view(s)[i] == kvs_view(s.drop_last())[i]);
            } else {
                assert(s[i] == s.last());
                assert(kvs_view(s)[i] == (s.last().0@, s.last().1@));
            }
        }
    }
}

impl AttrObject {
    /// The attribute table this object exposes, in registration order.
    pub open spec fn model(&self) -> Seq<(Seq<char>, Val)> {
        kvs_view(self.attrs@)
    }
}

/// Truthiness is structural and variant-aware: empty strings and
/// collections, zero, `Null` and `Undef` are falsy; an object is truthy.
pub open spec fn truthy(v: Val) -> bool {
    match v {
        Val::Null => false,
        Val::Bool(b) => b,
        Val::Int(i) => i != 0,
        Val::Str(s) => s.len() != 0,
        Val::List(s) => s.len() != 0,
        Val::Dict(s) => s.len() != 0,
        Val::Kwargs(s) => s.len() != 0,
        Val::Obj(_) => true,
        Val::Undef => false,
    }
}

/// Ordered lookup in an association sequence: the latest binding of a
/// key wins, absence is `None`.
pub open spec fn assoc<T>(s: Seq<(Seq<char>, T)>, k: Seq<char>) -> Option<T>
    decreases s.len(),
{
    if s.len() == 0 {
        Option::None
    } else if s.last().0 == k {
        Option::Some(s.last().1)
    } else {
        assoc(s.drop_last(), k)
    }
}

/// Compares two string slices by their character sequences.
pub fn str_eq(a: &str, b: &str) -> (r: bool)
    ensures
        r == (a@ == b@),
{
    let an = a.unicode_len();
    let bn = b.unicode_len();
    if an != bn {
        return false;
    }
    let mut i: usize = 0;
    while i < an
        invariant
            i <= an,
            an == a@.len(),
            an == b@.len(),
            forall|j: int| 0 <= j < i ==> a@[j] == b@[j],
        decreases an - i,
    {
        if a.get_char(i) != b.get_char(i) {
            return false;
        }
        i += 1;
    }
    assert(a@ =~= b@);
    true
}

impl Value {
    /// An exact copy: the copy has the same model as the original.
    #[verifier::loop_isolation(false)]
    pub fn dup(&self) -> (r: Value)
        ensures
            r@ == self@,
        decreases self,
    {
        broadcast use lemma_list_view, lemma_kvs_view;

        match self {
            Value::Null => Value::Null,
            Value::Bool(b) => Value::Bool(*b),
            Value::Int(i) => Value::Int(*i),
            Value::Str(s) => Value::Str(s.clone()),
            Value::List(v) => {
                let mut out: Vec<Value> = Vec::new();
                let mut i: usize = 0;
                while i < v.len()
                    invariant
                        i <= v.len(),
                        out@.len() == i,
                        forall|j: int| 0 <= j < i ==> out@[j]@ == v[j]@,
                    decreases v.len() - i,
                {
                    out.push(v[i].dup());
                    i += 1;
                }
                proof {
                    lemma_list_view(out@);
                    lemma_list_view(v@);
                    assert(list_view(out@) =~= list_view(v@));
                }
                Value::List(out)
            }
            Value::Dict(v) => Value::Dict(dup_kvs(v)),
            Value::Kwargs(v) => Value::Kwargs(dup_kvs(v)),
            Value::Obj(o) => Value::Obj(AttrObject { attrs: dup_kvs(&o.attrs) }),
            Value::Undef => Value::Undef,
        }
    }

    /// Truthiness test, used by condition evaluation.
    pub fn is_true(&self) -> (r: bool)
        ensures
            r == truthy(self@),
    {
        broadcast use lemma_list_view, lemma_kvs_view;

        match self {
            Value::Null => {
                assert(self@ is Null);
                false
            }
            Value::Bool(b) => *b,
            Value::Int(i) => *i != 0,
            Value::Str(s) => {
                let n = s.as_str().unicode_len();
                assert(self@ == Val::Str(s@));
                n != 0
            }
            Value::List(v) => {
                proof { lemma_list_view(v@); }
                v.len() != 0
            }
            Value::Dict(v) => {
                proof { lemma_kvs_view(v@); }
                v.len() != 0
            }
            Value::Kwargs(v) => {
                proof { lemma_kvs_view(v@); }
                v.len() != 0
            }
            Value::Obj(_) => true,
            Value::Undef => false,
        }
    }
}

/// Copies a vector of string-keyed entries; the copy has the same model.
#[verifier::loop_isolation(false)]
pub fn dup_kvs(v: &Vec<(String, Value)>) -> (r: Vec<(String, Value)>)
    ensures
        kvs_view(r@) == kvs_view(v@),
        r@.len() == v@.len(),
    decreases v,
{
    broadcast use lemma_kvs_view;

    let mut out: Vec<(String, Value)> = Vec::new();
    let mut i: usize = 0;
    while i < v.len()
        invariant
            i <= v.len(),
            out@.len() == i,
            forall|j: int| 0 <= j < i ==> out@[j].0@ == v[j].0@ && out@[j].1@ == v[j].1@,
        decreases v.len() - i,
    {
        let name = v[i].0.clone();
        let val = v[i].1.dup();
        out.push((name, val));
        i += 1;
    }
    proof {
        lemma_kvs_view(out@);
        lemma_kvs_view(v@);
        assert(kvs_view(out@) =~= kvs_view(v@));
    }
    out
}

/// Looks a key up in a vector of entries; the latest binding wins, as in
/// `assoc` on the model.
pub fn kvs_get(v: &Vec<(String, Value)>, key: &str) -> (r: Option<Value>)
    ensures
        match assoc(kvs_view(v@), key@) {
            Option::Some(m) => r is Some && r->0@ == m,
            Option::None => r is None,
        },
{
    broadcast use lemma_kvs_view;

    let mut i: usize = v.len();
    proof {
        assert(kvs_view(v@).take(v@.len() as int) =~= kvs_view(v@));
    }
    while i > 0
        invariant
            i <= v.len(),
            assoc(kvs_view(v@), key@) == assoc(kvs_view(v@).take(i as int), key@),
        decreases i,
    {
        proof {
            lemma_kvs_view(v@);
            assert(kvs_view(v@).take(i as int).last() == (v[i - 1].0@, v[i - 1].1@));
            assert(kvs_view(v@).take(i as int).drop_last() =~= kvs_view(v@).take(i as int - 1));
        }
        i -= 1;
        if str_eq(v[i].0.as_str(), key) {
            return Some(v[i].1.dup());
        }
    }
    proof {
        assert(kvs_view(v@).take(0) =~= Seq::<(Seq<char>, Val)>::empty());
    }
    None
}

/// Structural equality of two values, decided on the models.
#[verifier::loop_isolation(false)]
pub fn value_eq(a: &Value, b: &Value) -> (r: bool)
    ensures
        r == (a@ == b@),
    decreases a,
{
    broadcast use lemma_list_view, lemma_kvs_view;

    match (a, b) {
        (Value::Null, Value::Null) => true,
        (Value::Bool(x), Value::Bool(y)) => x == y,
        (Value::Int(x), Value::Int(y)) => x == y,
        (Value::Str(x), Value::Str(y)) => str_eq(x.as_str(), y.as_str()),
        (Value::List(x), Value::List(y)) => {
            if x.len() != y.len() {
                proof {
                    lemma_list_view(x@);
                    lemma_list_view(y@);
                    assert(list_view(x@).len() != list_view(y@).len());
                }
                return false;
            }
            let mut i: usize = 0;
            while i < x.len()
                invariant
                    i <= x@.len(),
                    x@.len() == y@.len(),
                    forall|j: int| 0 <= j < i ==> x@[j]@ == y@[j]@,
                decreases x@.len() - i,
            {
                if !value_eq(&x[i], &y[i]) {
                    proof {
                        lemma_list_view(x@);
                        lemma_list_view(y@);
                        assert(list_view(x@)[i as int] != list_view(y@)[i as int]);
                    }
                    return false;
                }
                i += 1;
            }
            proof {
                assert(list_view(x@) =~= list_view(y@));
            }
            true
        }
        (Value::Dict(x), Value::Dict(y)) => kvs_eq(x, y),
        (Value::Kwargs(x), Value::Kwargs(y)) => kvs_eq(x, y),
        (Value::Obj(x), Value::Obj(y)) => kvs_eq(&x.attrs, &y.attrs),
        (Value::Undef, Value::Undef) => true,
        _ => false,
    }
}

/// Structural equality of two entry vectors, decided on the models.
#[verifier::loop_isolation(false)]
pub fn kvs_eq(x: &Vec<(String, Value)>, y: &Vec<(String, Value)>) -> (r: bool)
    ensures
        r == (kvs_view(x@) == kvs_view(y@)),
    decreases x,
{
    broadcast use lemma_kvs_view;

    if x.len() != y.len() {
        proof {
            lemma_kvs_view(x@);
            lemma_kvs_view(y@);
            assert(kvs_view(x@).len() != kvs_view(y@).len());
        }
        return false;
    }
    let mut i: usize = 0;
    while i < x.len()
        invariant
            i <= x@.len(),
            x@.len() == y@.len(),
            forall|j: int| 0 <= j < i ==> x@[j].0@ == y@[j].0@ && x@[j].1@ == y@[j].1@,
        decreases x@.len() - i,
    {
        if !str_eq(x[i].0.as_str(), y[i].0.as_str()) {
            proof {
                lemma_kvs_view(x@);
                lemma_kvs_view(y@);
                assert(kvs_view(x@)[i as int] != kvs_view(y@)[i as int]);
            }
            return false;
        }
        if !value_eq(&x[i].1, &y[i].1) {
            proof {
                lemma_kvs_view(x@);
                lemma_kvs_view(y@);
                assert(kvs_view(x@)[i as int] != kvs_view(y@)[i as int]);
            }
            return false;
        }
        i += 1;
    }
    proof {
        assert(kvs_view(x@) =~= kvs_view(y@));
    }
    true
}

impl AttrObject {
    /// Object protocol: the attribute's value, or `None` when the name
    /// is absent — absence is not an error.
    pub fn get_attribute(&self, key: &Value) -> (r: Option<Value>)
        ensures
            match key@ {
                Val::Str(k) => match assoc(self.model(), k) {
                    Option::Some(m) => r is Some && r->0@ == m,
                    Option::None => r is None,
                },
                _ => r is None,
            },
    {
        match key {
            Value::Str(s) => kvs_get(&self.attrs, s.as_str()),
            _ => None,
        }
    }

    /// Object protocol: every attribute name, in registration order.
    pub fn enumerate_attributes(&self) -> (r: Vec<String>)
        ensures
            r@.len() == self.model().len(),
            forall|i: int| 0 <= i < r@.len() ==> r@[i]@ == self.model()[i].0,
    {
        broadcast use lemma_kvs_view;

        let mut out: Vec<String> = Vec::new();
        let mut i: usize = 0;
        while i < self.attrs.len()
            invariant
                i <= self.attrs@.len(),
                out@.len() == i,
                forall|j: int| 0 <= j < i ==> out@[j]@ == self.attrs@[j].0@,
            decreases self.attrs@.len() - i,
        {
            out.push(self.attrs[i].0.clone());
            i += 1;
        }
        proof {
            lemma_kvs_view(self.attrs@);
        }
        out
    }
}

} // verus!
