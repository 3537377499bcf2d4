//! The registry: templates, filters and functions under their
//! registered names, in insertion order; re-registering a name
//! overwrites by shadowing (the latest binding wins on lookup).

use vstd::prelude::*;

use crate::bind::{params_view, Param, ParamTy, Schema, SchemaV};
use crate::builtins::Builtin;
use crate::err::Error;
use crate::ir::{nodes_view, Node, NodeV};
use crate::parse::{compile_source, sp_compile};
use crate::value::assoc;

verus! {

broadcast use vstd::std_specs::vec::group_vec_axioms;

/// A registered callable: a declared parameter shape and a behavior.
pub struct Callable {
    pub schema: Schema,
    pub body: Builtin,
}

/// Model of a registered callable.
pub struct CallableV {
    pub schema: SchemaV,
    pub body: Builtin,
}

impl View for Callable {
    type V = CallableV;

    open spec fn view(&self) -> CallableV {
        CallableV { schema: self.schema@, body: self.body }
    }
}

/// The model of a callable table, elementwise.
pub open spec fn cvs_view(s: Seq<(String, Callable)>) -> Seq<(Seq<char>, CallableV)>
    decreases s,
{
    if s.len() == 0 {
        Seq::empty()
    } else {
        cvs_view(s.drop_last()).push((s.last().0@, s.last().1@))
    }
}

pub broadcast proof fn lemma_cvs_view(s: Seq<(String, Callable)>)
    ensures
        (#[trigger] cvs_view(s)).len() == s.len(),
        forall|i: int| 0 <= i < s.len() ==> cvs_view(s)[i] == (s[i].0@, s[i].1@),
    decreases s.len(),
{
    if s.len() > 0 {
        lemma_cvs_view(s.drop_last());
        assert(cvs_view(s) == cvs_view(s.drop_last()).push((s.last().0@, s.last().1@)));
        assert forall|i: int| 0 <= i < s.len() implies cvs_view(s)[i] == (s[i].0@, s[i].1@) by {
            if i < s.len() - 1 {
                assert(s.drop_last()[i] == s[i]);
                assert(cvs_view(s)[i] == cvs_view(s.drop_last())[i]);
            } else {
                assert(s[i] == s.last());
            }
        }
    }
}

/// An immutable compiled template: its name and its node sequence.
pub struct Template {
    pub name: String,
    pub nodes: Vec<Node>,
}

/// Model of a compiled template.
pub struct TemplateV {
    pub name: Seq<char>,
    pub nodes: Seq<NodeV>,
}

impl View for Template {
    type V = TemplateV;

    open spec fn view(&self) -> TemplateV {
        TemplateV { name: self.name@, nodes: nodes_view(self.nodes@) }
    }
}

/// The model of a template table, elementwise.
pub open spec fn tpls_view(s: Seq<(String, Template)>) -> Seq<(Seq<char>, TemplateV)>
    decreases s,
{
    if s.len() == 0 {
        Seq::empty()
    } else {
        tpls_view(s.drop_last()).push((s.last().0@, s.last().1@))
    }
}

pub broadcast proof fn lemma_tpls_view(s: Seq<(String, Template)>)
    ensures
        (#[trigger] tpls_view(s)).len() == s.len(),
        forall|i: int| 0 <= i < s.len() ==> tpls_view(s)[i] == (s[i].0@, s[i].1@),
    decreases s.len(),
{
    if s.len() > 0 {
        lemma_tpls_view(s.drop_last());
        assert(tpls_view(s) == tpls_view(s.drop_last()).push((s.last().0@, s.last().1@)));
        assert forall|i: int| 0 <= i < s.len() implies tpls_view(s)[i] == (s[i].0@, s[i].1@) by {
            if i < s.len() - 1 {
                assert(s.drop_last()[i] == s[i]);
                assert(tpls_view(s)[i] == tpls_view(s.drop_last())[i]);
            } else {
                assert(s[i] == s.last());
            }
        }
    }
}

/// The callable tables the evaluator resolves names in.
pub struct EnvV {
    pub filters: Seq<(Seq<char>, CallableV)>,
    pub functions: Seq<(Seq<char>, CallableV)>,
}

/// The registry owning templates, filters and functions.
pub struct Environment {
    pub templates: Vec<(String, Template)>,
    pub filters: Vec<(String, Callable)>,
    pub functions: Vec<(String, Callable)>,
}

impl Environment {
    /// The callable tables, as the evaluator sees them.
    pub open spec fn model(&self) -> EnvV {
        EnvV { filters: cvs_view(self.filters@), functions: cvs_view(self.functions@) }
    }

    /// The template table, in registration order.
    pub open spec fn templates_model(&self) -> Seq<(Seq<char>, TemplateV)> {
        tpls_view(self.templates@)
    }

    /// An empty registry.
    pub fn new() -> (r: Environment)
        ensures
            r.model().filters == Seq::<(Seq<char>, CallableV)>::empty(),
            r.model().functions == Seq::<(Seq<char>, CallableV)>::empty(),
            r.templates_model() == Seq::<(Seq<char>, TemplateV)>::empty(),
    {
        let r = Environment { templates: Vec::new(), filters: Vec::new(), functions: Vec::new() };
        proof {
            assert(r.model().filters =~= Seq::<(Seq<char>, CallableV)>::empty());
            assert(r.model().functions =~= Seq::<(Seq<char>, CallableV)>::empty());
            assert(r.templates_model() =~= Seq::<(Seq<char>, TemplateV)>::empty());
        }
        r
    }

    /// Registers a filter; a later registration of the same name wins.
    pub fn add_filter(&mut self, name: String, c: Callable)
        ensures
            final(self).model().filters == old(self).model().filters.push((name@, c@)),
            final(self).model().functions == old(self).model().functions,
            final(self).templates_model() == old(self).templates_model(),
    {
        let ghost nv = name@;
        let ghost cv = c@;
        self.filters.push((name, c));
        proof {
            assert(self.filters@.drop_last() =~= old(self).filters@);
        }
    }

    /// Registers a function; a later registration of the same name wins.
    pub fn add_function(&mut self, name: String, c: Callable)
        ensures
            final(self).model().functions == old(self).model().functions.push((name@, c@)),
            final(self).model().filters == old(self).model().filters,
            final(self).templates_model() == old(self).templates_model(),
    {
        self.functions.push((name, c));
        proof {
            assert(self.functions@.drop_last() =~= old(self).functions@);
        }
    }

    /// Compiles and registers a template. Fails with a syntax error, and
    /// leaves the registry unchanged, exactly when the source does not
    /// compile.
    pub fn add_template(&mut self, name: String, source: &str) -> (r: Result<(), Error>)
        ensures
            match r {
                Result::Ok(_) => sp_compile(source@) is Some && final(self).templates_model()
                    == old(self).templates_model().push(
                    (name@, TemplateV { name: name@, nodes: sp_compile(source@)->0 }),
                ),
                Result::Err(e) => sp_compile(source@) is None && e@ is Syntax && *final(self)
                    == *old(self),
            },
            final(self).model() == old(self).model(),
    {
        match compile_source(source) {
            Ok(nodes) => {
                let t = Template { name: name.clone(), nodes };
                self.templates.push((name, t));
                proof {
                    assert(self.templates@.drop_last() =~= old(self).templates@);
                }
                Ok(())
            }
            Err(pos) => Err(Error::Syntax { pos }),
        }
    }

    /// Compiles a template without registering it.
    pub fn template_from_named_str(&self, name: String, source: &str) -> (r: Result<
        Template,
        Error,
    >)
        ensures
            match r {
                Result::Ok(t) => sp_compile(source@) is Some && t@ == (TemplateV {
                    name: name@,
                    nodes: sp_compile(source@)->0,
                }),
                Result::Err(e) => sp_compile(source@) is None && e@ is Syntax,
            },
    {
        match compile_source(source) {
            Ok(nodes) => Ok(Template { name, nodes }),
            Err(pos) => Err(Error::Syntax { pos }),
        }
    }

    /// Compiles an unnamed template without registering it.
    pub fn template_from_str(&self, source: &str) -> (r: Result<Template, Error>)
        ensures
            match r {
                Result::Ok(t) => sp_compile(source@) is Some && t@.nodes == sp_compile(source@)->0,
                Result::Err(e) => sp_compile(source@) is None && e@ is Syntax,
            },
    {
        self.template_from_named_str(String::from_str("<string>"), source)
    }

    /// Looks a registered template up by name; the latest registration
    /// under the name wins.
    pub fn get_template<'a>(&'a self, name: &str) -> (r: Result<&'a Template, Error>)
        ensures
            match r {
                Result::Ok(t) => assoc(self.templates_model(), name@) == Option::Some(t@),
                Result::Err(e) => assoc(self.templates_model(), name@) is None && (e@ matches
                    crate::err::ErrV::NotFound { name: n } && n == name@),
            },
    {
        broadcast use lemma_tpls_view;

        let mut i: usize = self.templates.len();
        proof {
            assert(self.templates_model().take(self.templates@.len() as int)
                =~= self.templates_model());
        }
        while i > 0
            invariant
                i <= self.templates@.len(),
                assoc(self.templates_model(), name@) == assoc(
                    self.templates_model().take(i as int),
                    name@,
                ),
            decreases i,
        {
            proof {
                lemma_tpls_view(self.templates@);
                assert(self.templates_model().take(i as int).last() == (
                    self.templates@[i - 1].0@,
                    self.templates@[i - 1].1@,
                ));
                assert(self.templates_model().take(i as int).drop_last()
                    =~= self.templates_model().take(i as int - 1));
            }
            i -= 1;
            if crate::value::str_eq(self.templates[i].0.as_str(), name) {
                return Ok(&self.templates[i].1);
            }
        }
        proof {
            assert(self.templates_model().take(0) =~= Seq::<(Seq<char>, TemplateV)>::empty());
        }
        Err(Error::NotFound { name: name.to_owned() })
    }

    /// The registered templates, in insertion order.
    pub fn templates<'a>(&'a self) -> (r: &'a Vec<(String, Template)>)
        ensures
            tpls_view(r@) == self.templates_model(),
    {
        &self.templates
    }
}

/// Looks a callable up in a table; the latest binding wins.
pub fn cvs_get<'a>(v: &'a Vec<(String, Callable)>, key: &str) -> (r: Option<&'a Callable>)
    ensures
        match assoc(cvs_view(v@), key@) {
            Option::Some(m) => r is Some && r->0@ == m,
            Option::None => r is None,
        },
{
    broadcast use lemma_cvs_view;

    let mut i: usize = v.len();
    proof {
        assert(cvs_view(v@).take(v@.len() as int) =~= cvs_view(v@));
    }
    while i > 0
        invariant
            i <= v.len(),
            assoc(cvs_view(v@), key@) == assoc(cvs_view(v@).take(i as int), key@),
        decreases i,
    {
        proof {
            lemma_cvs_view(v@);
            assert(cvs_view(v@).take(i as int).last() == (v[i - 1].0@, v[i - 1].1@));
            assert(cvs_view(v@).take(i as int).drop_last() =~= cvs_view(v@).take(i as int - 1));
        }
        i -= 1;
        if crate::value::str_eq(v[i].0.as_str(), key) {
            return Some(&v[i].1);
        }
    }
    proof {
        assert(cvs_view(v@).take(0) =~= Seq::<(Seq<char>, CallableV)>::empty());
    }
    None
}

/// The shape of the repeat filter: a string and a count.
pub open spec fn repeat_callable_v() -> CallableV {
    CallableV {
        schema: SchemaV {
            params: seq![
                crate::bind::ParamV { name: "value"@, required: true, ty: ParamTy::Str },
                crate::bind::ParamV { name: "count"@, required: true, ty: ParamTy::Int },
            ],
            has_rest: false,
            has_kwrest: false,
        },
        body: Builtin::Repeat,
    }
}

/// The shape of the slugify filter: one string.
pub open spec fn slugify_callable_v() -> CallableV {
    CallableV {
        schema: SchemaV {
            params: seq![crate::bind::ParamV { name: "value"@, required: true, ty: ParamTy::Str }],
            has_rest: false,
            has_kwrest: false,
        },
        body: Builtin::Slugify,
    }
}

/// The shape of the append-template filter: one value of any shape.
pub open spec fn append_template_callable_v() -> CallableV {
    CallableV {
        schema: SchemaV {
            params: seq![crate::bind::ParamV { name: "value"@, required: true, ty: ParamTy::Any }],
            has_rest: false,
            has_kwrest: false,
        },
        body: Builtin::AppendTemplate,
    }
}

/// The shape of the modify function: a sequence plus optional reverse
/// and limit options.
pub open spec fn modify_callable_v() -> CallableV {
    CallableV {
        schema: SchemaV {
            params: seq![
                crate::bind::ParamV { name: "values"@, required: true, ty: ParamTy::List },
                crate::bind::ParamV { name: "reverse"@, required: false, ty: ParamTy::Bool },
                crate::bind::ParamV { name: "limit"@, required: false, ty: ParamTy::Int },
            ],
            has_rest: false,
            has_kwrest: false,
        },
        body: Builtin::Modify,
    }
}

/// The shape of the fold function: variadic positional arguments and a
/// keyword collector holding the operation.
pub open spec fn math_fold_callable_v() -> CallableV {
    CallableV {
        schema: SchemaV { params: Seq::empty(), has_rest: true, has_kwrest: true },
        body: Builtin::MathFold,
    }
}

fn mk_param(name: &str, required: bool, ty: ParamTy) -> (r: Param)
    ensures
        r@ == (crate::bind::ParamV { name: name@, required, ty }),
{
    Param { name: name.to_owned(), required, ty }
}

impl Callable {
    /// The repeat filter.
    pub fn repeat() -> (r: Callable)
        ensures
            r@ == repeat_callable_v(),
    {
        broadcast use crate::bind::lemma_params_view;

        let mut params: Vec<Param> = Vec::new();
        params.push(mk_param("value", true, ParamTy::Str));
        params.push(mk_param("count", true, ParamTy::Int));
        let c = Callable {
            schema: Schema { params, has_rest: false, has_kwrest: false },
            body: Builtin::Repeat,
        };
        proof {
            assert(c@.schema.params =~= repeat_callable_v().schema.params);
        }
        c
    }

    /// The slugify filter.
    pub fn slugify() -> (r: Callable)
        ensures
            r@ == slugify_callable_v(),
    {
        broadcast use crate::bind::lemma_params_view;

        let mut params: Vec<Param> = Vec::new();
        params.push(mk_param("value", true, ParamTy::Str));
        let c = Callable {
            schema: Schema { params, has_rest: false, has_kwrest: false },
            body: Builtin::Slugify,
        };
        proof {
            assert(c@.schema.params =~= slugify_callable_v().schema.params);
        }
        c
    }

    /// The append-template filter.
    pub fn append_template() -> (r: Callable)
        ensures
            r@ == append_template_callable_v(),
    {
        broadcast use crate::bind::lemma_params_view;

        let mut params: Vec<Param> = Vec::new();
        params.push(mk_param("value", true, ParamTy::Any));
        let c = Callable {
            schema: Schema { params, has_rest: false, has_kwrest: false },
            body: Builtin::AppendTemplate,
        };
        proof {
            assert(c@.schema.params =~= append_template_callable_v().schema.params);
        }
        c
    }

    /// The modify function.
    pub fn modify() -> (r: Callable)
        ensures
            r@ == modify_callable_v(),
    {
        broadcast use crate::bind::lemma_params_view;

        let mut params: Vec<Param> = Vec::new();
        params.push(mk_param("values", true, ParamTy::List));
        params.push(mk_param("reverse", false, ParamTy::Bool));
        params.push(mk_param("limit", false, ParamTy::Int));
        let c = Callable {
            schema: Schema { params, has_rest: false, has_kwrest: false },
            body: Builtin::Modify,
        };
        proof {
            assert(c@.schema.params =~= modify_callable_v().schema.params);
        }
        c
    }

    /// The fold function.
    pub fn math_fold() -> (r: Callable)
        ensures
            r@ == math_fold_callable_v(),
    {
        let params: Vec<Param> = Vec::new();
        let c = Callable {
            schema: Schema { params, has_rest: true, has_kwrest: true },
            body: Builtin::MathFold,
        };
        proof {
            assert(crate::bind::params_view(c.schema.params@) =~= Seq::<
                crate::bind::ParamV,
            >::empty());
        }
        c
    }
}

} // verus!
