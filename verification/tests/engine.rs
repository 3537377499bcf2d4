use tinytpl::api::Expression;
use tinytpl::bind::{bind_args, Param, ParamTy, Schema};
use tinytpl::builtins::slugify;
use tinytpl::env::{Callable, Environment};
use tinytpl::err::Error;
use tinytpl::value::{value_eq, AttrObject, Value};

fn ctx1(k: &str, v: Value) -> Value {
    Value::Dict(vec![(k.to_string(), v)])
}

fn s(x: &str) -> Value {
    Value::Str(x.to_string())
}

#[test]
fn template_usage() {
    let mut env = Environment::new();
    env.add_template("hello".to_string(), "Hello {{ name }}!").unwrap();
    let tmpl = env.get_template("hello").unwrap();
    let out = tmpl.render(&env, &ctx1("name", s("John"))).unwrap();
    assert_eq!(out, "Hello John!");
}

#[test]
fn expression_usage() {
    let env = Environment::new();
    let expr: Expression = env.compile_expression("number < 42").unwrap();
    let result = expr.eval(&env, &ctx1("number", Value::Int(23))).unwrap();
    assert!(result.is_true());
    let result = expr.eval(&env, &ctx1("number", Value::Int(99))).unwrap();
    assert!(!result.is_true());
}

#[test]
fn dynamic_objects() {
    let object = AttrObject {
        attrs: vec![
            ("x".to_string(), Value::Int(1)),
            ("y".to_string(), Value::Int(2)),
            ("z".to_string(), Value::Int(3)),
        ],
    };
    assert!(value_eq(&object.get_attribute(&s("x")).unwrap(), &Value::Int(1)));
    assert!(value_eq(&object.get_attribute(&s("y")).unwrap(), &Value::Int(2)));
    assert!(value_eq(&object.get_attribute(&s("z")).unwrap(), &Value::Int(3)));
    assert!(object.get_attribute(&s("w")).is_none());
    assert!(object.get_attribute(&Value::Int(7)).is_none());
    let names = object.enumerate_attributes();
    assert_eq!(names, vec!["x".to_string(), "y".to_string(), "z".to_string()]);
}

#[test]
fn object_attribute_in_template() {
    let mut env = Environment::new();
    env.add_template("pt".to_string(), "{{ p.y }} and {{ p.w }}").unwrap();
    let tmpl = env.get_template("pt").unwrap();
    let object = AttrObject {
        attrs: vec![("x".to_string(), Value::Int(1)), ("y".to_string(), Value::Int(2))],
    };
    let out = tmpl.render(&env, &ctx1("p", Value::Obj(object))).unwrap();
    // an absent attribute is undefined, not an error, and renders as nothing
    assert_eq!(out, "2 and ");
}

#[test]
fn custom_filters() {
    let mut env = Environment::new();
    env.add_filter("repeat".to_string(), Callable::repeat());
    env.add_template("hello".to_string(), "{{ 'Na ' | repeat(3) }} {{ name }}!").unwrap();
    let tmpl = env.get_template("hello").unwrap();
    let out = tmpl.render(&env, &ctx1("name", s("Batman"))).unwrap();
    assert_eq!(out, "Na Na Na  Batman!");
}

#[test]
fn repeat_chain_exact() {
    let mut env = Environment::new();
    env.add_filter("repeat".to_string(), Callable::repeat());
    let out = env
        .render_named_str("t", "{{ 'Na ' | repeat(3) }}", &Value::Dict(vec![]))
        .unwrap();
    assert_eq!(out, "Na Na Na ");
}

#[test]
fn templates_iteration() {
    let mut env = Environment::new();
    env.add_template("hello.txt".to_string(), "Hello {{ name }}!").unwrap();
    env.add_template("goodbye.txt".to_string(), "Goodbye {{ name }}!").unwrap();
    let mut rendered = Vec::new();
    for (name, tmpl) in env.templates() {
        rendered.push((name.clone(), tmpl.render(&env, &ctx1("name", s("World"))).unwrap()));
    }
    assert_eq!(
        rendered,
        vec![
            ("hello.txt".to_string(), "Hello World!".to_string()),
            ("goodbye.txt".to_string(), "Goodbye World!".to_string()),
        ]
    );
}

#[test]
fn get_template_by_name() {
    let mut env = Environment::new();
    env.add_template("hello.txt".to_string(), "Hello {{ name }} !").unwrap();
    let tmpl = env.get_template("hello.txt").unwrap();
    let out = tmpl.render(&env, &ctx1("name", s("World"))).unwrap();
    assert_eq!(out, "Hello World !");
    assert!(matches!(env.get_template("missing"), Err(Error::NotFound { .. })));
}

#[test]
fn loading_template_from_a_string() {
    let env = Environment::new();
    let tmpl = env
        .template_from_named_str("template_name".to_string(), "Hello {{ name }}")
        .unwrap();
    let out = tmpl.render(&env, &ctx1("name", s("World"))).unwrap();
    assert_eq!(out, "Hello World");
}

#[test]
fn parse_and_render_from_string_in_one_go() {
    let env = Environment::new();
    let out = env
        .render_named_str("template_name", "Hello {{ name }}", &ctx1("name", s("World")))
        .unwrap();
    assert_eq!(out, "Hello World");
}

#[test]
fn render_and_return_evaluated_state() {
    let env = Environment::new();
    let tmpl = env.template_from_str("{% set x = 42 %}Hello {{ what }}!").unwrap();
    let (out, state) = tmpl
        .render_and_return_state(&env, &ctx1("what", s("World")))
        .unwrap();
    assert_eq!(out, "Hello World!");
    assert!(value_eq(&state.lookup("x").unwrap(), &Value::Int(42)));
    assert!(value_eq(&state.lookup("what").unwrap(), &s("World")));
    assert!(state.lookup("zzz").is_none());

    let mut sink = String::from("log: ");
    tmpl.render_to_sink(&env, &ctx1("what", s("John")), &mut sink).unwrap();
    assert_eq!(sink, "log: Hello John!");
}

#[test]
fn discard_output_and_return_internal_state() {
    let mut env = Environment::new();
    env.add_template("hello".to_string(), "{% set y = 7 %}Hello {{ name }}!").unwrap();
    let tmpl = env.get_template("hello").unwrap();
    let state = tmpl.eval_to_state(&env, &ctx1("name", s("John"))).unwrap();
    let exports = state.exports();
    assert_eq!(exports.len(), 1);
    assert_eq!(exports[0].0, "y");
    assert!(value_eq(&exports[0].1, &Value::Int(7)));
}

#[test]
fn return_undeclared_variables() {
    let mut env = Environment::new();
    env.add_template("x".to_string(), "{% set x = foo %}{{ x }}{{ bar.baz }}").unwrap();
    let tmpl = env.get_template("x").unwrap();
    let mut undeclared = tmpl.undeclared_variables(false);
    undeclared.sort();
    assert_eq!(undeclared, vec!["bar".to_string(), "foo".to_string()]);
    let mut undeclared = tmpl.undeclared_variables(true);
    undeclared.sort();
    assert_eq!(undeclared, vec!["bar.baz".to_string(), "foo".to_string()]);
}

#[test]
fn custom_filters_example_slugify() {
    assert_eq!(slugify("John Wild Oak".to_string()), "john-wild-oak");
    assert_eq!(slugify("  Mixed  CASE words ".to_string()), "mixed-case-words");
    assert_eq!(slugify("".to_string()), "");

    let mut env = Environment::new();
    env.add_filter("slugify".to_string(), Callable::slugify());
    env.add_template("hello".to_string(), "Hello {{ name | slugify }}!").unwrap();
    let tmpl = env.get_template("hello").unwrap();
    let out = tmpl.render(&env, &ctx1("name", s("John Wild Oak"))).unwrap();
    assert_eq!(out, "Hello john-wild-oak!");

    env.add_filter("append_template".to_string(), Callable::append_template());
    env.add_template(
        "state_of_the_template".to_string(),
        "{{ name | append_template }}",
    )
    .unwrap();
    let tmpl = env.get_template("state_of_the_template").unwrap();
    let out = tmpl.render(&env, &ctx1("name", s("John Wild Oak"))).unwrap();
    assert_eq!(out, "John Wild Oak-state_of_the_template");
}

#[test]
fn kwarg_handling() {
    let mut env = Environment::new();
    env.add_function("modify".to_string(), Callable::modify());
    env.add_template(
        "mod_vec".to_string(),
        "{{ modify(input_vec, limit=4, reverse=true) }}",
    )
    .unwrap();
    let tmpl = env.get_template("mod_vec").unwrap();
    let input: Vec<Value> = [1, 2, 4, 5, 6, 7, 8, 9].iter().map(|n| Value::Int(*n)).collect();
    let out = tmpl.render(&env, &ctx1("input_vec", Value::List(input))).unwrap();
    assert_eq!(out, "[9, 8, 7, 6]");
}

#[test]
fn kwarg_binding_protocol() {
    // declared (reverse: optional bool, limit: optional int) plus a
    // keyword collector: both names bind, the collector stays empty
    let schema = Schema {
        params: vec![
            Param { name: "reverse".to_string(), required: false, ty: ParamTy::Bool },
            Param { name: "limit".to_string(), required: false, ty: ParamTy::Int },
        ],
        has_rest: false,
        has_kwrest: true,
    };
    let kw = vec![
        ("reverse".to_string(), Value::Bool(true)),
        ("limit".to_string(), Value::Int(4)),
    ];
    let bound = bind_args(&schema, &vec![], &kw).unwrap();
    assert!(value_eq(bound.named[0].as_ref().unwrap(), &Value::Bool(true)));
    assert!(value_eq(bound.named[1].as_ref().unwrap(), &Value::Int(4)));
    assert!(bound.kwrest.is_empty());

    // without the collector, an unread keyword argument fails
    let schema = Schema {
        params: vec![
            Param { name: "reverse".to_string(), required: false, ty: ParamTy::Bool },
        ],
        has_rest: false,
        has_kwrest: false,
    };
    let kw = vec![
        ("reverse".to_string(), Value::Bool(true)),
        ("limit".to_string(), Value::Int(4)),
    ];
    let r = bind_args(&schema, &vec![], &kw);
    assert!(matches!(r, Err(Error::UnusedKeywordArgument { ref name }) if name == "limit"));
}

#[test]
fn unused_keyword_argument_in_template() {
    let mut env = Environment::new();
    env.add_function("modify".to_string(), Callable::modify());
    env.add_template("m".to_string(), "{{ modify(input_vec, bogus=1) }}").unwrap();
    let tmpl = env.get_template("m").unwrap();
    let r = tmpl.render(&env, &ctx1("input_vec", Value::List(vec![Value::Int(1)])));
    assert!(matches!(r, Err(Error::UnusedKeywordArgument { ref name }) if name == "bogus"));
}

#[test]
fn mathematical_fold_variadic() {
    let mut env = Environment::new();
    env.add_function("mathematical_fold".to_string(), Callable::math_fold());
    env.add_template(
        "fold_mul".to_string(),
        "{{ mathematical_fold(1,2,3,4, op = mul) }}",
    )
    .unwrap();
    let tmpl = env.get_template("fold_mul").unwrap();
    let out = tmpl.render(&env, &ctx1("mul", s("mul"))).unwrap();
    assert_eq!(out, "24");

    env.add_template(
        "fold_add".to_string(),
        "{{ mathematical_fold(1,2,3,4, op = add) }}",
    )
    .unwrap();
    let tmpl = env.get_template("fold_add").unwrap();
    let out = tmpl.render(&env, &ctx1("add", s("add"))).unwrap();
    assert_eq!(out, "10");
}

#[test]
fn fold_overflow_fails() {
    let mut env = Environment::new();
    env.add_function("mathematical_fold".to_string(), Callable::math_fold());
    env.add_template(
        "big".to_string(),
        "{{ mathematical_fold(9223372036854775807, 9223372036854775807, op = o) }}",
    )
    .unwrap();
    let tmpl = env.get_template("big").unwrap();
    let r = tmpl.render(&env, &ctx1("o", s("mul")));
    assert!(matches!(r, Err(Error::Arithmetic)));
}

#[test]
fn rendering_is_idempotent() {
    let mut env = Environment::new();
    env.add_filter("repeat".to_string(), Callable::repeat());
    env.add_template(
        "t".to_string(),
        "{% set x = 5 %}{{ 'ab' | repeat(2) }}-{{ x }}-{{ name }}",
    )
    .unwrap();
    let tmpl = env.get_template("t").unwrap();
    let (out1, st1) = tmpl.render_and_return_state(&env, &ctx1("name", s("W"))).unwrap();
    let (out2, st2) = tmpl.render_and_return_state(&env, &ctx1("name", s("W"))).unwrap();
    assert_eq!(out1, out2);
    assert_eq!(out1.len(), out2.len());
    assert_eq!(out1, "abab-5-W");
    assert!(value_eq(&st1.lookup("x").unwrap(), &st2.lookup("x").unwrap()));
    assert!(value_eq(&st1.lookup("name").unwrap(), &st2.lookup("name").unwrap()));
    assert_eq!(st1.exports().len(), st2.exports().len());
}

#[test]
fn value_formatting() {
    let env = Environment::new();
    let ctx = Value::Dict(vec![
        ("n".to_string(), Value::Int(-42)),
        ("z".to_string(), Value::Int(0)),
        ("b".to_string(), Value::Bool(true)),
        ("u".to_string(), Value::Null),
        (
            "l".to_string(),
            Value::List(vec![Value::Int(1), s("a"), Value::Bool(false)]),
        ),
    ]);
    let out = env
        .render_named_str("t", "{{ n }}|{{ z }}|{{ b }}|{{ u }}|{{ l }}|{{ missing }}", &ctx)
        .unwrap();
    assert_eq!(out, "-42|0|true|none|[1, \"a\", false]|");
}

#[test]
fn comparison_semantics() {
    let env = Environment::new();
    let ctx = Value::Dict(vec![]);
    let e = env.compile_expression("3 <= 3").unwrap();
    assert!(e.eval(&env, &ctx).unwrap().is_true());
    let e = env.compile_expression("'a' == 'a'").unwrap();
    assert!(e.eval(&env, &ctx).unwrap().is_true());
    let e = env.compile_expression("'a' != 'b'").unwrap();
    assert!(e.eval(&env, &ctx).unwrap().is_true());
    let e = env.compile_expression("'a' < 1").unwrap();
    assert!(matches!(e.eval(&env, &ctx), Err(Error::TypeErr)));
}

#[test]
fn error_cases() {
    let mut env = Environment::new();
    // syntax error carries a position
    assert!(matches!(
        env.add_template("bad".to_string(), "oops {{ name"),
        Err(Error::Syntax { .. })
    ));
    // unknown filter and function
    env.add_template("f".to_string(), "{{ x | nope }}").unwrap();
    let r = env.get_template("f").unwrap().render(&env, &ctx1("x", Value::Int(1)));
    assert!(matches!(r, Err(Error::UnknownFilter { ref name }) if name == "nope"));
    env.add_template("g".to_string(), "{{ nope(1) }}").unwrap();
    let r = env.get_template("g").unwrap().render(&env, &Value::Dict(vec![]));
    assert!(matches!(r, Err(Error::UnknownFunction { ref name }) if name == "nope"));
    // the context must be map-shaped
    env.add_template("h".to_string(), "hi").unwrap();
    let r = env.get_template("h").unwrap().render(&env, &Value::Int(3));
    assert!(matches!(r, Err(Error::InvalidContext)));
    // attribute access on an undefined value demands a concrete value
    env.add_template("u".to_string(), "{{ ghost_var.x }}").unwrap();
    let r = env.get_template("u").unwrap().render(&env, &Value::Dict(vec![]));
    assert!(matches!(r, Err(Error::Undefined { .. })));
}

#[test]
fn binding_errors() {
    let mut env = Environment::new();
    env.add_filter("repeat".to_string(), Callable::repeat());
    // missing required argument
    env.add_template("m".to_string(), "{{ 'a' | repeat }}").unwrap();
    let r = env.get_template("m").unwrap().render(&env, &Value::Dict(vec![]));
    assert!(matches!(r, Err(Error::MissingArgument { ref param }) if param == "count"));
    // wrong argument shape
    env.add_template("w".to_string(), "{{ 'a' | repeat('b') }}").unwrap();
    let r = env.get_template("w").unwrap().render(&env, &Value::Dict(vec![]));
    assert!(matches!(r, Err(Error::ArgumentTypeErr { ref param }) if param == "count"));
    // more positional arguments than parameters
    env.add_template("t".to_string(), "{{ 'a' | repeat(1, 2) }}").unwrap();
    let r = env.get_template("t").unwrap().render(&env, &Value::Dict(vec![]));
    assert!(matches!(r, Err(Error::TooManyArguments)));
}

#[test]
fn set_rebinding_latest_wins() {
    let env = Environment::new();
    let tmpl = env
        .template_from_str("{% set x = 1 %}{{ x }}{% set x = 2 %}{{ x }}")
        .unwrap();
    let (out, state) = tmpl.render_and_return_state(&env, &Value::Dict(vec![])).unwrap();
    assert_eq!(out, "12");
    assert!(value_eq(&state.lookup("x").unwrap(), &Value::Int(2)));
}
