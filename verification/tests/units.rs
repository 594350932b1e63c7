//! The value model, bindings, literal constructors and unquoting, exercised
//! directly, together with the documented corner cases of the evaluator.

use jabroni::errors::ErrorKind;
use jabroni::unquote;
use jabroni::Binding;
use jabroni::BindingMap;
use jabroni::Callback;
use jabroni::DefaultHost;
use jabroni::Jabroni;
use jabroni::JabroniError;
use jabroni::Subroutine;
use jabroni::Value;

#[test]
fn arithmetic_for_all_operators() {
    let mut state = Jabroni::new();
    assert_eq!(state.run_expression("37+5").unwrap(), Value::Number(42));
    assert_eq!(state.run_expression("37-5").unwrap(), Value::Number(32));
    assert_eq!(state.run_expression("37*5").unwrap(), Value::Number(185));
    assert_eq!(state.run_expression("-3+4").unwrap(), Value::Number(1));
    assert_eq!(state.run_expression("3 - -4").unwrap(), Value::Number(7));
    assert_eq!(state.run_expression("0*0").unwrap(), Value::Number(0));
}

#[test]
fn numbers_at_the_edge_of_the_width() {
    let mut state = Jabroni::new();
    assert_eq!(
        state.run_expression("2147483647").unwrap(),
        Value::Number(i32::MAX)
    );
    assert_eq!(
        state.run_expression("-2147483648").unwrap(),
        Value::Number(i32::MIN)
    );
    // a literal outside the width is rejected while parsing
    assert!(matches!(
        state.run_expression("2147483648").unwrap_err(),
        JabroniError::Parse(_)
    ));
    // arithmetic wraps around the fixed width
    assert_eq!(
        state.run_expression("2147483647+1").unwrap(),
        Value::Number(i32::MIN)
    );
    assert_eq!(
        state.run_expression("(0-2147483647)-2").unwrap(),
        Value::Number(i32::MAX)
    );
    assert_eq!(
        state.run_expression("65536*65536").unwrap(),
        Value::Number(0)
    );
}

#[test]
fn strict_and_lenient_equality() {
    let mut state = Jabroni::new();
    // `==` on different tags is a type error
    assert!(matches!(
        state.run_expression("4==false").unwrap_err(),
        JabroniError::Type(_)
    ));
    // `===` compares across tags as false, and accepts nulls
    assert_eq!(state.run_expression("4===false").unwrap(), false.into());
    assert_eq!(state.run_expression("4===4").unwrap(), true.into());
    assert_eq!(state.run_expression("null===null").unwrap(), true.into());
    // `==` refuses nulls
    assert!(matches!(
        state.run_expression("null==null").unwrap_err(),
        JabroniError::Type(_)
    ));
    assert_eq!(state.run_expression("'ab'=='ab'").unwrap(), true.into());
    assert_eq!(state.run_expression("'ab'=='ba'").unwrap(), false.into());
}

#[test]
fn ternary_runs_only_the_selected_branch() {
    let mut state = Jabroni::new();
    state.define_variable("x", Value::Number(0)).unwrap();
    state.define_variable("y", Value::Number(0)).unwrap();
    state.run_expression("1==1?(x=1):(y=1)").unwrap();
    assert_eq!(state.run_expression("x").unwrap(), Value::Number(1));
    assert_eq!(state.run_expression("y").unwrap(), Value::Number(0));
    state.run_expression("1==2?(x=5):(y=5)").unwrap();
    assert_eq!(state.run_expression("x").unwrap(), Value::Number(1));
    assert_eq!(state.run_expression("y").unwrap(), Value::Number(5));
    // the condition must be a boolean
    assert!(matches!(
        state.run_expression("1?2:3").unwrap_err(),
        JabroniError::Type(_)
    ));
}

#[test]
fn update_variable_errors() {
    let mut state = Jabroni::new();
    // unbound name
    assert!(matches!(
        state.update_variable("ghostly", Value::Number(1)).unwrap_err(),
        JabroniError::Reference(_)
    ));
    // tag mismatch
    state.define_variable("n", Value::Number(1)).unwrap();
    assert!(matches!(
        state.update_variable("n", Value::Boolean(true)).unwrap_err(),
        JabroniError::Type(_)
    ));
    assert_eq!(state.run_expression("n").unwrap(), Value::Number(1));
}

#[test]
fn function_bodies_are_isolated() {
    let mut state = Jabroni::new();
    state.define_variable("outer", Value::Number(7)).unwrap();
    state
        .run_script("function peek() {return outer;}")
        .unwrap();
    // the body sees only its parameters, not the caller's scope
    assert!(matches!(
        state.run_expression("peek()").unwrap_err(),
        JabroniError::Reference(_)
    ));
    state
        .run_script("function through(outer) {return outer;}")
        .unwrap();
    assert_eq!(state.run_expression("through(9)").unwrap(), Value::Number(9));
}

#[test]
fn every_error_kind_is_reachable() {
    let mut state = Jabroni::new();
    assert!(matches!(
        state.run_expression("(4").unwrap_err(),
        JabroniError::Parse(_)
    ));
    assert!(matches!(
        state.run_expression("4+false").unwrap_err(),
        JabroniError::Type(_)
    ));
    assert!(matches!(
        state.run_expression("nowhere").unwrap_err(),
        JabroniError::Reference(_)
    ));
    state.run_script("function id(x){return x;}").unwrap();
    assert!(matches!(
        state.run_expression("id()").unwrap_err(),
        JabroniError::InvalidArguments(_)
    ));
    assert!(state.run_script("function id(x){return x;}").is_err());
    // a function cannot reach itself by name (bodies are isolated), but it
    // can call a subroutine passed to it; self-application runs away and
    // exhausts the call-depth budget
    state.run_script("function dig(g){return g(g);}").unwrap();
    assert!(matches!(
        state.run_expression("dig(dig)").unwrap_err(),
        JabroniError::Exception(_)
    ));
    // the default host has no native subroutines
    state
        .define_constant(
            "ghost_native",
            Value::Subroutine(Subroutine::new_variadic(Callback::Native(3))),
        )
        .unwrap();
    assert!(matches!(
        state.run_expression("ghost_native()").unwrap_err(),
        JabroniError::Exception(_)
    ));
}

#[test]
fn unquote_round_trips() {
    assert_eq!(unquote("'\\''").unwrap(), "'".to_string());
    assert_eq!(unquote("\"Hello!\"").unwrap(), "Hello!".to_string());
    assert_eq!(unquote("'\\n\\t\\r'").unwrap(), "\n\t\r".to_string());
    assert_eq!(unquote("'a\\\\b'").unwrap(), "a\\b".to_string());
    assert_eq!(unquote("''").unwrap(), "".to_string());
    // malformed literals
    assert!(unquote("x").is_err());
    assert!(unquote("plain").is_err());
    assert!(unquote("'unterminated").is_err());
    assert!(unquote("'early' stop'").is_err());
    assert!(unquote("'\\q'").is_err());
    assert!(unquote("'mismatched\"").is_err());
}

#[test]
fn literal_constructors() {
    assert_eq!(
        Value::from_numeric_literal("42").unwrap(),
        Value::Number(42)
    );
    assert_eq!(
        Value::from_numeric_literal("-17").unwrap(),
        Value::Number(-17)
    );
    assert_eq!(
        Value::from_numeric_literal("+8").unwrap(),
        Value::Number(8)
    );
    assert!(Value::from_numeric_literal("").is_err());
    assert!(Value::from_numeric_literal("four").is_err());
    assert!(Value::from_numeric_literal("4.5").is_err());
    assert!(Value::from_numeric_literal("99999999999").is_err());

    assert_eq!(
        Value::from_boolean_literal("true").unwrap(),
        Value::Boolean(true)
    );
    assert_eq!(
        Value::from_boolean_literal("false").unwrap(),
        Value::Boolean(false)
    );
    assert!(Value::from_boolean_literal("maybe").is_err());

    assert_eq!(
        Value::from_string_literal("\"hello\"").unwrap(),
        Value::String("hello".into())
    );
    assert!(Value::from_string_literal("hello").is_err());
}

#[test]
fn value_operations() {
    let mut v = Value::Number(40);
    v.add(Value::Number(2)).unwrap();
    assert_eq!(v, Value::Number(42));
    v.subtract(Value::Number(2)).unwrap();
    assert_eq!(v, Value::Number(40));
    v.multiply(Value::Number(3)).unwrap();
    assert_eq!(v, Value::Number(120));
    assert!(v.add(Value::Boolean(true)).is_err());
    assert_eq!(v, Value::Number(120));

    let mut b = Value::Boolean(true);
    b.inverse().unwrap();
    assert_eq!(b, Value::Boolean(false));
    assert!(Value::Number(1).inverse().is_err());

    let mut c = Value::Number(3);
    c.compare(Value::Number(3), false).unwrap();
    assert_eq!(c, Value::Boolean(true));
    let mut c = Value::Number(3);
    assert!(c.compare(Value::Boolean(true), false).is_err());
    let mut c = Value::Number(3);
    c.compare(Value::Boolean(true), true).unwrap();
    assert_eq!(c, Value::Boolean(false));

    let mut d = Value::Number(3);
    d.compare_inequality(Value::Number(5), |a: i32, b: i32| a < b)
        .unwrap();
    assert_eq!(d, Value::Boolean(true));
    let mut d = Value::Number(3);
    d.compare_inequality(Value::Number(5), |a: i32, b: i32| a >= b)
        .unwrap();
    assert_eq!(d, Value::Boolean(false));
    let mut d = Value::Boolean(true);
    assert!(d
        .compare_inequality(Value::Boolean(false), |a: i32, b: i32| a < b)
        .is_err());

    assert!(Value::Number(1).assert_same_type(&Value::Number(9)).is_ok());
    assert!(Value::Number(1)
        .assert_same_type(&Value::Boolean(true))
        .is_err());
    assert!(Value::Null.tag_matches(&Value::Null));
    assert!(!Value::Null.tag_matches(&Value::Number(0)));
}

#[test]
fn bindings_and_scopes() {
    let mut b = Binding::new(Value::Number(1), true);
    assert!(b.mutable());
    assert_eq!(*b.value(), Value::Number(1));
    b.set_value(Value::Number(2)).unwrap();
    assert_eq!(*b.value(), Value::Number(2));
    assert!(b.set_value(Value::Boolean(true)).is_err());

    let c = Binding::constant(Value::Number(1));
    assert!(!c.mutable());
    let mut c = c;
    assert!(c.set_value(Value::Number(2)).is_err());

    let mut map = BindingMap::default();
    map.set("a".into(), Binding::variable(Value::Number(1)));
    assert!(map.has("a"));
    assert!(map.has_on_top("a"));
    assert!(!map.has("b"));
    assert_eq!(*map.get("a").unwrap().value(), Value::Number(1));
    assert!(map.get("b").is_err());

    let mut nested = map.clone_with_new_scope();
    assert!(nested.has("a"));
    assert!(!nested.has_on_top("a"));
    nested.set("a".into(), Binding::variable(Value::Number(5)));
    assert_eq!(*nested.get("a").unwrap().value(), Value::Number(5));
    // the outer map is untouched by the nested context
    assert_eq!(*map.get("a").unwrap().value(), Value::Number(1));

    let g = map.get_mut("a").unwrap();
    g.set_value(Value::Number(7)).unwrap();
    assert_eq!(*map.get("a").unwrap().value(), Value::Number(7));

    let copy = map.duplicate();
    assert_eq!(*copy.get("a").unwrap().value(), Value::Number(7));
}

#[test]
fn error_descriptions() {
    let e = JabroniError::Type("Type mismatch".into());
    assert_eq!(e.kind(), ErrorKind::Type);
    assert_eq!(e.message().as_str(), "Type mismatch");
    assert_eq!(e.describe(), "TypeError: Type mismatch".to_string());
    let e = JabroniError::Reference("'x' does not exist".into());
    assert_eq!(e.describe(), "ReferenceError: 'x' does not exist".to_string());
}

#[test]
fn subroutine_values_compare_by_identity() {
    let a = Value::Subroutine(Subroutine::new(0, Callback::Native(1)));
    let b = Value::Subroutine(Subroutine::new(0, Callback::Native(1)));
    let c = Value::Subroutine(Subroutine::new(0, Callback::Native(2)));
    assert_eq!(a, b);
    assert!(a != c);
    let v = Value::Subroutine(Subroutine::new_variadic(Callback::Native(1)));
    assert!(a != v);
}

#[test]
fn blocks_and_returns() {
    let mut state = Jabroni::new();
    state.define_variable("x", Value::Number(0)).unwrap();
    // a block's value is the value of its last statement
    assert_eq!(
        state.run_script("{x=1;x=2;}").unwrap(),
        Value::Null
    );
    assert_eq!(state.run_expression("x").unwrap(), Value::Number(2));
    // a return ends the script run immediately, even inside a block
    state.define_variable("y", Value::Number(0)).unwrap();
    assert_eq!(
        state.run_script("{return 5; y=1;}").unwrap(),
        Value::Number(5)
    );
    assert_eq!(state.run_expression("y").unwrap(), Value::Number(0));
}

#[test]
fn accessors_and_direct_calls() {
    let v = Value::Number(5);
    assert_eq!(v.as_number(), Some(&5));
    assert!(v.as_boolean().is_none());
    assert_eq!(Value::Boolean(true).as_boolean(), Some(&true));
    assert_eq!(
        Value::String("hi".into()).as_string(),
        Some(&"hi".to_string())
    );
    assert!(Value::Null.is_null());
    assert!(!v.is_null());
    assert!(Value::Object(BindingMap::default()).as_object().is_some());

    // the call protocol, used directly by a host
    let sub = Subroutine::new(
        1,
        Callback::Interpreted {
            params: vec!["x".to_string()],
            body: "return x*x;".to_string(),
        },
    );
    assert!(Value::Subroutine(sub.clone()).as_subroutine().is_some());
    let mut host = DefaultHost;
    let mut args = vec![Value::Number(6)];
    assert_eq!(
        sub.call(&mut host, BindingMap::default(), &mut args).unwrap(),
        Value::Number(36)
    );
    let mut none: Vec<Value> = vec![];
    assert!(matches!(
        sub.call(&mut host, BindingMap::default(), &mut none).unwrap_err(),
        JabroniError::InvalidArguments(_)
    ));
}

#[test]
fn constants_reject_reassignment_and_redefinition() {
    let mut state = Jabroni::new();
    state.define_constant("FOO", Value::Number(42)).unwrap();
    // assignment to a constant is a type error
    assert!(matches!(
        state.run_expression("FOO=8").unwrap_err(),
        JabroniError::Type(_)
    ));
    // redefining it, as constant or variable, is a double definition
    assert!(matches!(
        state.define_constant("FOO", Value::Number(1)).unwrap_err(),
        JabroniError::DoubleDefinition(_)
    ));
    assert!(matches!(
        state.define_variable("FOO", Value::Number(1)).unwrap_err(),
        JabroniError::DoubleDefinition(_)
    ));
    // a constant object field rejects assignment, a variable field accepts
    let mut object = BindingMap::default();
    object.set("fixed".into(), Binding::constant(Value::Number(1)));
    object.set("free".into(), Binding::variable(Value::Number(1)));
    state
        .define_variable("o", Value::Object(object))
        .unwrap();
    assert!(matches!(
        state.run_expression("o.fixed=2").unwrap_err(),
        JabroniError::Type(_)
    ));
    state.run_expression("o.free=2").unwrap();
    assert_eq!(state.run_expression("o.free").unwrap(), Value::Number(2));
}

#[test]
fn parser_handles_spacing_and_nesting() {
    let mut state = Jabroni::new();
    assert_eq!(
        state.run_expression(" 1 + 2 * 3 ").unwrap(),
        Value::Number(7)
    );
    assert_eq!(state.run_expression("(1+2)*3").unwrap(), Value::Number(9));
    assert_eq!(
        state.run_expression("1==1 ? 2 : 3").unwrap(),
        Value::Number(2)
    );
    state
        .run_script("function add(x, y) { return x + y; }")
        .unwrap();
    assert_eq!(
        state.run_expression("add(add(1,2),3)").unwrap(),
        Value::Number(6)
    );
    assert_eq!(state.run_expression("add ( 1 , 2 )").unwrap(), Value::Number(3));

    // a member chain three levels deep
    let mut innermost = BindingMap::default();
    innermost.set("leaf".into(), Binding::variable(Value::Number(11)));
    let mut middle = BindingMap::default();
    middle.set("inner".into(), Binding::variable(Value::Object(innermost)));
    let mut outer = BindingMap::default();
    outer.set("middle".into(), Binding::variable(Value::Object(middle)));
    state
        .define_variable("deep", Value::Object(outer))
        .unwrap();
    assert_eq!(
        state.run_expression("deep.middle.inner.leaf").unwrap(),
        Value::Number(11)
    );
    state.run_expression("deep.middle.inner.leaf=12").unwrap();
    assert_eq!(
        state.run_expression("deep . middle . inner . leaf").unwrap(),
        Value::Number(12)
    );
    // reading a member of a non-object is a type error
    state.define_variable("plain", Value::Number(0)).unwrap();
    assert!(matches!(
        state.run_expression("plain.field").unwrap_err(),
        JabroniError::Type(_)
    ));
}
