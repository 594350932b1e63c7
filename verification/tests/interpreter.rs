//! The interpreter exercised end to end: expressions, statements, scoping,
//! objects and subroutines.

use jabroni::Binding;
use jabroni::BindingMap;
use jabroni::Callback;
use jabroni::Host;
use jabroni::Jabroni;
use jabroni::JabroniError;
use jabroni::JabroniResult;
use jabroni::Subroutine;
use jabroni::Value;

/// A host whose every native subroutine returns the number 42.
struct FortyTwoHost;

impl Host for FortyTwoHost {
    fn call_native(
        &mut self,
        _id: u64,
        _context: BindingMap,
        _args: &mut Vec<Value>,
    ) -> JabroniResult<Value> {
        Ok(Value::Number(42))
    }
}

#[test]
fn simple_expressions() {
    let mut state = Jabroni::new();
    assert_eq!(state.run_expression("4").unwrap(), 4.into());
    assert_eq!(state.run_expression("2+2").unwrap(), 4.into());
    assert_eq!(state.run_expression("3*10-5").unwrap(), 25.into());
    assert_eq!(state.run_expression("1+(10-7)*3").unwrap(), 10.into());
    assert_eq!(state.run_expression("2+2==4").unwrap(), true.into());
    assert_eq!(state.run_expression("2+2==5").unwrap(), false.into());
    assert_eq!(state.run_expression("2+2==4==false").unwrap(), false.into());
    assert_eq!(state.run_expression("true==true").unwrap(), true.into());
    assert_eq!(state.run_expression("1==1?100:200").unwrap(), 100.into());
    assert_eq!(state.run_expression("1==2?100:200").unwrap(), 200.into());
}

#[test]
fn forbid_type_mismatch() {
    let mut state = Jabroni::new();
    state.define_variable("x", Value::Number(4)).unwrap();
    assert!(state.run_expression("4==false").is_err());
    assert!(state.run_expression("true==4").is_err());
    assert!(state.run_expression("x=true").is_err());
    // assignments return void
    assert!(state.run_expression("4==(x=4)").is_err());
}

#[test]
fn constants() {
    let mut state = Jabroni::new();
    state.define_constant("FOO", Value::Number(42)).unwrap();
    assert_eq!(state.run_expression("FOO").unwrap(), Value::Number(42));
    assert_eq!(state.run_expression("FOO*10").unwrap(), Value::Number(420));
    // Constants can't be modified
    assert!(state.run_expression("FOO=8").is_err());
    // Cannot be defined multiple times
    assert!(state.define_constant("FOO", Value::Number(42)).is_err());
    assert!(state.define_variable("FOO", Value::Number(42)).is_err());
    // Cannot be updated
    assert!(state.update_variable("FOO", Value::Number(42)).is_err());
}

#[test]
fn variables() {
    let mut state = Jabroni::new();
    state.define_variable("foo", Value::Number(42)).unwrap();

    assert_eq!(state.run_expression("foo").unwrap(), Value::Number(42));

    // Assign
    state.run_expression("foo=420").unwrap();
    assert_eq!(state.run_expression("foo").unwrap(), Value::Number(420));

    // Try to define twice
    assert!(state.define_variable("foo", Value::Number(42)).is_err());
    assert!(state.define_constant("foo", Value::Number(42)).is_err());

    // Update
    state.update_variable("foo", Value::Number(16)).unwrap();
    assert_eq!(state.run_expression("foo").unwrap(), Value::Number(16));
}

#[test]
fn strings() {
    let mut state = Jabroni::new();
    state
        .define_variable("foo", Value::String("Hello World!".into()))
        .unwrap();

    state.run_expression("foo='Shut up!'").unwrap();
    assert_eq!(
        state.run_expression("foo").unwrap(),
        Value::String("Shut up!".into())
    );

    state.run_expression("foo='\\''").unwrap();
    assert_eq!(
        state.run_expression("foo").unwrap(),
        Value::String("\'".into())
    );

    state.run_expression("foo=\"Hello!\"").unwrap();
    assert_eq!(
        state.run_expression("foo").unwrap(),
        Value::String("Hello!".into())
    );

    state.run_expression("foo='\\n\\t\\r'").unwrap();
    assert_eq!(
        state.run_expression("foo").unwrap(),
        Value::String("\n\t\r".into())
    );
}

#[test]
fn objects() {
    let mut state = Jabroni::new();

    let mut object = BindingMap::default();
    object.set("bar".into(), Binding::variable(Value::Number(8)));
    object.set("baz".into(), Binding::constant(Value::Number(42)));
    let object = Value::Object(object);
    state.define_variable("foo", object.clone()).unwrap();

    assert_eq!(state.run_expression("foo").unwrap(), object);
    assert_eq!(state.run_expression("foo.bar").unwrap(), Value::Number(8));
    assert_eq!(state.run_expression("foo.baz").unwrap(), Value::Number(42));

    state.run_expression("foo.bar=0").unwrap();
    assert!(state.run_expression("foo.baz=1").is_err());

    assert_eq!(state.run_expression("foo.bar").unwrap(), Value::Number(0));
    assert_eq!(state.run_expression("foo.baz").unwrap(), Value::Number(42));
}

#[test]
fn object_method() {
    let mut state = Jabroni::with_host(FortyTwoHost);
    let mut object = BindingMap::default();
    object.set(
        "bar".into(),
        Binding::constant(Value::Subroutine(Subroutine::new(0, Callback::Native(0)))),
    );

    let object = Value::Object(object);
    state.define_variable("foo", object.clone()).unwrap();

    assert_eq!(state.run_expression("foo.bar()").unwrap(), 42.into());
}

#[test]
fn call_rust_function() {
    let mut state = Jabroni::with_host(FortyTwoHost);
    state
        .define_constant(
            "foo",
            Value::Subroutine(Subroutine::new(0, Callback::Native(0))),
        )
        .unwrap();
    assert_eq!(state.run_expression("foo()").unwrap(), 42.into());
}

#[test]
fn call_jabroni_function() {
    let mut state = Jabroni::new();

    state.run_script("function foo() {return 42;}").unwrap();
    assert_eq!(state.run_expression("foo()").unwrap(), 42.into());

    state
        .run_script("function add_one(x) {return x+1;}")
        .unwrap();
    assert_eq!(state.run_expression("add_one(41)").unwrap(), 42.into());

    state
        .run_script("function add_together(x, y) {return x+y;}")
        .unwrap();
    assert_eq!(
        state.run_expression("add_together(9,10)").unwrap(),
        19.into()
    );
}

#[test]
fn statements() {
    let mut state = Jabroni::new();
    state.define_variable("x", Value::Number(0)).unwrap();
    state.define_variable("y", Value::Number(0)).unwrap();
    state.run_script("x=0;y=1;x=2;\n").unwrap();
    assert_eq!(state.run_expression("x").unwrap(), 2.into());
    assert_eq!(state.run_expression("y").unwrap(), 1.into());
}

#[test]
fn wrong_argument_count_is_rejected() {
    let mut state = Jabroni::new();
    state
        .run_script("function add(x,y){return x+y;}")
        .unwrap();
    assert_eq!(state.run_expression("add(9,10)").unwrap(), 19.into());
    let err = state.run_expression("add(9)").unwrap_err();
    assert!(matches!(err, JabroniError::InvalidArguments(_)));
    let err = state.run_expression("add(9,10,11)").unwrap_err();
    assert!(matches!(err, JabroniError::InvalidArguments(_)));
}
