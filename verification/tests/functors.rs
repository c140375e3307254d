use coyoneda::Coyoneda;
use coyoneda::Param;
use coyoneda::steps::Op;
use coyoneda::steps::Value;

/// A chain of four deferred mappings over any container of `Value`s:
/// add one, render in decimal, append "foo", append "bar".
fn add_and_to_string<T: Param<Param = Value>>(y: Coyoneda<T, Op>) -> Coyoneda<T, Op> {
    y.fmap(Op::AddInt(1))
        .fmap(Op::IntToString)
        .fmap(Op::PushSuffix(String::from("foo")))
        .fmap(Op::PushSuffix(String::from("bar")))
}

#[test]
fn fmap_box() {
    let x = Box::new(Value::Int(42));
    let y = add_and_to_string(Coyoneda::from(x));
    assert_eq!(y.unwrap(), Box::new(Value::Str(String::from("43foobar"))))
}

#[test]
fn fmap_option() {
    let x = Some(Value::Int(42));
    let y = add_and_to_string(Coyoneda::from(x));
    assert_eq!(y.unwrap(), Some(Value::Str(String::from("43foobar"))))
}

#[test]
fn fmap_result() {
    let x: Result<Value, ()> = Ok(Value::Int(42));
    let y = add_and_to_string(Coyoneda::from(x));
    assert_eq!(y.unwrap(), Ok(Value::Str(String::from("43foobar"))))
}

#[test]
fn transform() {
    let x = Box::new(Value::Int(42));
    let y = add_and_to_string(Coyoneda::from(x));
    let z = y.transform(
        |b: Box<Value>| match *b {
            Value::Int(n) => Some(Value::Size(n as usize)),
            v => Some(v),
        },
        Op::SizeToInt,
    );
    assert_eq!(z.unwrap(), Some(Value::Str(String::from("43foobar"))))
}

#[test]
fn natural_transform_box_to_option() {
    let x = Box::new(Value::Int(42));
    let y = add_and_to_string(Coyoneda::from(x));
    let z: Coyoneda<Option<Value>, Op> = y.natural_transform();
    assert_eq!(z.unwrap(), Some(Value::Str(String::from("43foobar"))))
}

#[test]
fn natural_transform_result_to_option() {
    let x: Result<Value, ()> = Ok(Value::Int(42));
    let y = add_and_to_string(Coyoneda::from(x));
    let z: Coyoneda<Option<Value>, Op> = y.natural_transform();
    assert_eq!(z.unwrap(), Some(Value::Str(String::from("43foobar"))))
}

#[test]
fn fmap_option_none_keeps_shape() {
    let x: Option<Value> = None;
    let y = add_and_to_string(Coyoneda::from(x));
    assert_eq!(y.unwrap(), None)
}

#[test]
fn fmap_result_err_keeps_shape() {
    let x: Result<Value, u8> = Err(7);
    let y = add_and_to_string(Coyoneda::from(x));
    assert_eq!(y.unwrap(), Err(7))
}

#[test]
fn natural_transform_err_to_none() {
    let x: Result<Value, ()> = Err(());
    let y = add_and_to_string(Coyoneda::from(x));
    let z: Coyoneda<Option<Value>, Op> = y.natural_transform();
    assert_eq!(z.unwrap(), None)
}

#[test]
fn unwrap_without_mappings_is_identity() {
    let x = Some(Value::Num(7));
    let y: Coyoneda<Option<Value>, Op> = Coyoneda::from(x);
    assert_eq!(y.unwrap(), Some(Value::Num(7)))
}
