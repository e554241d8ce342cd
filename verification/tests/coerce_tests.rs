use cozo_schema::typing::Typing;
use cozo_schema::typing::TypingError;
use cozo_schema::value::Value;

fn nullable(t: Typing) -> Typing {
    Typing::Nullable(Box::new(t))
}

fn homogeneous(t: Typing) -> Typing {
    Typing::Homogeneous(Box::new(t))
}

#[test]
fn scalar_accepts_matching_variant() {
    assert_eq!(Typing::Bool.coerce(Value::Bool(true)), Ok(Value::Bool(true)));
    assert_eq!(Typing::Int.coerce(Value::Int(5)), Ok(Value::Int(5)));
    assert_eq!(Typing::Float.coerce(Value::Float(17)), Ok(Value::Float(17)));
    assert_eq!(
        Typing::Text.coerce(Value::Text("a".to_string())),
        Ok(Value::Text("a".to_string()))
    );
    assert_eq!(Typing::Uuid.coerce(Value::Uuid(9)), Ok(Value::Uuid(9)));
}

#[test]
fn scalar_rejects_other_variant() {
    assert_eq!(
        Typing::Int.coerce(Value::Text("a".to_string())),
        Err(TypingError::TypeMismatch(Typing::Int, Value::Text("a".to_string())))
    );
    // No implicit numeric widening in either direction.
    assert_eq!(
        Typing::Float.coerce(Value::Int(1)),
        Err(TypingError::TypeMismatch(Typing::Float, Value::Int(1)))
    );
    assert_eq!(
        Typing::Int.coerce(Value::Float(1)),
        Err(TypingError::TypeMismatch(Typing::Int, Value::Float(1)))
    );
}

#[test]
fn null_violates_non_nullable() {
    assert_eq!(
        Typing::Int.coerce(Value::Null),
        Err(TypingError::NotNullViolated(Typing::Int))
    );
    assert_eq!(
        homogeneous(Typing::Int).coerce(Value::Null),
        Err(TypingError::NotNullViolated(homogeneous(Typing::Int)))
    );
}

#[test]
fn any_accepts_everything() {
    assert_eq!(Typing::Any.coerce(Value::Null), Ok(Value::Null));
    assert_eq!(Typing::Any.coerce(Value::Int(3)), Ok(Value::Int(3)));
    let l = Value::List(vec![Value::Bool(false), Value::Null]);
    assert_eq!(Typing::Any.coerce(l.clone()), Ok(l));
}

#[test]
fn nullable_scenarios() {
    assert_eq!(nullable(Typing::Int).coerce(Value::Null), Ok(Value::Null));
    assert_eq!(nullable(Typing::Int).coerce(Value::Int(5)), Ok(Value::Int(5)));
    // The error cites the unwrapped inner type, not the wrapper.
    assert_eq!(
        nullable(Typing::Int).coerce(Value::Text("a".to_string())),
        Err(TypingError::TypeMismatch(Typing::Int, Value::Text("a".to_string())))
    );
}

#[test]
fn homogeneous_scenarios() {
    assert_eq!(
        homogeneous(Typing::Int).coerce(Value::List(vec![Value::Int(1), Value::Int(2)])),
        Ok(Value::List(vec![Value::Int(1), Value::Int(2)]))
    );
    assert_eq!(
        homogeneous(Typing::Int)
            .coerce(Value::List(vec![Value::Int(1), Value::Text("x".to_string())])),
        Err(TypingError::TypeMismatch(Typing::Int, Value::Text("x".to_string())))
    );
    assert_eq!(
        homogeneous(Typing::Int).coerce(Value::Int(1)),
        Err(TypingError::TypeMismatch(homogeneous(Typing::Int), Value::Int(1)))
    );
    assert_eq!(
        homogeneous(Typing::Int).coerce(Value::List(vec![])),
        Ok(Value::List(vec![]))
    );
}

#[test]
fn unnamed_tuple_coercion() {
    let t = Typing::UnnamedTuple(vec![Typing::Int, Typing::Bool]);
    let good = Value::List(vec![Value::Int(1), Value::Bool(true)]);
    assert_eq!(t.coerce(good.clone()), Ok(good));
    // Arity must match exactly.
    let short = Value::List(vec![Value::Int(1)]);
    assert_eq!(
        t.coerce(short.clone()),
        Err(TypingError::TypeMismatch(t.clone(), short))
    );
    // Member failures propagate unmodified.
    let bad = Value::List(vec![Value::Int(1), Value::Int(2)]);
    assert_eq!(
        t.coerce(bad),
        Err(TypingError::TypeMismatch(Typing::Bool, Value::Int(2)))
    );
}

#[test]
fn named_tuple_coercion() {
    let t = Typing::NamedTuple(vec![
        ("x".to_string(), Typing::Int),
        ("y".to_string(), Typing::Bool),
    ]);
    let good = Value::List(vec![
        Value::List(vec![Value::Text("x".to_string()), Value::Int(1)]),
        Value::List(vec![Value::Text("y".to_string()), Value::Bool(false)]),
    ]);
    assert_eq!(t.coerce(good.clone()), Ok(good));
    // An entry whose name disagrees fails as a mismatch of the whole tuple.
    let renamed = Value::List(vec![
        Value::List(vec![Value::Text("z".to_string()), Value::Int(1)]),
        Value::List(vec![Value::Text("y".to_string()), Value::Bool(false)]),
    ]);
    assert_eq!(
        t.coerce(renamed.clone()),
        Err(TypingError::TypeMismatch(t.clone(), renamed))
    );
    // A member value's failure cites the member's declared type.
    let bad = Value::List(vec![
        Value::List(vec![Value::Text("x".to_string()), Value::Int(1)]),
        Value::List(vec![Value::Text("y".to_string()), Value::Int(2)]),
    ]);
    assert_eq!(
        t.coerce(bad),
        Err(TypingError::TypeMismatch(Typing::Bool, Value::Int(2)))
    );
}

#[test]
fn scalar_helpers() {
    assert_eq!(Typing::Bool.coerce_bool(Value::Bool(true)), Ok(Value::Bool(true)));
    assert_eq!(
        Typing::Bool.coerce_bool(Value::Int(0)),
        Err(TypingError::TypeMismatch(Typing::Bool, Value::Int(0)))
    );
    assert_eq!(Typing::Int.coerce_int(Value::Int(7)), Ok(Value::Int(7)));
    assert_eq!(Typing::Float.coerce_float(Value::Float(7)), Ok(Value::Float(7)));
    assert_eq!(
        Typing::Text.coerce_text(Value::Text("t".to_string())),
        Ok(Value::Text("t".to_string()))
    );
    assert_eq!(Typing::Uuid.coerce_uuid(Value::Uuid(7)), Ok(Value::Uuid(7)));
    assert_eq!(
        Typing::Uuid.coerce_uuid(Value::Int(7)),
        Err(TypingError::TypeMismatch(Typing::Uuid, Value::Int(7)))
    );
}
