use hooks_rs::{deps_changed, Value};

fn record(fields: Vec<Value>) -> Value {
    Value::List(fields)
}

#[test]
fn same_primitives_are_equal() {
    let old: Vec<Value> = vec![Value::Int(42), Value::Uint(100u64)];
    let new: Vec<Value> = vec![Value::Int(42), Value::Uint(100u64)];

    assert!(!deps_changed(&old, &new));
}

#[test]
fn different_primitives_are_detected() {
    let old: Vec<Value> = vec![Value::Int(42), Value::Uint(100u64)];
    let new: Vec<Value> = vec![Value::Int(43), Value::Uint(100u64)];

    assert!(deps_changed(&old, &new));
}

#[test]
fn custom_structs_work() {
    // A struct with the fields `x` and `y` is a list of its fields.
    let a = record(vec![Value::Int(1), Value::Text("hi".into())]);
    let b = record(vec![Value::Int(1), Value::Text("hi".into())]);
    let c = record(vec![Value::Int(2), Value::Text("hi".into())]);

    let old: Vec<Value> = vec![a];
    let same: Vec<Value> = vec![b];
    let changed: Vec<Value> = vec![c];

    assert!(!deps_changed(&old, &same));
    assert!(deps_changed(&old, &changed));
}

#[test]
fn different_lengths_detected() {
    let old: Vec<Value> = vec![Value::Int(1)];
    let new: Vec<Value> = vec![Value::Int(1), Value::Int(2)];

    assert!(deps_changed(&old, &new));
}
