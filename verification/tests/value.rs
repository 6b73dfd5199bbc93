use hooks_rs::{deps_changed, DynEq, Value, ValueType};

#[test]
fn every_value_has_its_tag() {
    assert_eq!(Value::Unit.type_of(), ValueType::Unit);
    assert_eq!(Value::Bool(true).type_of(), ValueType::Bool);
    assert_eq!(Value::Int(-1).type_of(), ValueType::Int);
    assert_eq!(Value::Uint(1).type_of(), ValueType::Uint);
    assert_eq!(Value::Text("a".into()).type_of(), ValueType::Text);
    assert_eq!(Value::List(vec![]).type_of(), ValueType::List);
}

#[test]
fn values_compare_by_tag_and_content() {
    assert_eq!(Value::Int(1), Value::Int(1));
    assert_ne!(Value::Int(1), Value::Int(2));
    assert_ne!(Value::Int(1), Value::Uint(1));
    assert_ne!(Value::Unit, Value::Bool(false));
    assert_eq!(Value::Text("hi".into()), Value::Text("hi".into()));
    assert_ne!(Value::Text("hi".into()), Value::Text("hi!".into()));

    let nested = |x: i64| Value::List(vec![Value::List(vec![Value::Int(x)]), Value::Unit]);
    assert_eq!(nested(1), nested(1));
    assert_ne!(nested(1), nested(2));
    assert_ne!(Value::List(vec![]), Value::List(vec![Value::Unit]));
    assert_ne!(Value::List(vec![Value::Unit]), Value::Unit);

    assert!(Value::Int(3).same(&Value::Int(3)));
    assert!(Value::Int(3).eq_dyn(&Value::Int(3)));
    assert!(!Value::Int(3).eq_dyn(&Value::Uint(3)));
}

#[test]
fn a_copy_is_equal_and_apart() {
    let first = Value::List(vec![Value::Text("a".into()), Value::List(vec![Value::Int(1)])]);
    let mut copy = first.clone();
    assert_eq!(copy, first);
    if let Value::List(items) = &mut copy {
        items.push(Value::Unit);
    }
    assert_ne!(copy, first);
}

#[test]
fn empty_lists_have_not_changed() {
    let none: Vec<Value> = vec![];
    assert!(!deps_changed(&none, &none));
    assert!(deps_changed(&none, &[Value::Unit]));
    assert!(deps_changed(&[Value::Unit], &none));
}

#[test]
fn a_difference_at_any_position_is_a_change() {
    let old = vec![Value::Int(1), Value::Int(2), Value::Int(3)];
    for at in 0..3 {
        let mut new = old.clone();
        new[at] = Value::Int(0);
        assert!(deps_changed(&old, &new));
    }
    assert!(!deps_changed(&old, &old.clone()));
}
