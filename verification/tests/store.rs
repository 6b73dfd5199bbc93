use hooks_rs::{
    use_state, Component, FiberStore, FiberStoreError, FiberTree, HookKind, Signature, Value,
    ValueType,
};

#[derive(Clone, Copy)]
struct Func(fn(&mut FiberTree<Func>, Value) -> Value);

impl Component for Func {
    fn render(&self, rt: &mut FiberTree<Func>, props: Value) -> Value {
        (self.0)(rt, props)
    }
}

const INT_TO_INT: Signature = Signature { props: ValueType::Int, result: ValueType::Int };

/// Adds the input to a running sum and returns the sum before.
fn sum(rt: &mut FiberTree<Func>, props: Value) -> Value {
    let (total, set) = use_state(rt, || Value::Int(0));
    set.set(rt, |held| match (held, &props) {
        (Value::Int(a), Value::Int(b)) => Value::Int(a + b),
        _ => held.clone(),
    });
    total
}

fn double(_: &mut FiberTree<Func>, props: Value) -> Value {
    match props {
        Value::Int(n) => Value::Int(2 * n),
        other => other,
    }
}

#[test]
fn mount_or_call_mounts_once() {
    let mut store = FiberStore::new();
    let run = |store: &mut FiberStore<Func>, n: i64| {
        store.mount_or_call(1, Func(sum), INT_TO_INT, Value::Int(n), ValueType::Int)
    };
    assert_eq!(run(&mut store, 5), Ok(Value::Int(0)));
    assert_eq!(run(&mut store, 6), Ok(Value::Int(5)));
    assert_eq!(run(&mut store, 7), Ok(Value::Int(11)));

    // The fiber under the id keeps its function.
    assert_eq!(
        store.mount_or_call(1, Func(double), INT_TO_INT, Value::Int(1), ValueType::Int),
        Ok(Value::Int(18))
    );
    assert_eq!(store.call(1, Value::Int(0), ValueType::Int), Ok(Value::Int(19)));
}

#[test]
fn mount_or_call_checks_the_signature() {
    let mut store = FiberStore::new();
    // The fiber is mounted, and the call that follows is refused.
    assert_eq!(
        store.mount_or_call(1, Func(double), INT_TO_INT, Value::Unit, ValueType::Int),
        Err(FiberStoreError::FiberTypeMismatch(1))
    );
    assert_eq!(
        store.mount(1, Func(double), INT_TO_INT),
        Err(FiberStoreError::FiberAlreadyExists(1))
    );
    assert_eq!(store.call(1, Value::Int(4), ValueType::Int), Ok(Value::Int(8)));
}

#[test]
fn the_store_mounts_calls_and_unmounts() {
    let mut store = FiberStore::new();
    assert_eq!(
        store.call(1, Value::Int(1), ValueType::Int),
        Err(FiberStoreError::FiberDoesntExist(1))
    );
    assert_eq!(store.mount(1, Func(sum), INT_TO_INT), Ok(()));
    assert_eq!(store.mount(2, Func(sum), INT_TO_INT), Ok(()));
    assert_eq!(store.call(1, Value::Int(3), ValueType::Int), Ok(Value::Int(0)));
    assert_eq!(store.call(1, Value::Int(3), ValueType::Int), Ok(Value::Int(3)));
    assert_eq!(store.call(2, Value::Int(1), ValueType::Int), Ok(Value::Int(0)));

    store.unmount(1);
    store.unmount(1);
    assert_eq!(
        store.call(1, Value::Int(1), ValueType::Int),
        Err(FiberStoreError::FiberDoesntExist(1))
    );
    assert_eq!(store.call(2, Value::Int(1), ValueType::Int), Ok(Value::Int(1)));

    assert_eq!(store.mount(1, Func(sum), INT_TO_INT), Ok(()));
    assert_eq!(store.call(1, Value::Int(1), ValueType::Int), Ok(Value::Int(0)));
}

#[test]
fn a_hook_is_refused_where_another_was_declared() {
    fn probe(rt: &mut FiberTree<Func>, _: Value) -> Value {
        let fits = rt.expects(HookKind::Effect);
        let _ = use_state(rt, || Value::Int(0));
        Value::Bool(fits)
    }
    let mut store = FiberStore::new();
    let signature = Signature { props: ValueType::Unit, result: ValueType::Bool };
    store.mount(1, Func(probe), signature).unwrap();
    // On the first call the position is free; afterwards it holds a state slot.
    assert_eq!(store.call(1, Value::Unit, ValueType::Bool), Ok(Value::Bool(true)));
    assert_eq!(store.call(1, Value::Unit, ValueType::Bool), Ok(Value::Bool(false)));
}
