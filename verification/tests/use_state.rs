use std::sync::atomic::{AtomicU64, Ordering};

use hooks_rs::{use_state, Component, Fiber, FiberTree, Signature, Value, ValueType};

#[derive(Clone, Copy)]
struct Func(fn(&mut FiberTree<Func>, Value) -> Value);

impl Component for Func {
    fn render(&self, rt: &mut FiberTree<Func>, props: Value) -> Value {
        (self.0)(rt, props)
    }
}

fn fiber_of(fun: fn(&mut FiberTree<Func>, Value) -> Value, result: ValueType) -> Fiber<Func> {
    Fiber::new(Func(fun), Signature { props: ValueType::Unit, result })
}

fn id_of(name: &str) -> u32 {
    match name {
        "counter" => 7,
        other => panic!("no fiber is called {other}"),
    }
}

fn number(value: &Value) -> i64 {
    match value {
        Value::Int(n) => *n,
        other => panic!("expected an integer, got {:?}", other),
    }
}

fn text_of(value: &Value) -> String {
    match value {
        Value::Text(s) => s.clone(),
        other => panic!("expected a text, got {:?}", other),
    }
}

#[test]
fn works() {
    fn counter(rt: &mut FiberTree<Func>, _: Value) -> Value {
        let (count, set_count) = use_state(rt, || Value::Int(0));
        let next = number(&count) + 1;
        set_count.set(rt, |_| Value::Int(next));
        count
    }

    let mut fiber = fiber_of(counter, ValueType::Int);

    assert_eq!(fiber.call(Value::Unit), Ok(Value::Int(0)));
    assert_eq!(fiber.call(Value::Unit), Ok(Value::Int(1)));
    assert_eq!(fiber.call(Value::Unit), Ok(Value::Int(2)));
    assert_eq!(fiber.call(Value::Unit), Ok(Value::Int(3)));
}

#[test]
fn preserves_order() {
    fn component(rt: &mut FiberTree<Func>, _: Value) -> Value {
        let (a, set_a) = use_state(rt, || Value::Int(1));
        let (b, set_b) = use_state(rt, || Value::Int(10));

        let next_a = number(&a) + 1;
        let next_b = number(&b) + 10;
        set_a.set(rt, |_| Value::Int(next_a));
        set_b.set(rt, |_| Value::Int(next_b));

        Value::List(vec![a, b])
    }

    let mut fiber = fiber_of(component, ValueType::List);
    let pair = |a: i64, b: i64| Ok(Value::List(vec![Value::Int(a), Value::Int(b)]));

    assert_eq!(fiber.call(Value::Unit), pair(1, 10));
    assert_eq!(fiber.call(Value::Unit), pair(2, 20));
    assert_eq!(fiber.call(Value::Unit), pair(3, 30));
}

#[test]
fn initial_state_is_only_called_once() {
    static CALLS: AtomicU64 = AtomicU64::new(0);

    fn component(rt: &mut FiberTree<Func>, _: Value) -> Value {
        let (value, _) = use_state(rt, || {
            CALLS.fetch_add(1, Ordering::Relaxed);

            Value::Int(42)
        });
        value
    }

    let mut fiber = fiber_of(component, ValueType::Int);

    assert_eq!(fiber.call(Value::Unit), Ok(Value::Int(42)));
    assert_eq!(fiber.call(Value::Unit), Ok(Value::Int(42)));
    assert_eq!(fiber.call(Value::Unit), Ok(Value::Int(42)));

    assert_eq!(CALLS.load(Ordering::Relaxed), 1);
}

#[test]
fn heterogeneous_hook_types_work() {
    fn component(rt: &mut FiberTree<Func>, _: Value) -> Value {
        let (count, set_count) = use_state(rt, || Value::Int(0));
        let (label, set_label) = use_state(rt, || Value::Text(String::from("hi")));

        let next = number(&count) + 1;
        let shown = text_of(&label);
        set_count.set(rt, |_| Value::Int(next));
        set_label.set(rt, |_| Value::Text(format!("{shown}!")));

        Value::List(vec![count, label])
    }

    let mut fiber = fiber_of(component, ValueType::List);
    let pair = |n: i64, s: &str| Ok(Value::List(vec![Value::Int(n), Value::Text(s.into())]));

    assert_eq!(fiber.call(Value::Unit), pair(0, "hi"));
    assert_eq!(fiber.call(Value::Unit), pair(1, "hi!"));
    assert_eq!(fiber.call(Value::Unit), pair(2, "hi!!"));
}

#[test]
fn counter_with_reducer_counts_up() {
    fn counter(rt: &mut FiberTree<Func>, _: Value) -> Value {
        let (count, set) = use_state(rt, || Value::Int(0));
        set.set(rt, |prev| Value::Int(number(prev) + 1));
        count
    }

    let mut tree = FiberTree::new();
    let counter_id = id_of("counter");
    let signature = Signature { props: ValueType::Unit, result: ValueType::Int };
    tree.mount_fiber(None, counter_id, Func(counter), signature).unwrap();

    let mut seen = Vec::new();
    for _ in 0..4 {
        seen.push(number(&tree.call(counter_id, Value::Unit, ValueType::Int).unwrap()));
    }
    assert_eq!(seen, vec![0, 1, 2, 3]);
}

#[test]
fn setter_outlives_the_call_that_made_it() {
    fn component(rt: &mut FiberTree<Func>, _: Value) -> Value {
        let (value, _) = use_state(rt, || Value::Int(5));
        value
    }
    fn leak(rt: &mut FiberTree<Func>, _: Value) -> Value {
        let (_, set) = use_state(rt, || Value::Int(5));
        // Written between calls, by whoever holds the setter.
        set.set(rt, |prev| Value::Int(number(prev) * 2));
        set.set(rt, |prev| Value::Int(number(prev) + 1));
        Value::Unit
    }

    let mut tree = FiberTree::new();
    let unit_to_int = Signature { props: ValueType::Unit, result: ValueType::Int };
    let unit_to_unit = Signature { props: ValueType::Unit, result: ValueType::Unit };
    tree.mount_fiber(None, 1, Func(component), unit_to_int).unwrap();
    tree.mount_fiber(None, 2, Func(leak), unit_to_unit).unwrap();

    assert_eq!(tree.call(1, Value::Unit, ValueType::Int), Ok(Value::Int(5)));
    assert_eq!(tree.call(2, Value::Unit, ValueType::Unit), Ok(Value::Unit));
    // Fiber 2 wrote its own slot, not that of fiber 1.
    assert_eq!(tree.call(1, Value::Unit, ValueType::Int), Ok(Value::Int(5)));
}

#[test]
fn setter_of_an_unmounted_fiber_does_nothing() {
    static KEPT: std::sync::Mutex<Option<hooks_rs::SetStateAction>> = std::sync::Mutex::new(None);

    fn component(rt: &mut FiberTree<Func>, _: Value) -> Value {
        let (value, set) = use_state(rt, || Value::Int(1));
        *KEPT.lock().unwrap() = Some(set);
        value
    }

    let mut tree = FiberTree::new();
    let signature = Signature { props: ValueType::Unit, result: ValueType::Int };
    tree.mount_fiber(None, 0, Func(component), signature).unwrap();
    assert_eq!(tree.call(0, Value::Unit, ValueType::Int), Ok(Value::Int(1)));
    let set = KEPT.lock().unwrap().unwrap();

    set.set(&mut tree, |_| Value::Int(9));
    assert_eq!(tree.call(0, Value::Unit, ValueType::Int), Ok(Value::Int(9)));

    tree.unmount_fiber(0);
    set.set(&mut tree, |_| panic!("the reducer must not run"));
    assert!(!tree.is_mounted(0));

    // A new fiber under the old id starts from its initializer.
    tree.mount_fiber(None, 0, Func(component), signature).unwrap();
    assert_eq!(tree.call(0, Value::Unit, ValueType::Int), Ok(Value::Int(1)));
}

#[test]
#[should_panic]
fn use_state_outside_fiber_panics() {
    let mut tree: FiberTree<Func> = FiberTree::new();
    let _ = use_state(&mut tree, || Value::Int(0));
}
