use std::cell::RefCell;

use hooks_rs::{
    use_ref, Component, Fiber, FiberTree, SharedCell, Signature, Value, ValueType,
};

/// A component that declares one cell for each value of `seeds` and hands the
/// cells out through `handles`.
#[derive(Clone, Copy)]
struct Cells {
    seeds: &'static Vec<Value>,
    handles: &'static RefCell<Vec<SharedCell>>,
}

impl Component for Cells {
    fn render(&self, rt: &mut FiberTree<Cells>, _: Value) -> Value {
        let mut handles = Vec::new();
        for seed in self.seeds {
            handles.push(use_ref(rt, seed.clone()));
        }
        *self.handles.borrow_mut() = handles;
        Value::Unit
    }
}

// A struct with the one field `x`.
fn my_struct(x: i64) -> Value {
    Value::List(vec![Value::Int(x)])
}

struct Rendered {
    fiber: Fiber<Cells>,
    handles: &'static RefCell<Vec<SharedCell>>,
}

impl Rendered {
    fn new(seeds: Vec<Value>) -> Rendered {
        let seeds: &'static Vec<Value> = Box::leak(Box::new(seeds));
        let handles: &'static RefCell<Vec<SharedCell>> = Box::leak(Box::new(RefCell::new(vec![])));
        let signature = Signature { props: ValueType::Unit, result: ValueType::Unit };
        Rendered { fiber: Fiber::new(Cells { seeds, handles }, signature), handles }
    }

    fn call(&mut self) -> Vec<SharedCell> {
        self.fiber.call(Value::Unit).unwrap();
        self.handles.borrow().clone()
    }
}

#[test]
fn initial_value_is_set() {
    let mut fiber = Rendered::new(vec![Value::Int(42)]);

    let r = fiber.call();
    assert_eq!(*r[0].borrow(), Value::Int(42));
}

#[test]
fn value_persists_across_renders() {
    let mut fiber = Rendered::new(vec![Value::Int(0)]);

    let r1 = fiber.call();
    *r1[0].borrow_mut() = Value::Int(10); // mutate ref

    let r2 = fiber.call(); // call again
    assert_eq!(*r2[0].borrow(), Value::Int(10)); // value should persist
}

#[test]
fn can_hold_custom_struct() {
    let mut fiber = Rendered::new(vec![my_struct(5)]);

    let r1 = fiber.call();
    assert_eq!(*r1[0].borrow(), my_struct(5));

    *r1[0].borrow_mut() = my_struct(20);
    let r2 = fiber.call();
    assert_eq!(*r2[0].borrow(), my_struct(20));
}

#[test]
fn multiple_refs_in_same_component() {
    let mut fiber = Rendered::new(vec![Value::Int(1), Value::Int(2)]);

    let r1 = fiber.call();
    *r1[0].borrow_mut() = Value::Int(10);
    *r1[1].borrow_mut() = Value::Int(20);

    let r2 = fiber.call();
    assert_eq!(*r2[0].borrow(), Value::Int(10));
    assert_eq!(*r2[1].borrow(), Value::Int(20));
}

#[test]
fn every_call_returns_the_same_cell() {
    let mut fiber = Rendered::new(vec![Value::Int(1), Value::Int(1)]);

    let first = fiber.call();
    let second = fiber.call();
    assert!(std::rc::Rc::ptr_eq(&first[0], &second[0]));
    assert!(std::rc::Rc::ptr_eq(&first[1], &second[1]));
    // Two declarations are two cells, whatever they were seeded with.
    assert!(!std::rc::Rc::ptr_eq(&first[0], &first[1]));

    // A write through the handle of the first call is seen through that of the second.
    *first[0].borrow_mut() = Value::Text("new".into());
    assert_eq!(*second[0].borrow(), Value::Text("new".into()));
    assert_eq!(*second[1].borrow(), Value::Int(1));
}

#[test]
fn a_cell_outlives_its_fiber() {
    let mut fiber = Rendered::new(vec![Value::Int(3)]);
    let kept = fiber.call();
    drop(fiber);
    assert_eq!(*kept[0].borrow(), Value::Int(3));
}
