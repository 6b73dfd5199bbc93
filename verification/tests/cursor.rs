use hooks_rs::{create_context, ContextSource, FiberTree, HookKind, HooksState, Value};

#[test]
fn an_empty_cursor_expects_any_hook() {
    let state = HooksState::new();
    for kind in [HookKind::State, HookKind::Effect, HookKind::Ref, HookKind::Context] {
        assert!(state.expects(kind));
    }
}

#[test]
fn a_slot_keeps_its_kind() {
    let mut state = HooksState::new();
    assert!(state.mounting());
    let (value, index) = state.state_slot(|| Value::Int(1));
    assert_eq!((value, index), (Value::Int(1), 0));
    assert!(state.effect_slot(vec![Value::Int(1)]));
    assert!(state.mounting());

    state.reset();
    assert!(!state.mounting());
    assert!(state.expects(HookKind::State));
    assert!(!state.expects(HookKind::Effect));
    assert!(!state.expects(HookKind::Ref));
    assert!(!state.expects(HookKind::Context));

    let (value, index) = state.state_slot(|| Value::Int(2));
    assert_eq!((value, index), (Value::Int(1), 0));
    assert!(state.expects(HookKind::Effect));
    assert!(!state.expects(HookKind::State));
    assert!(!state.effect_slot(vec![Value::Int(1)]));

    // Past the last slot any hook may be declared.
    assert!(state.expects(HookKind::Ref));
}

#[test]
fn a_state_slot_is_written_in_place() {
    let mut state = HooksState::new();
    state.state_slot(|| Value::Int(1));
    state.effect_slot(vec![]);
    state.state_slot(|| Value::Text("a".into()));

    assert_eq!(state.state_at(0), Some(&Value::Int(1)));
    assert_eq!(state.state_at(1), None);
    assert_eq!(state.state_at(2), Some(&Value::Text("a".into())));
    assert_eq!(state.state_at(3), None);

    state.write_state(2, Value::Text("ab".into()));
    // Neither an effect slot nor a position past the end is written.
    state.write_state(1, Value::Int(0));
    state.write_state(3, Value::Int(0));

    state.reset();
    assert_eq!(state.state_slot(|| Value::Unit).0, Value::Int(1));
    assert!(!state.effect_slot(vec![]));
    assert_eq!(state.state_slot(|| Value::Unit).0, Value::Text("ab".into()));
}

#[test]
fn the_last_declared_provider_is_found() {
    let mut source = ContextSource::new();
    let first = create_context(&mut source);
    let second = create_context(&mut source);
    let third = create_context(&mut source);

    let mut state = HooksState::new();
    state.context_slot(first, Value::Int(1));
    state.context_slot(second, Value::Int(2));
    state.context_slot(first, Value::Int(3));
    state.state_slot(|| Value::Int(4));

    assert_eq!(state.provided(first), Some(Value::Int(3)));
    assert_eq!(state.provided(second), Some(Value::Int(2)));
    assert_eq!(state.provided(third), None);

    // The next visit puts its own values in the same places.
    state.reset();
    state.context_slot(first, Value::Int(10));
    assert_eq!(state.provided(first), Some(Value::Int(3)));
    state.context_slot(second, Value::Int(20));
    state.context_slot(first, Value::Int(30));
    assert_eq!(state.provided(first), Some(Value::Int(30)));
    assert_eq!(state.provided(second), Some(Value::Int(20)));
}

#[test]
fn a_tree_without_an_executing_fiber_expects_no_hook() {
    let tree: FiberTree<Nothing> = FiberTree::new();
    assert_eq!(tree.active_fiber(), None);
    for kind in [HookKind::State, HookKind::Effect, HookKind::Ref, HookKind::Context] {
        assert!(!tree.expects(kind));
    }
}

#[derive(Clone, Copy)]
struct Nothing;

impl hooks_rs::Component for Nothing {
    fn render(&self, _: &mut FiberTree<Nothing>, _: Value) -> Value {
        Value::Unit
    }
}
