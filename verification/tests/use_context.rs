use hooks_rs::{
    create_context, find_context, provide_context, use_context, use_state, Component, Context,
    ContextSource, FiberStoreError, FiberTree, Signature, Value, ValueType,
};

/// The components of these tests. Each carries the handles it works with.
#[derive(Clone, Copy)]
enum App {
    /// Provides 5 and calls the fiber named.
    Parent(Context, u32),
    /// Calls the fiber named and provides nothing.
    Through(u32),
    /// Provides the value it is called with, then calls the fiber named.
    Provider(Context, u32),
    /// Provides 1 and then 2 for the same handle, and reads it.
    Twice(Context),
    /// Declares a state slot before it provides 7, and reads it.
    Mixed(Context),
    /// Returns what it sees.
    Child(Context),
    /// Returns what it finds, or -1.
    Seeker(Context),
}

impl Component for App {
    fn render(&self, rt: &mut FiberTree<App>, props: Value) -> Value {
        match *self {
            App::Parent(ctx, child) => {
                provide_context(rt, ctx, Value::Int(5));
                rt.call(child, Value::Unit, ValueType::Int).unwrap()
            }
            App::Through(child) => rt.call(child, Value::Unit, ValueType::Int).unwrap(),
            App::Provider(ctx, child) => {
                provide_context(rt, ctx, props);
                rt.call(child, Value::Unit, ValueType::Int).unwrap()
            }
            App::Twice(ctx) => {
                provide_context(rt, ctx, Value::Int(1));
                provide_context(rt, ctx, Value::Int(2));
                use_context(rt, ctx)
            }
            App::Mixed(ctx) => {
                let _ = use_state(rt, || Value::Int(0));
                provide_context(rt, ctx, Value::Int(7));
                use_context(rt, ctx)
            }
            App::Child(ctx) => use_context(rt, ctx),
            App::Seeker(ctx) => find_context(rt, ctx).unwrap_or(Value::Int(-1)),
        }
    }
}

const UNIT_TO_INT: Signature = Signature { props: ValueType::Unit, result: ValueType::Int };
const INT_TO_INT: Signature = Signature { props: ValueType::Int, result: ValueType::Int };

fn id_of(name: &str) -> u32 {
    match name {
        "root" => 1,
        "root/child" => 2,
        other => panic!("no fiber is called {other}"),
    }
}

#[test]
fn context_flows_down_call_stack() -> Result<(), FiberStoreError> {
    let mut tree = FiberTree::new();
    let ctx = create_context(&mut ContextSource::new());
    tree.mount_fiber(None, id_of("root"), App::Parent(ctx, id_of("root/child")), UNIT_TO_INT)?;
    tree.mount_fiber(Some(id_of("root")), id_of("root/child"), App::Child(ctx), UNIT_TO_INT)?;

    let v = tree.call(id_of("root"), Value::Unit, ValueType::Int)?;
    assert_eq!(v, Value::Int(5));
    Ok(())
}

#[test]
fn context_passes_fibers_that_provide_nothing() {
    let mut tree = FiberTree::new();
    let ctx = create_context(&mut ContextSource::new());
    tree.mount_fiber(None, 1, App::Parent(ctx, 2), UNIT_TO_INT).unwrap();
    tree.mount_fiber(Some(1), 2, App::Through(3), UNIT_TO_INT).unwrap();
    tree.mount_fiber(Some(2), 3, App::Through(4), UNIT_TO_INT).unwrap();
    tree.mount_fiber(Some(3), 4, App::Child(ctx), UNIT_TO_INT).unwrap();

    assert_eq!(tree.call(1, Value::Unit, ValueType::Int), Ok(Value::Int(5)));
}

#[test]
fn the_nearest_provider_wins() {
    let mut tree = FiberTree::new();
    let ctx = create_context(&mut ContextSource::new());
    tree.mount_fiber(None, 1, App::Provider(ctx, 2), INT_TO_INT).unwrap();
    tree.mount_fiber(Some(1), 2, App::Parent(ctx, 3), UNIT_TO_INT).unwrap();
    tree.mount_fiber(Some(2), 3, App::Child(ctx), UNIT_TO_INT).unwrap();
    // A second child of the root, which has only the root above it.
    tree.mount_fiber(Some(1), 4, App::Child(ctx), UNIT_TO_INT).unwrap();

    assert_eq!(tree.call(1, Value::Int(100), ValueType::Int), Ok(Value::Int(5)));

    // Fiber 4 runs on its own now: the tree, not the chain of calls, decides.
    assert_eq!(tree.call(4, Value::Unit, ValueType::Int), Ok(Value::Int(100)));
}

#[test]
fn a_provider_sees_its_own_value_and_the_last_declared_wins() {
    let mut tree = FiberTree::new();
    let ctx = create_context(&mut ContextSource::new());
    tree.mount_fiber(None, 1, App::Twice(ctx), UNIT_TO_INT).unwrap();
    tree.mount_fiber(None, 2, App::Mixed(ctx), UNIT_TO_INT).unwrap();

    assert_eq!(tree.call(1, Value::Unit, ValueType::Int), Ok(Value::Int(2)));
    assert_eq!(tree.call(1, Value::Unit, ValueType::Int), Ok(Value::Int(2)));
    assert_eq!(tree.call(2, Value::Unit, ValueType::Int), Ok(Value::Int(7)));
    assert_eq!(tree.call(2, Value::Unit, ValueType::Int), Ok(Value::Int(7)));
}

#[test]
fn a_provided_value_follows_the_latest_call() {
    let mut tree = FiberTree::new();
    let ctx = create_context(&mut ContextSource::new());
    tree.mount_fiber(None, 1, App::Provider(ctx, 2), INT_TO_INT).unwrap();
    tree.mount_fiber(Some(1), 2, App::Child(ctx), UNIT_TO_INT).unwrap();

    assert_eq!(tree.call(1, Value::Int(3), ValueType::Int), Ok(Value::Int(3)));
    assert_eq!(tree.call(1, Value::Int(4), ValueType::Int), Ok(Value::Int(4)));
}

#[test]
fn handles_are_told_apart() {
    let mut tree = FiberTree::new();
    let mut source = ContextSource::new();
    let first = create_context(&mut source);
    let second = create_context(&mut source);
    assert_ne!(first, second);

    tree.mount_fiber(None, 1, App::Parent(first, 2), UNIT_TO_INT).unwrap();
    tree.mount_fiber(Some(1), 2, App::Seeker(second), UNIT_TO_INT).unwrap();
    tree.mount_fiber(Some(1), 3, App::Seeker(first), UNIT_TO_INT).unwrap();

    // Nobody provides the second handle.
    assert_eq!(tree.call(1, Value::Unit, ValueType::Int), Ok(Value::Int(-1)));
    assert_eq!(tree.call(3, Value::Unit, ValueType::Int), Ok(Value::Int(5)));
    // Outside any call there is no executing fiber, and nothing to find.
    assert_eq!(find_context(&tree, first), None);
}

#[test]
fn a_source_issues_a_new_handle_each_time() {
    let mut source = ContextSource::new();
    let mut issued: Vec<Context> = Vec::new();
    for _ in 0..100 {
        let next = create_context(&mut source);
        assert!(!issued.contains(&next));
        issued.push(next);
    }
}
