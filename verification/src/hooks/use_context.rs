//! The context primitive: values handed down the tree without passing them
//! through every call in between.
use vstd::prelude::*;
use crate::fiber::descent::{lemma_child_of_parent, lemma_closed_parent};
use crate::fiber::model::lemma_with_state_twice;
use crate::fiber::state::CursorView;
use crate::fiber::tree::FiberTree;
use crate::hooks::HookKind;
use crate::value::Value;

verus! {

/// A handle that names one context. The handle is the only way to address a
/// provided value.
#[derive(Clone, Copy, Debug, PartialEq, Eq, Structural)]
pub struct Context {
    id: u64,
}

impl Context {
    /// The number that tells this handle from the others.
    pub closed spec fn token(self) -> u64 {
        self.id
    }
}

/// Where context handles come from. The handles of one source differ from one
/// another: each carries the number of handles issued before it.
pub struct ContextSource {
    next: u64,
}

/// The number `count` steps after `first`. The numbers run through the 64-bit
/// range and begin again.
pub open spec fn token_after(first: u64, count: nat) -> u64 {
    ((first + count) % 0x1_0000_0000_0000_0000) as u64
}

impl ContextSource {
    /// The number the next handle gets.
    pub closed spec fn next_token(self) -> u64 {
        self.next
    }

    /// A source that has issued no handle.
    pub fn new() -> (source: Self)
        ensures
            source.next_token() == 1,
    {
        ContextSource { next: 1 }
    }
}

/// Issues a new context handle.
pub fn create_context(source: &mut ContextSource) -> (ctx: Context)
    ensures
        ctx.token() == old(source).next_token(),
        final(source).next_token() == token_after(old(source).next_token(), 1),
{
    let id = source.next;
    source.next = id.wrapping_add(1);
    Context { id }
}

/// Offers `value` for `ctx` to the executing fiber and its descendants.
///
/// The offer is a slot of its own: it takes the position of this call, and
/// every call of the fiber puts the value offered by that call there.
pub fn provide_context<C>(rt: &mut FiberTree<C>, ctx: Context, value: Value)
    requires
        old(rt)@.ready(HookKind::Context),
    ensures
        final(rt)@.wf(),
        final(rt)@ == old(rt)@.step(old(rt)@.cursor().provide(ctx, value@)),
{
    let ghost id = old(rt)@.active->0;
    let mut state = rt.take_state();
    state.context_slot(ctx, value);
    proof {
        lemma_with_state_twice(
            old(rt)@,
            id,
            CursorView { slots: Seq::empty(), cursor: 0 },
            state@,
        );
    }
    rt.put_state(state);
}

/// Looks for the value that the executing fiber sees for `ctx`.
///
/// The search starts at the executing fiber and goes up the parent links. In
/// each fiber the slots are read from the last declared to the first; the
/// first value met is returned as a copy. `None` says that no fiber is
/// executing or that none on the way up provides `ctx`.
pub fn find_context<C>(rt: &FiberTree<C>, ctx: Context) -> (found: Option<Value>)
    ensures
        match found {
            Some(value) => rt@.lookup(ctx) == Some(value@),
            None => rt@.lookup(ctx) is None,
        },
{
    let mut current = match rt.active_fiber() {
        Some(id) => id,
        None => {
            return None;
        },
    };
    loop
        invariant
            rt@.wf(),
            rt@.resolve(current, ctx) == rt@.lookup(ctx),
        decreases
                (if rt@.mounted(current) {
                    rt@.nodes[current].depth + 1
                } else {
                    0
                }),
    {
        match rt.node(current) {
            None => {
                return None;
            },
            Some(node) => {
                match node.state.provided(ctx) {
                    Some(value) => {
                        return Some(value);
                    },
                    None => {},
                }
                match node.parent {
                    Some(parent) => {
                        proof {
                            lemma_closed_parent(rt@.nodes, current);
                            lemma_child_of_parent(rt@.nodes, current);
                        }
                        current = parent;
                    },
                    None => {
                        return None;
                    },
                }
            },
        }
    }
}

/// The value that the executing fiber sees for `ctx`: the one provided by
/// the fiber itself or else by its nearest ancestor that provides one.
pub fn use_context<C>(rt: &FiberTree<C>, ctx: Context) -> (value: Value)
    requires
        rt@.lookup(ctx) is Some,
    ensures
        rt@.lookup(ctx) == Some(value@),
{
    match find_context(rt, ctx) {
        Some(value) => value,
        None => vstd::pervasive::unreached(),
    }
}

} // verus!
