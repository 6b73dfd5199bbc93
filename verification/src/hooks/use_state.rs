//! The persistent-state primitive.
use vstd::prelude::*;
use crate::fiber::model::lemma_with_state_twice;
use crate::fiber::state::CursorView;
use crate::fiber::tree::FiberTree;
use crate::hooks::HookKind;
use crate::value::Value;

verus! {

/// The setter of one state slot.
///
/// A setter holds the address of its slot, the fiber's id and the slot's
/// position, and nothing else. Each use finds the fiber through the tree
/// again, so a setter may be kept and used long after the call that made it.
#[derive(Clone, Copy, Debug)]
pub struct SetStateAction {
    fiber: u32,
    hook_index: usize,
}

impl SetStateAction {
    /// The fiber whose slot this setter writes.
    pub closed spec fn fiber(self) -> u32 {
        self.fiber
    }

    /// The position of that slot.
    pub closed spec fn index(self) -> nat {
        self.hook_index as nat
    }

    /// Replaces the value of the slot by what `reducer` makes of it.
    ///
    /// Nothing happens, and `reducer` is not consulted, if the fiber has been
    /// unmounted or no longer has a state slot at that position. The fiber is
    /// not called again: the new value is seen by its next call.
    pub fn set<C, F: FnOnce(&Value) -> Value>(&self, rt: &mut FiberTree<C>, reducer: F)
        requires
            old(rt)@.state_of(self.fiber(), self.index()) matches Some(current) ==> forall|
                held: Value,
            |
                held@ == current ==> call_requires(reducer, (&held,)),
        ensures
            final(rt)@.wf(),
            match old(rt)@.state_of(self.fiber(), self.index()) {
                Some(current) => exists|held: Value, next: Value|
                    held@ == current && call_ensures(reducer, (&held,), next) && final(rt)@
                        == old(rt)@.set_state(self.fiber(), self.index(), next@),
                None => final(rt)@ == old(rt)@,
            },
    {
        rt.set_state(self.fiber, self.hook_index, reducer)
    }
}

/// Declares a value that persists across the calls of the executing fiber.
///
/// On the fiber's first visit to this position the slot is declared with what
/// `initialize` returns. On every later visit `initialize` is left alone and
/// a copy of the value the slot holds is returned. With the value comes the
/// setter of the slot.
///
/// `initialize` may be called only where the slot is being declared: nowhere
/// else does the contract allow the call.
pub fn use_state<C, F: FnOnce() -> Value>(rt: &mut FiberTree<C>, initialize: F) -> (r: (
    Value,
    SetStateAction,
))
    requires
        old(rt)@.ready(HookKind::State),
        old(rt)@.cursor().mounting() ==> call_requires(initialize, ()),
    ensures
        final(rt)@.wf(),
        final(rt)@ == old(rt)@.step(old(rt)@.cursor().state_hook(r.0@)),
        r.0@ == old(rt)@.cursor().state_value(r.0@),
        old(rt)@.cursor().mounting() ==> exists|first: Value|
            call_ensures(initialize, (), first) && first@ == r.0@,
        r.1.fiber() == old(rt)@.active->0,
        r.1.index() == old(rt)@.cursor().cursor,
{
    let id = match rt.active_fiber() {
        Some(id) => id,
        None => vstd::pervasive::unreached(),
    };
    // The initializer runs while the tree is whole.
    let first = if rt.mounting() {
        Some(initialize())
    } else {
        None
    };
    let supply = move || -> (value: Value)
        requires
            first is Some,
        ensures
            value == first->0,
        {
            match first {
                Some(value) => value,
                None => vstd::pervasive::unreached(),
            }
        };
    let mut state = rt.take_state();
    let (value, index) = state.state_slot(supply);
    proof {
        lemma_with_state_twice(
            old(rt)@,
            id,
            CursorView { slots: Seq::empty(), cursor: 0 },
            state@,
        );
    }
    rt.put_state(state);
    (value, SetStateAction { fiber: id, hook_index: index })
}

} // verus!
