//! The effect primitive.
use vstd::prelude::*;
use crate::fiber::model::lemma_with_state_twice;
use crate::fiber::state::CursorView;
use crate::fiber::tree::FiberTree;
use crate::hooks::HookKind;
use crate::value::{views, Value};

verus! {

/// Runs `effect` when the dependencies have changed.
///
/// On the fiber's first visit to this position `deps` is recorded and
/// `effect` runs. On a later visit `effect` runs, and `deps` is recorded in
/// place of the list before, if `deps` differs from the list recorded by the
/// visit before: in length or at some position. Otherwise nothing is done.
/// `effect` runs in line, before this function returns.
///
/// `effect` may be called only where it is due: nowhere else does the
/// contract allow the call.
pub fn use_effect<C, F: FnOnce()>(rt: &mut FiberTree<C>, effect: F, deps: Vec<Value>)
    requires
        old(rt)@.ready(HookKind::Effect),
        old(rt)@.cursor().effect_due(views(deps@)) ==> call_requires(effect, ()),
    ensures
        final(rt)@.wf(),
        final(rt)@ == old(rt)@.step(old(rt)@.cursor().effect_hook(views(deps@))),
        old(rt)@.cursor().effect_due(views(deps@)) ==> call_ensures(effect, (), ()),
{
    let ghost id = old(rt)@.active->0;
    let mut state = rt.take_state();
    let due = state.effect_slot(deps);
    proof {
        lemma_with_state_twice(
            old(rt)@,
            id,
            CursorView { slots: Seq::empty(), cursor: 0 },
            state@,
        );
    }
    rt.put_state(state);
    if due {
        effect();
    }
}

} // verus!
