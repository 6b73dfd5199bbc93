//! The stable-cell primitive.
use vstd::prelude::*;
use std::cell::RefCell;
use std::rc::Rc;
use crate::fiber::model::lemma_with_state_twice;
use crate::fiber::state::CursorView;
use crate::fiber::tree::FiberTree;
use crate::hooks::HookKind;
use crate::value::Value;

verus! {

/// The standard library's `std::cell::RefCell`, declared so that a cell can
/// stand in a slot. Nothing of what a cell holds is visible to the proofs, and
/// the runtime never looks inside one.
#[verifier::external_type_specification]
#[verifier::external_body]
#[verifier::reject_recursive_types(T)]
pub struct ExRefCell<T: ?Sized>(RefCell<T>);

/// `std::cell::RefCell::new` makes a cell. Nothing is claimed of the cell it
/// returns.
pub assume_specification<T>[ RefCell::<T>::new ](value: T) -> (cell: RefCell<T>);

/// A shared, mutable, reference-counted cell.
pub type SharedCell = Rc<RefCell<Value>>;

/// Declares a cell that persists across the calls of the executing fiber.
///
/// On the fiber's first visit to this position a cell seeded with `initial`
/// is allocated and kept. On every visit the kept cell itself is returned, not
/// a copy: what is written through the handle is seen by whoever else holds
/// it.
pub fn use_ref<C>(rt: &mut FiberTree<C>, initial: Value) -> (cell: SharedCell)
    requires
        old(rt)@.ready(HookKind::Ref),
    ensures
        final(rt)@.wf(),
        final(rt)@ == old(rt)@.step(old(rt)@.cursor().ref_hook(cell)),
        cell == old(rt)@.cursor().ref_value(cell),
{
    let ghost id = old(rt)@.active->0;
    let mut state = rt.take_state();
    let cell = state.ref_slot(initial);
    proof {
        lemma_with_state_twice(
            old(rt)@,
            id,
            CursorView { slots: Seq::empty(), cursor: 0 },
            state@,
        );
    }
    rt.put_state(state);
    cell
}

} // verus!
