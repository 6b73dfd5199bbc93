//! A fiber: one function bound to one hook cursor.
use vstd::prelude::*;
use crate::error::FiberStoreError;
use crate::fiber::model::{Signature, TreeView};
use crate::fiber::tree::FiberTree;
use crate::value::Value;

verus! {

/// A function that can be bound to a fiber.
///
/// The function is handed the tree it is mounted in. Through it the function
/// declares its hooks, and may mount, call and unmount other fibers.
pub trait Component: Copy {
    /// Runs the function on `props`. The tree calls this with the fiber
    /// entered: the fiber is the executing one and its cursor stands at the
    /// first slot.
    fn render(&self, rt: &mut FiberTree<Self>, props: Value) -> (out: Value)
        requires
            old(rt)@.wf(),
            old(rt)@.entered(*self),
            props@.type_of() == old(rt)@.nodes[old(rt)@.active->0].signature.props,
    ;
}

/// One function bound to one hook cursor, to be called on its own.
///
/// A fiber of this kind is the root, and at first the only fiber, of a tree
/// that belongs to it alone. Its function gets that tree, and may mount
/// children of its own there.
pub struct Fiber<C> {
    tree: FiberTree<C>,
}

/// The id a fiber has in the tree that belongs to it.
pub const ROOT: u32 = 0;

impl<C> View for Fiber<C> {
    type V = TreeView<C>;

    closed spec fn view(&self) -> TreeView<C> {
        self.tree@
    }
}

impl<C> Fiber<C> {
    /// Binds `fun` to a cursor with no slots.
    pub fn new(fun: C, signature: Signature) -> (fiber: Self)
        ensures
            fiber@ == TreeView::<C>::empty().mount(None, ROOT, fun, signature),
            fiber@.wf(),
    {
        let mut tree = FiberTree::new();
        let _ = tree.mount_fiber(None, ROOT, fun, signature);
        Fiber { tree }
    }
}

impl<C: Component> Fiber<C> {
    /// Calls the fiber on `props`, for a result of the type it was bound for.
    ///
    /// The call is refused if `props` is not of the type the fiber was bound
    /// for, or if the function has unmounted its own fiber in an earlier call.
    pub fn call(&mut self, props: Value) -> (r: Result<Value, FiberStoreError>)
        ensures
            final(self)@.wf(),
            old(self)@.mounted(ROOT) ==> match old(self)@.call_error(
                ROOT,
                Signature {
                    props: props@.type_of(),
                    result: old(self)@.nodes[ROOT].signature.result,
                },
            ) {
                Some(error) => r == Err::<Value, FiberStoreError>(error) && final(self)@
                    == old(self)@,
                None => exists|rt: &mut FiberTree<C>, out: Value|
                    (*rt)@ == old(self)@.enter(ROOT) && call_ensures(
                        C::render,
                        (&old(self)@.nodes[ROOT].component, rt, props),
                        out,
                    ) && old(self)@.returned(
                        ROOT,
                        old(self)@.nodes[ROOT].signature.result,
                        (*final(rt))@,
                        out,
                        r,
                        final(self)@,
                    ),
            },
            !old(self)@.mounted(ROOT) ==> r == Err::<Value, FiberStoreError>(
                FiberStoreError::FiberDoesntExist(ROOT),
            ) && final(self)@ == old(self)@,
    {
        match self.tree.signature_of(ROOT) {
            Some(signature) => self.tree.call(ROOT, props, signature.result),
            None => Err(FiberStoreError::FiberDoesntExist(ROOT)),
        }
    }
}

} // verus!
