//! A flat store of fibers.
use vstd::prelude::*;
use crate::error::FiberStoreError;
use crate::fiber::model::{Signature, TreeView};
use crate::fiber::node::Component;
use crate::fiber::tree::FiberTree;
use crate::value::{Value, ValueType};

verus! {

/// A store of fibers by id, for a driver that has no use for parents: every
/// fiber it mounts is a root. The function of a fiber still gets the tree
/// below the store, and may mount children of its own there.
pub struct FiberStore<C> {
    tree: FiberTree<C>,
}

impl<C> View for FiberStore<C> {
    type V = TreeView<C>;

    closed spec fn view(&self) -> TreeView<C> {
        self.tree@
    }
}

impl<C> FiberStore<C> {
    /// A store without fibers.
    pub fn new() -> (store: Self)
        ensures
            store@ == TreeView::<C>::empty(),
            store@.wf(),
    {
        FiberStore { tree: FiberTree::new() }
    }

    /// Mounts `fun` under `id`. The call is refused, and the store left as it
    /// is, if `id` is taken.
    pub fn mount(&mut self, id: u32, fun: C, signature: Signature) -> (r: Result<
        (),
        FiberStoreError,
    >)
        ensures
            final(self)@.wf(),
            match old(self)@.mount_error(None, id) {
                Some(error) => r == Err::<(), FiberStoreError>(error) && final(self)@ == old(self)@,
                None => r is Ok && final(self)@ == old(self)@.mount(None, id, fun, signature),
            },
    {
        self.tree.mount_fiber(None, id, fun, signature)
    }

    /// Unmounts `id`, with whatever its function has mounted below it.
    pub fn unmount(&mut self, id: u32)
        ensures
            final(self)@.wf(),
            final(self)@ == old(self)@.unmount(id),
    {
        self.tree.unmount_fiber(id)
    }
}

impl<C: Component> FiberStore<C> {
    /// Calls the fiber mounted under `id`.
    pub fn call(&mut self, id: u32, props: Value, result: ValueType) -> (r: Result<
        Value,
        FiberStoreError,
    >)
        ensures
            final(self)@.wf(),
            match old(self)@.call_error(id, Signature { props: props@.type_of(), result }) {
                Some(error) => r == Err::<Value, FiberStoreError>(error) && final(self)@
                    == old(self)@,
                None => exists|rt: &mut FiberTree<C>, out: Value|
                    (*rt)@ == old(self)@.enter(id) && call_ensures(
                        C::render,
                        (&old(self)@.nodes[id].component, rt, props),
                        out,
                    ) && old(self)@.returned(
                        id,
                        result,
                        (*final(rt))@,
                        out,
                        r,
                        final(self)@,
                    ),
            },
    {
        let r = self.tree.call(id, props, result);
        assert(self@ == self.tree@);
        r
    }

    /// Calls the fiber mounted under `id`, after mounting `fun` there if no
    /// fiber is. A fiber that is mounted already keeps its function, and the
    /// call is refused if it was mounted for another signature.
    pub fn mount_or_call(
        &mut self,
        id: u32,
        fun: C,
        signature: Signature,
        props: Value,
        result: ValueType,
    ) -> (r: Result<Value, FiberStoreError>)
        ensures
            final(self)@.wf(),
            old(self)@.mounted(id) ==> match old(self)@.call_error(
                id,
                Signature { props: props@.type_of(), result },
            ) {
                Some(error) => r == Err::<Value, FiberStoreError>(error) && final(self)@
                    == old(self)@,
                None => exists|rt: &mut FiberTree<C>, out: Value|
                    (*rt)@ == old(self)@.enter(id) && call_ensures(
                        C::render,
                        (&old(self)@.nodes[id].component, rt, props),
                        out,
                    ) && old(self)@.returned(
                        id,
                        result,
                        (*final(rt))@,
                        out,
                        r,
                        final(self)@,
                    ),
            },
            !old(self)@.mounted(id) ==> match old(self)@.mount(None, id, fun, signature).call_error(
                id,
                Signature { props: props@.type_of(), result },
            ) {
                Some(error) => r == Err::<Value, FiberStoreError>(error) && final(self)@
                    == old(self)@.mount(None, id, fun, signature),
                None => exists|rt: &mut FiberTree<C>, out: Value|
                    (*rt)@ == old(self)@.mount(None, id, fun, signature).enter(id) && call_ensures(
                        C::render,
                        (
                            &old(self)@.mount(None, id, fun, signature).nodes[id].component,
                            rt,
                            props,
                        ),
                        out,
                    ) && old(self)@.mount(None, id, fun, signature).returned(
                        id,
                        result,
                        (*final(rt))@,
                        out,
                        r,
                        final(self)@,
                    ),
            },
    {
        if self.tree.is_mounted(id) {
            self.tree.call(id, props, result)
        } else {
            match self.tree.mount_fiber(None, id, fun, signature) {
                Ok(()) => self.tree.call(id, props, result),
                Err(error) => Err(error),
            }
        }
    }
}

} // verus!
