//! Fibers and the tree that owns them.
use vstd::prelude::*;
use crate::error::FiberStoreError;
use crate::value::{Value, ValueType};

pub mod descent;
pub mod model;
pub mod node;
pub mod state;
pub mod store;
pub mod tree;

pub use model::{NodeView, Signature, TreeView};
pub use node::{Component, Fiber};
pub use state::{CursorView, HooksState};
pub use store::FiberStore;
pub use tree::FiberTree;

verus! {

/// Mounts `fun` under `id` in `tree`, as the last child of `parent` if one is
/// named.
pub fn mount_fiber<C>(
    tree: &mut FiberTree<C>,
    parent: Option<u32>,
    id: u32,
    fun: C,
    signature: Signature,
) -> (r: Result<(), FiberStoreError>)
    ensures
        final(tree)@.wf(),
        match old(tree)@.mount_error(parent, id) {
            Some(error) => r == Err::<(), FiberStoreError>(error) && final(tree)@ == old(tree)@,
            None => r is Ok && final(tree)@ == old(tree)@.mount(parent, id, fun, signature),
        },
{
    tree.mount_fiber(parent, id, fun, signature)
}

/// Unmounts `id` and all its descendants from `tree`.
pub fn unmount_fiber<C>(tree: &mut FiberTree<C>, id: u32)
    ensures
        final(tree)@ == old(tree)@.unmount(id),
        final(tree)@.wf(),
{
    tree.unmount_fiber(id)
}

/// Calls the fiber mounted under `id` in `tree`.
pub fn call_fiber<C: Component>(
    tree: &mut FiberTree<C>,
    id: u32,
    props: Value,
    result: ValueType,
) -> (r: Result<Value, FiberStoreError>)
    ensures
        final(tree)@.wf(),
        match old(tree)@.call_error(id, Signature { props: props@.type_of(), result }) {
            Some(error) => r == Err::<Value, FiberStoreError>(error) && final(tree)@ == old(tree)@,
            None => exists|rt: &mut FiberTree<C>, out: Value|
                    (*rt)@ == old(tree)@.enter(id) && call_ensures(
                        C::render,
                        (&old(tree)@.nodes[id].component, rt, props),
                        out,
                    ) && old(tree)@.returned(
                        id,
                        result,
                        (*final(rt))@,
                        out,
                        r,
                        final(tree)@,
                    ),
        },
{
    tree.call(id, props, result)
}

/// The children of `id`, in the order in which they were mounted.
pub fn get_children_ids<C>(tree: &FiberTree<C>, id: u32) -> (r: Result<Vec<u32>, FiberStoreError>)
    ensures
        match r {
            Ok(children) => tree@.mounted(id) && children@ == tree@.nodes[id].children,
            Err(error) => !tree@.mounted(id) && error == FiberStoreError::FiberDoesntExist(id),
        },
{
    tree.children_of(id)
}

/// The parent of `id`, if it has one.
pub fn get_parent_id<C>(tree: &FiberTree<C>, id: u32) -> (r: Result<Option<u32>, FiberStoreError>)
    ensures
        match r {
            Ok(parent) => tree@.mounted(id) && parent == tree@.nodes[id].parent,
            Err(error) => !tree@.mounted(id) && error == FiberStoreError::FiberDoesntExist(id),
        },
{
    tree.parent_of(id)
}

} // verus!
