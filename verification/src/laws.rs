//! What holds of the runtime as a whole.
//!
//! Each law speaks of the model, that is of the functions on `TreeView` and
//! `CursorView` that the contracts of the executable code are stated in.
use vstd::prelude::*;
use crate::fiber::descent::{
    lemma_ancestor_present, lemma_child_of_parent, lemma_closed_parent, lemma_unmount_wf,
};
use crate::fiber::model::{
    ancestor, lemma_mount_wf, subtree, without, NodeView, Signature, TreeView,
};
use crate::fiber::state::CursorView;
use crate::hooks::use_context::{token_after, Context};
use crate::hooks::use_ref::SharedCell;
use crate::hooks::{HookKind, HookView};
use crate::value::ValueView;

verus! {

impl CursorView {
    /// The cursor of a later invocation when it has come to `position` again:
    /// the slots are those of `self`.
    pub open spec fn revisit(self, position: nat) -> CursorView {
        CursorView { slots: self.slots, cursor: position }
    }
}

/// A slot keeps the kind it was declared with: a hook call that is in order
/// leaves every slot that exists in its place and of its kind, and so does a
/// setter.
pub proof fn law_kinds_are_permanent(
    cursor: CursorView,
    value: ValueView,
    deps: Seq<ValueView>,
    cell: SharedCell,
    ctx: Context,
    index: nat,
    position: int,
)
    requires
        0 <= position < cursor.slots.len(),
    ensures
        cursor.expects(HookKind::State) ==> cursor.state_hook(value).slots[position].kind()
            == cursor.slots[position].kind(),
        cursor.expects(HookKind::Effect) ==> cursor.effect_hook(deps).slots[position].kind()
            == cursor.slots[position].kind(),
        cursor.expects(HookKind::Ref) ==> cursor.ref_hook(cell).slots[position].kind()
            == cursor.slots[position].kind(),
        cursor.expects(HookKind::Context) ==> cursor.provide(ctx, value).slots[position].kind()
            == cursor.slots[position].kind(),
        cursor.set_state(index, value).slots[position].kind() == cursor.slots[position].kind(),
        cursor.rewind().slots == cursor.slots,
{
}

/// A state slot holds the value its declaration returned until a setter
/// writes it, and then the value written last. Every later visit returns what
/// the slot holds and leaves the slots alone, whatever its initializer would
/// give: the initializer counts on the first visit only.
pub proof fn law_state_persists(
    cursor: CursorView,
    init: ValueView,
    written: ValueView,
    later_init: ValueView,
)
    requires
        cursor.expects(HookKind::State),
    ensures
        ({
            let position = cursor.cursor;
            let declared = cursor.state_hook(init);
            let returned = cursor.state_value(init);
            let untouched = declared.revisit(position);
            let updated = declared.set_state(position, written).revisit(position);
            &&& declared.wf()
            &&& declared.state_at(position) == Some(returned)
            &&& untouched.expects(HookKind::State)
            &&& untouched.state_value(later_init) == returned
            &&& untouched.state_hook(later_init).slots == declared.slots
            &&& updated.expects(HookKind::State)
            &&& updated.state_value(later_init) == written
            &&& updated.state_hook(later_init).slots == updated.slots
        }),
{
}

/// What is done to the cursor of one fiber, by a hook, by a setter or by
/// entering the fiber, leaves every other fiber as it is.
pub proof fn law_fibers_are_apart<C>(
    t: TreeView<C>,
    fiber: u32,
    other: u32,
    state: CursorView,
    index: nat,
    value: ValueView,
)
    requires
        fiber != other,
    ensures
        t.with_state(fiber, state).mounted(other) == t.mounted(other),
        t.with_state(fiber, state).nodes[other] == t.nodes[other],
        t.set_state(fiber, index, value).mounted(other) == t.mounted(other),
        t.set_state(fiber, index, value).nodes[other] == t.nodes[other],
        t.enter(fiber).mounted(other) == t.mounted(other),
        t.enter(fiber).nodes[other] == t.nodes[other],
{
}

/// Mounting adds the one fiber, without slots and without children, and lists
/// it last among the children of its parent. Every other fiber is as it was.
pub proof fn law_mount_adds_one<C>(
    t: TreeView<C>,
    parent: Option<u32>,
    id: u32,
    component: C,
    signature: Signature,
)
    requires
        t.wf(),
        t.mount_error(parent, id) is None,
    ensures
        ({
            let after = t.mount(parent, id, component, signature);
            &&& after.wf()
            &&& after.nodes.dom() == t.nodes.dom().insert(id)
            &&& after.nodes[id].parent == parent
            &&& after.nodes[id].children.len() == 0
            &&& after.nodes[id].state.slots.len() == 0
            &&& after.nodes[id].component == component
            &&& after.nodes[id].signature == signature
            &&& after.active == t.active
            &&& parent matches Some(p) ==> after.nodes[p].children == t.nodes[p].children.push(id)
            &&& forall|x: u32|
                x != id && parent != Some(x) ==> #[trigger] after.nodes[x] == t.nodes[x]
        }),
{
    lemma_mount_wf(t, parent, id, component, signature);
    let after = t.mount(parent, id, component, signature);
    assert(after.nodes.dom() =~= t.nodes.dom().insert(id));
}

/// Entering a fiber leaves its slots as they are, takes its cursor back to
/// the first of them and makes it the executing fiber.
pub proof fn law_enter_keeps_slots<C>(t: TreeView<C>, id: u32)
    requires
        t.mounted(id),
    ensures
        t.enter(id).active == Some(id),
        t.enter(id).cursor() == t.nodes[id].state.revisit(0),
        t.enter(id).nodes.dom() == t.nodes.dom(),
{
    assert(t.enter(id).nodes.dom() =~= t.nodes.dom());
}

/// An effect runs on the first visit. On a later visit it runs exactly when
/// the dependencies differ from those of the visit before.
pub proof fn law_effect_runs_on_change(
    cursor: CursorView,
    deps: Seq<ValueView>,
    later_deps: Seq<ValueView>,
)
    requires
        cursor.expects(HookKind::Effect),
    ensures
        cursor.mounting() ==> cursor.effect_due(deps),
        ({
            let later = cursor.effect_hook(deps).revisit(cursor.cursor);
            &&& later.expects(HookKind::Effect)
            &&& later.effect_due(later_deps) <==> later_deps != deps
            &&& later.effect_hook(later_deps).revisit(cursor.cursor).current()
                == HookView::Effect(later_deps)
        }),
{
}

/// Every visit of a ref slot returns the cell that the first visit kept,
/// whatever cell a later visit would allocate.
pub proof fn law_ref_is_stable(cursor: CursorView, fresh: SharedCell, later_fresh: SharedCell)
    requires
        cursor.expects(HookKind::Ref),
    ensures
        ({
            let later = cursor.ref_hook(fresh).revisit(cursor.cursor);
            &&& later.expects(HookKind::Ref)
            &&& later.ref_value(later_fresh) == cursor.ref_value(fresh)
            &&& later.ref_hook(later_fresh).slots == later.slots
        }),
{
}

/// The handles of one source differ: of the numbers that follow one another
/// from any first number, no two are the same until the 64-bit range is used
/// up.
pub proof fn law_handles_differ(first: u64, earlier: nat, later: nat)
    requires
        earlier < later < 0x1_0000_0000_0000_0000,
    ensures
        token_after(first, earlier) != token_after(first, later),
        token_after(token_after(first, earlier), 1) == token_after(first, earlier + 1),
{
}

impl<C> TreeView<C> {
    /// The fiber `k` levels above `id` provides `ctx`, and none between it and
    /// `id`, `id` included, does.
    pub open spec fn nearest_provider(self, id: u32, ctx: Context, k: nat) -> bool {
        &&& ancestor(self.nodes, id, k) is Some
        &&& self.nodes[ancestor(self.nodes, id, k)->0].state.provided(ctx) is Some
        &&& forall|j: nat|
            j < k ==> self.nodes[(#[trigger] ancestor(self.nodes, id, j))->0].state.provided(ctx)
                is None
    }

    /// Neither `id` nor any of its ancestors provides `ctx`.
    pub open spec fn unprovided(self, id: u32, ctx: Context) -> bool {
        forall|k: nat|
            (#[trigger] ancestor(self.nodes, id, k)) is Some ==> self.nodes[ancestor(
                self.nodes,
                id,
                k,
            )->0].state.provided(ctx) is None
    }
}

/// A fiber sees for a context the value of its nearest provider, itself
/// included, however many fibers that provide nothing lie between.
pub proof fn law_context_nearest<C>(t: TreeView<C>, id: u32, ctx: Context, k: nat)
    requires
        t.wf(),
        t.nearest_provider(id, ctx, k),
    ensures
        t.resolve(id, ctx) == t.nodes[ancestor(t.nodes, id, k)->0].state.provided(ctx),
    decreases k,
{
    lemma_ancestor_present(t.nodes, id, k);
    assert(ancestor(t.nodes, id, 0) == Some(id));
    if k > 0 {
        let parent = t.nodes[id].parent->0;
        lemma_closed_parent(t.nodes, id);
        lemma_child_of_parent(t.nodes, id);
        assert forall|j: nat| j < k - 1 implies t.nodes[(#[trigger] ancestor(
            t.nodes,
            parent,
            j,
        ))->0].state.provided(ctx) is None by {
            assert(ancestor(t.nodes, id, j + 1) == ancestor(t.nodes, parent, j));
        }
        law_context_nearest(t, parent, ctx, (k - 1) as nat);
    }
}

/// A fiber sees nothing for a context exactly when neither it nor any of its
/// ancestors provides the context.
pub proof fn law_context_unresolved<C>(t: TreeView<C>, id: u32, ctx: Context)
    requires
        t.wf(),
        t.mounted(id),
    ensures
        t.resolve(id, ctx) is None <==> t.unprovided(id, ctx),
    decreases t.nodes[id].depth,
{
    assert(ancestor(t.nodes, id, 0) == Some(id));
    if t.nodes[id].state.provided(ctx) is Some {
    } else if t.nodes[id].parent is Some {
        let parent = t.nodes[id].parent->0;
        lemma_closed_parent(t.nodes, id);
        lemma_child_of_parent(t.nodes, id);
        law_context_unresolved(t, parent, ctx);
        if t.unprovided(parent, ctx) {
            assert forall|k: nat| (#[trigger] ancestor(t.nodes, id, k)) is Some implies t.nodes[
                ancestor(t.nodes, id, k)->0
            ].state.provided(ctx) is None by {
                if k > 0 {
                    assert(ancestor(t.nodes, id, k) == ancestor(t.nodes, parent, (k - 1) as nat));
                }
            }
        }
        if t.unprovided(id, ctx) {
            assert forall|k: nat|
                (#[trigger] ancestor(t.nodes, parent, k)) is Some implies t.nodes[
                ancestor(t.nodes, parent, k)->0
            ].state.provided(ctx) is None by {
                assert(ancestor(t.nodes, id, k + 1) == ancestor(t.nodes, parent, k));
            }
        }
    } else {
        assert forall|k: nat| (#[trigger] ancestor(t.nodes, id, k)) is Some implies t.nodes[
            ancestor(t.nodes, id, k)->0
        ].state.provided(ctx) is None by {
            if k > 0 {
            }
        }
    }
}

/// Unmounting removes the fiber and all its descendants and nothing else. The
/// fibers that stay are as they were, but that the parent no longer lists the
/// fiber.
pub proof fn law_unmount_removes_subtree<C>(t: TreeView<C>, id: u32)
    requires
        t.wf(),
    ensures
        t.unmount(id).wf(),
        !t.unmount(id).mounted(id),
        forall|x: u32|
            t.unmount(id).mounted(x) <==> t.mounted(x) && !(t.mounted(id) && t.in_subtree(id, x)),
        forall|x: u32| #[trigger]
            t.unmount(id).mounted(x) ==> t.unmount(id).nodes[x] == (if t.mounted(id)
                && t.nodes[id].parent == Some(x) {
                NodeView {
                    children: without(t.nodes[x].children, id),
                    ..t.nodes[x]
                }
            } else {
                t.nodes[x]
            }),
{
    lemma_unmount_wf(t, id);
    if t.mounted(id) {
        assert(ancestor(t.nodes, id, 0) == Some(id));
        assert(subtree(t.nodes, id).contains(id));
    }
}

/// After an unmount the id is free: a fiber can be mounted under it again, as
/// a root or under any fiber that is left, and it starts without slots.
pub proof fn law_remount_starts_empty<C>(
    t: TreeView<C>,
    id: u32,
    parent: Option<u32>,
    component: C,
    signature: Signature,
)
    requires
        t.wf(),
        parent matches Some(p) ==> t.unmount(id).mounted(p),
    ensures
        t.unmount(id).mount_error(parent, id) is None,
        ({
            let again = t.unmount(id).mount(parent, id, component, signature);
            &&& again.mounted(id)
            &&& again.nodes[id].state == (CursorView { slots: Seq::empty(), cursor: 0 })
            &&& again.nodes[id].children == Seq::<u32>::empty()
        }),
{
    law_unmount_removes_subtree(t, id);
}

} // verus!
