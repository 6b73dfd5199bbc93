//! The fiber tree: the address space of the runtime and the owner of every
//! fiber.
use vstd::prelude::*;
use std::collections::hash_map::Entry;
use std::collections::HashMap;
use crate::error::FiberStoreError;
use crate::fiber::descent::{
    cleared, lemma_cleared_all, lemma_cleared_step, lemma_forest_kept, lemma_subtree_of_absent,
    lemma_unmount_wf,
};
use crate::fiber::model::{
    closed, forest, lemma_cursor_wf, lemma_mount_wf, lemma_with_state_wf,
    subtree, without, NodeView, Nodes, Signature, TreeView,
};
use crate::fiber::node::Component;
use crate::fiber::state::{CursorView, HooksState};
use crate::hooks::HookKind;
use crate::value::{Value, ValueType};

verus! {

broadcast use vstd::std_specs::hash::group_hash_axioms;

/// A fiber with its links.
pub(crate) struct FiberNode<C> {
    pub(crate) component: C,
    pub(crate) signature: Signature,
    pub(crate) state: HooksState,
    pub(crate) parent: Option<u32>,
    pub(crate) children: Vec<u32>,
    pub(crate) depth: Ghost<nat>,
}

pub(crate) open spec fn node_view<C>(node: FiberNode<C>) -> NodeView<C> {
    NodeView {
        component: node.component,
        signature: node.signature,
        parent: node.parent,
        children: node.children@,
        depth: node.depth@,
        state: node.state@,
    }
}

pub(crate) open spec fn nodes_view<C>(nodes: Map<u32, FiberNode<C>>) -> Nodes<C> {
    nodes.map_values(|node: FiberNode<C>| node_view(node))
}

pub(crate) proof fn lemma_nodes_view_remove_keys<C>(nodes: Map<u32, FiberNode<C>>, gone: Set<u32>)
    ensures
        nodes_view(nodes.remove_keys(gone)) == nodes_view(nodes).remove_keys(gone),
{
    assert(nodes_view(nodes.remove_keys(gone)) =~= nodes_view(nodes).remove_keys(gone));
}

/// The fibers of a hash map are finitely many.
pub(crate) proof fn lemma_nodes_finite<C>(nodes: HashMap<u32, FiberNode<C>>)
    ensures
        nodes_view(nodes@).dom().finite(),
{
    assert(nodes_view(nodes@).dom() =~= nodes@.dom());
}

/// A tree of fibers.
///
/// The tree maps each id to the fiber mounted under it, keeps the parent and
/// child links between the fibers, and knows which fiber is executing.
pub struct FiberTree<C> {
    nodes: HashMap<u32, FiberNode<C>>,
    active: Option<u32>,
}

impl<C> View for FiberTree<C> {
    type V = TreeView<C>;

    closed spec fn view(&self) -> TreeView<C> {
        TreeView { nodes: nodes_view(self.nodes@), active: self.active }
    }
}

impl<C> FiberTree<C> {
    #[verifier::type_invariant]
    spec fn inv(self) -> bool {
        &&& nodes_view(self.nodes@).dom().finite()
        &&& forest(nodes_view(self.nodes@))
        &&& closed(nodes_view(self.nodes@))
    }

    /// A tree with no fiber mounted.
    pub fn new() -> (tree: Self)
        ensures
            tree@ == TreeView::<C>::empty(),
            tree@.wf(),
    {
        let nodes = HashMap::new();
        proof {
            reveal(forest);
            reveal(closed);
            assert(nodes_view(nodes@) =~= Map::empty());
        }
        let tree = FiberTree { nodes, active: None };
        tree
    }

    /// Takes the fibers out of the tree, leaving none behind.
    fn detach(&mut self) -> (nodes: HashMap<u32, FiberNode<C>>)
        ensures
            nodes == old(self).nodes,
            final(self).nodes@ == Map::<u32, FiberNode<C>>::empty(),
            final(self).active == old(self).active,
    {
        let mut nodes = HashMap::new();
        proof {
            reveal(forest);
            reveal(closed);
            assert(nodes_view(nodes@) =~= Map::empty());
        }
        std::mem::swap(&mut self.nodes, &mut nodes);
        nodes
    }

    /// Puts the fibers back.
    fn attach(&mut self, nodes: HashMap<u32, FiberNode<C>>)
        requires
            forest(nodes_view(nodes@)),
            closed(nodes_view(nodes@)),
        ensures
            final(self).nodes == nodes,
            final(self).active == old(self).active,
    {
        proof {
            lemma_nodes_finite(nodes);
        }
        self.nodes = nodes;
    }

    /// Whether a fiber is mounted under `id`.
    pub fn is_mounted(&self, id: u32) -> (mounted: bool)
        ensures
            mounted == self@.mounted(id),
            self@.wf(),
    {
        proof {
            use_type_invariant(self);
        }
        self.nodes.contains_key(&id)
    }

    /// The fiber that is executing, if any.
    pub fn active_fiber(&self) -> (active: Option<u32>)
        ensures
            active == self@.active,
            self@.wf(),
    {
        proof {
            use_type_invariant(self);
        }
        self.active
    }

    /// The children of `id`, in the order in which they were mounted.
    pub fn children_of(&self, id: u32) -> (r: Result<Vec<u32>, FiberStoreError>)
        ensures
            self@.wf(),
            match r {
                Ok(children) => self@.mounted(id) && children@ == self@.nodes[id].children,
                Err(error) => !self@.mounted(id) && error == FiberStoreError::FiberDoesntExist(
                    id,
                ),
            },
    {
        proof {
            use_type_invariant(self);
        }
        match self.nodes.get(&id) {
            Some(node) => Ok(node.children.clone()),
            None => Err(FiberStoreError::FiberDoesntExist(id)),
        }
    }

    /// The parent of `id`, if it has one.
    pub fn parent_of(&self, id: u32) -> (r: Result<Option<u32>, FiberStoreError>)
        ensures
            self@.wf(),
            match r {
                Ok(parent) => self@.mounted(id) && parent == self@.nodes[id].parent,
                Err(error) => !self@.mounted(id) && error == FiberStoreError::FiberDoesntExist(
                    id,
                ),
            },
    {
        proof {
            use_type_invariant(self);
        }
        match self.nodes.get(&id) {
            Some(node) => Ok(node.parent),
            None => Err(FiberStoreError::FiberDoesntExist(id)),
        }
    }

    /// The types the fiber under `id` was mounted for, if one is mounted.
    pub fn signature_of(&self, id: u32) -> (found: Option<Signature>)
        ensures
            self@.wf(),
            match found {
                Some(signature) => self@.mounted(id) && signature == self@.nodes[id].signature,
                None => !self@.mounted(id),
            },
    {
        proof {
            use_type_invariant(self);
        }
        match self.nodes.get(&id) {
            Some(node) => Some(node.signature),
            None => None,
        }
    }

    /// The node mounted under `id`, if any.
    pub(crate) fn node(&self, id: u32) -> (found: Option<&FiberNode<C>>)
        ensures
            self@.wf(),
            match found {
                Some(node) => self@.mounted(id) && node_view(*node) == self@.nodes[id],
                None => !self@.mounted(id),
            },
    {
        proof {
            use_type_invariant(self);
        }
        self.nodes.get(&id)
    }

    /// Mounts `fun` under `id`, as the last child of `parent` if one is named.
    ///
    /// The new fiber has no slots. Mounting is refused, and the tree left as it
    /// is, if `id` is taken or if the parent named is not mounted.
    pub fn mount_fiber(
        &mut self,
        parent: Option<u32>,
        id: u32,
        fun: C,
        signature: Signature,
    ) -> (r: Result<(), FiberStoreError>)
        ensures
            final(self)@.wf(),
            match old(self)@.mount_error(parent, id) {
                Some(error) => r == Err::<(), FiberStoreError>(error) && final(self)@ == old(self)@,
                None => r is Ok && final(self)@ == old(self)@.mount(parent, id, fun, signature),
            },
    {
        proof {
            use_type_invariant(&*self);
        }
        if self.nodes.contains_key(&id) {
            return Err(FiberStoreError::FiberAlreadyExists(id));
        }
        match parent {
            Some(p) => {
                if !self.nodes.contains_key(&p) {
                    return Err(FiberStoreError::ParentDoesNotExist(p));
                }
            },
            None => {},
        }
        let mut nodes = self.detach();
        let mut depth: Ghost<nat> = Ghost(0nat);
        match parent {
            Some(p) => {
                match node_mut(&mut nodes, p) {
                    Some(node) => {
                        node.children.push(id);
                        proof {
                            depth@ = node.depth@ + 1;
                        }
                    },
                    None => {},
                }
            },
            None => {},
        }
        let node = FiberNode {
            component: fun,
            signature,
            state: HooksState::new(),
            parent,
            children: Vec::new(),
            depth,
        };
        nodes.insert(id, node);
        proof {
            let target = old(self)@.mount(parent, id, fun, signature);
            lemma_mount_wf(old(self)@, parent, id, fun, signature);
            assert(nodes_view(nodes@) =~= target.nodes);
        }
        self.attach(nodes);
        Ok(())
    }

    /// Unmounts `id` together with all its descendants, and takes `id` off its
    /// parent's list of children. Nothing happens if `id` is not mounted.
    pub fn unmount_fiber(&mut self, id: u32)
        ensures
            final(self)@ == old(self)@.unmount(id),
            final(self)@.wf(),
    {
        proof {
            use_type_invariant(&*self);
            lemma_unmount_wf(old(self)@, id);
        }
        let parent = match self.nodes.get(&id) {
            Some(node) => node.parent,
            None => {
                return;
            },
        };
        let mut nodes = self.detach();
        let ghost before = nodes@;
        remove_subtree(&mut nodes, id);
        proof {
            lemma_nodes_view_remove_keys(before, subtree(nodes_view(before), id));
        }
        match parent {
            Some(p) => {
                match node_mut(&mut nodes, p) {
                    Some(node) => {
                        drop_child(&mut node.children, id);
                    },
                    None => {},
                }
            },
            None => {},
        }
        assert(nodes_view(nodes@) =~= old(self)@.unmount(id).nodes);
        self.attach(nodes);
    }

    /// Whether a hook call of `kind` is in order: a mounted fiber is executing
    /// and its cursor either stands past its slots or at a slot of that kind.
    pub fn expects(&self, kind: HookKind) -> (ok: bool)
        ensures
            ok == self@.ready(kind),
            self@.wf(),
    {
        proof {
            use_type_invariant(self);
        }
        match self.active {
            Some(id) => match self.nodes.get(&id) {
                Some(node) => node.state.expects(kind),
                None => false,
            },
            None => false,
        }
    }

    /// Applies `reducer` to the state slot `index` of fiber `id`, if the fiber
    /// is mounted and has a state slot there.
    pub(crate) fn set_state<F: FnOnce(&Value) -> Value>(
        &mut self,
        id: u32,
        index: usize,
        reducer: F,
    )
        requires
            old(self)@.state_of(id, index as nat) matches Some(current) ==> forall|held: Value|
                held@ == current ==> call_requires(reducer, (&held,)),
        ensures
            final(self)@.wf(),
            match old(self)@.state_of(id, index as nat) {
                Some(current) => exists|held: Value, next: Value|
                    held@ == current && call_ensures(reducer, (&held,), next) && final(self)@
                        == old(self)@.set_state(id, index as nat, next@),
                None => final(self)@ == old(self)@,
            },
    {
        proof {
            use_type_invariant(&*self);
        }
        let next = match self.nodes.get(&id) {
            Some(node) => match node.state.state_at(index) {
                Some(held) => Some(reducer(held)),
                None => None,
            },
            None => None,
        };
        match next {
            Some(next) => {
                let mut nodes = self.detach();
                match node_mut(&mut nodes, id) {
                    Some(node) => {
                        node.state.write_state(index, next);
                    },
                    None => {},
                }
                proof {
                    let after = old(self)@.nodes[id].state.set_state(index as nat, next@);
                    lemma_cursor_wf(old(self)@, id);
                    lemma_with_state_wf(old(self)@, id, after);
                    assert(nodes_view(nodes@) =~= old(self)@.with_state(id, after).nodes);
                }
                self.attach(nodes);
            },
            None => {},
        }
    }

    /// Whether the next hook call of the executing fiber declares a new slot.
    pub(crate) fn mounting(&self) -> (mounting: bool)
        requires
            self@.active is Some,
            self@.mounted(self@.active->0),
        ensures
            mounting == self@.cursor().mounting(),
    {
        match self.active {
            Some(id) => match self.nodes.get(&id) {
                Some(node) => node.state.mounting(),
                None => false,
            },
            None => false,
        }
    }

    /// Takes the cursor of the executing fiber out of the tree, leaving an
    /// empty one in its place.
    pub(crate) fn take_state(&mut self) -> (state: HooksState)
        requires
            old(self)@.active is Some,
            old(self)@.mounted(old(self)@.active->0),
        ensures
            state@ == old(self)@.cursor(),
            state@.wf(),
            final(self)@ == old(self)@.step(CursorView { slots: Seq::empty(), cursor: 0 }),
    {
        proof {
            use_type_invariant(&*self);
        }
        let id = match self.active {
            Some(id) => id,
            None => vstd::pervasive::unreached(),
        };
        let mut nodes = self.detach();
        let mut state = HooksState::new();
        match node_mut(&mut nodes, id) {
            Some(node) => {
                std::mem::swap(&mut node.state, &mut state);
            },
            None => {},
        }
        proof {
            let target = old(self)@.step(CursorView { slots: Seq::empty(), cursor: 0 });
            lemma_cursor_wf(old(self)@, id);
            lemma_with_state_wf(old(self)@, id, CursorView { slots: Seq::empty(), cursor: 0 });
            assert(nodes_view(nodes@) =~= target.nodes);
        }
        self.attach(nodes);
        state
    }

    /// Gives the executing fiber the cursor `state`.
    pub(crate) fn put_state(&mut self, state: HooksState)
        requires
            old(self)@.active is Some,
            old(self)@.mounted(old(self)@.active->0),
            state@.wf(),
        ensures
            final(self)@ == old(self)@.step(state@),
            final(self)@.wf(),
    {
        proof {
            use_type_invariant(&*self);
        }
        let id = match self.active {
            Some(id) => id,
            None => vstd::pervasive::unreached(),
        };
        let mut nodes = self.detach();
        match node_mut(&mut nodes, id) {
            Some(node) => {
                node.state = state;
            },
            None => {},
        }
        proof {
            let target = old(self)@.step(state@);
            lemma_with_state_wf(old(self)@, id, state@);
            assert(nodes_view(nodes@) =~= target.nodes);
        }
        self.attach(nodes);
    }
}

/// Removes `id` and all its descendants: the node itself first, then the
/// subtree of each child in turn.
fn remove_subtree<C>(nodes: &mut HashMap<u32, FiberNode<C>>, id: u32)
    requires
        forest(nodes_view(old(nodes)@)),
    ensures
        final(nodes)@ == old(nodes)@.remove_keys(subtree(nodes_view(old(nodes)@), id)),
    decreases old(nodes)@.len(),
{
    let ghost before = nodes@;
    let ghost model = nodes_view(before);
    match nodes.remove(&id) {
        None => {
            proof {
                lemma_subtree_of_absent(model, id);
                assert(nodes@ =~= before.remove_keys(subtree(model, id)));
            }
        },
        Some(node) => {
            assert(nodes@ =~= before.remove_keys(cleared(model, id, 0)));
            let mut i: usize = 0;
            while i < node.children.len()
                invariant
                    i <= node.children.len(),
                    before == old(nodes)@,
                    before.contains_key(id),
                    before.dom().finite(),
                    node == before[id],
                    model == nodes_view(before),
                    forest(model),
                    nodes@ == before.remove_keys(cleared(model, id, i as int)),
                decreases node.children.len() - i,
            {
                let ghost gone = cleared(model, id, i as int);
                proof {
                    lemma_forest_kept(model, gone);
                    lemma_nodes_view_remove_keys(before, gone);
                    assert(nodes@.dom().subset_of(before.remove(id).dom()));
                    before.lemma_remove_key_len(id);
                    vstd::set_lib::lemma_len_subset(nodes@.dom(), before.remove(id).dom());
                    assert(nodes@.len() < before.len());
                }
                remove_subtree(nodes, node.children[i]);
                proof {
                    lemma_cleared_step(model, id, i as int);
                    let rest = model.remove_keys(gone);
                    let under = subtree(rest, model[id].children[i as int]);
                    let next = cleared(model, id, i + 1);
                    assert forall|x: u32|
                        rest.remove_keys(under).contains_key(x) == model.remove_keys(
                            next,
                        ).contains_key(x) by {}
                    assert forall|x: u32| nodes@.contains_key(x) == before.remove_keys(
                        next,
                    ).contains_key(x) by {
                        assert(rest.remove_keys(under).contains_key(x) == model.remove_keys(
                            next,
                        ).contains_key(x));
                    }
                    assert(nodes@ =~= before.remove_keys(next));
                }
                i += 1;
            }
            proof {
                lemma_cleared_all(model, id);
            }
        },
    }
}

/// Takes `id` out of `children`; the others keep their order.
fn drop_child(children: &mut Vec<u32>, id: u32)
    ensures
        final(children)@ == without(old(children)@, id),
{
    let mut kept: Vec<u32> = Vec::new();
    let mut i: usize = 0;
    while i < children.len()
        invariant
            i <= children.len(),
            kept@ == without(children@.take(i as int), id),
        decreases children.len() - i,
    {
        proof {
            let upto = children@.take(i + 1);
            assert(upto.drop_last() =~= children@.take(i as int));
            assert(upto.last() == children@[i as int]);
        }
        if children[i] != id {
            kept.push(children[i]);
        }
        i += 1;
    }
    assert(children@.take(i as int) =~= children@);
    *children = kept;
}

/// The node under `id`, for changing it in place.
fn node_mut<C>(nodes: &mut HashMap<u32, FiberNode<C>>, id: u32) -> (found: Option<
    &mut FiberNode<C>,
>)
    ensures
        match found {
            Some(node) => old(nodes)@.contains_key(id) && *node == old(nodes)@[id] && final(nodes)@
                == old(nodes)@.insert(id, *final(node)),
            None => !old(nodes)@.contains_key(id) && final(nodes)@ == old(nodes)@,
        },
{
    match nodes.entry(id) {
        Entry::Occupied(entry) => Some(entry.into_mut()),
        Entry::Vacant(_) => None,
    }
}

impl<C: Component> FiberTree<C> {
    /// Calls the fiber mounted under `id` on `props`, for a result of type
    /// `result`.
    ///
    /// The call is refused, and the tree left as it is, if no fiber is mounted
    /// under `id` or if the fiber was mounted for another signature. Otherwise
    /// the fiber is entered (its cursor goes back to the first slot and it
    /// becomes the executing fiber), its function runs on `props`, and the
    /// fiber that was executing before becomes the executing one again.
    ///
    /// What the function returns is handed on if it is of the type `result`.
    /// A function that returns a value of another type has broken the
    /// signature it was mounted for: the call then ends in
    /// `FiberTypeMismatch` too, with the tree as the function left it.
    pub fn call(&mut self, id: u32, props: Value, result: ValueType) -> (r: Result<
        Value,
        FiberStoreError,
    >)
        ensures
            final(self)@.wf(),
            match old(self)@.call_error(id, Signature { props: props@.type_of(), result }) {
                Some(error) => r == Err::<Value, FiberStoreError>(error) && final(self)@
                    == old(self)@,
                None => exists|rt: &mut FiberTree<C>, out: Value|
                    (*rt)@ == old(self)@.enter(id) && call_ensures(
                        C::render,
                        (&old(self)@.nodes[id].component, rt, props),
                        out,
                    ) && old(self)@.returned(
                        id,
                        result,
                        (*final(rt))@,
                        out,
                        r,
                        final(self)@,
                    ),
            },
    {
        proof {
            use_type_invariant(&*self);
        }
        let (component, signature) = match self.nodes.get(&id) {
            Some(node) => (node.component, node.signature),
            None => {
                return Err(FiberStoreError::FiberDoesntExist(id));
            },
        };
        if signature.props != props.type_of() || signature.result != result {
            return Err(FiberStoreError::FiberTypeMismatch(id));
        }
        let saved = self.active;
        let mut nodes = self.detach();
        match node_mut(&mut nodes, id) {
            Some(node) => {
                node.state.reset();
            },
            None => {},
        }
        proof {
            let state = old(self)@.nodes[id].state.rewind();
            lemma_with_state_wf(old(self)@, id, state);
            assert(nodes_view(nodes@) =~= old(self)@.with_state(id, state).nodes);
        }
        self.attach(nodes);
        self.active = Some(id);
        assert(self@ == old(self)@.enter(id));
        let out = component.render(self, props);
        proof {
            use_type_invariant(&*self);
        }
        let ghost left = self@;
        self.active = saved;
        let r = if out.type_of() == result {
            Ok(out)
        } else {
            Err(FiberStoreError::FiberTypeMismatch(id))
        };
        assert(old(self)@.returned(id, result, left, out, r, self@));
        r
    }
}

} // verus!
