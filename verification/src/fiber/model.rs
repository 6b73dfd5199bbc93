//! The mathematical model of the fiber tree.
//!
//! Every operation of the runtime is described here as a function on
//! [`TreeView`]; the executable code is proved to compute these functions.
use vstd::prelude::*;
use crate::error::FiberStoreError;
use crate::fiber::state::CursorView;
use crate::hooks::use_context::Context;
use crate::hooks::HookKind;
use crate::value::{Value, ValueType, ValueView};

verus! {

/// The types a fiber's function was mounted for.
#[derive(Clone, Copy, Debug, PartialEq, Eq, Structural)]
pub struct Signature {
    /// The type of the input the function takes.
    pub props: ValueType,
    /// The type of what it returns.
    pub result: ValueType,
}

/// The content of one mounted fiber.
pub struct NodeView<C> {
    /// The function bound to the fiber.
    pub component: C,
    /// The types it was mounted for.
    pub signature: Signature,
    pub parent: Option<u32>,
    /// The children, in the order in which they were mounted.
    pub children: Seq<u32>,
    /// The number of ancestors.
    pub depth: nat,
    /// The hook cursor.
    pub state: CursorView,
}

/// The mounted fibers by id.
pub type Nodes<C> = Map<u32, NodeView<C>>;

/// `children` without `id`, the others in their order.
pub open spec fn without(children: Seq<u32>, id: u32) -> Seq<u32>
    decreases children.len(),
{
    if children.len() == 0 {
        children
    } else if children.last() == id {
        without(children.drop_last(), id)
    } else {
        without(children.drop_last(), id).push(children.last())
    }
}

/// The fiber reached from `id` by `k` steps to the parent, every fiber on the
/// way being mounted.
pub open spec fn ancestor<C>(nodes: Nodes<C>, id: u32, k: nat) -> Option<u32>
    decreases k,
{
    if !nodes.contains_key(id) {
        None
    } else if k == 0 {
        Some(id)
    } else {
        match nodes[id].parent {
            Some(parent) => ancestor(nodes, parent, (k - 1) as nat),
            None => None,
        }
    }
}

/// `id` is `root` or one of its descendants.
pub open spec fn reaches<C>(nodes: Nodes<C>, root: u32, id: u32) -> bool {
    exists|k: nat| ancestor(nodes, id, k) == Some(root)
}

/// `root` and all its descendants.
pub open spec fn subtree<C>(nodes: Nodes<C>, root: u32) -> Set<u32> {
    Set::new(|id: u32| reaches(nodes, root, id))
}

/// The links between the fibers that are present agree: a listed child names
/// its parent and lies one level deeper, no child is listed twice, and a
/// fiber whose parent is present is listed by it. Fibers may be missing.
#[verifier::opaque]
pub open spec fn forest<C>(nodes: Nodes<C>) -> bool {
    forall|id: u32| #[trigger]
        nodes.contains_key(id) ==> {
            let node = nodes[id];
            &&& node.state.wf()
            &&& node.children.no_duplicates()
            &&& forall|i: int|
                0 <= i < node.children.len() && nodes.contains_key(#[trigger] node.children[i])
                    ==> nodes[node.children[i]].parent == Some(id) && nodes[node.children[i]].depth
                    == node.depth + 1
            &&& node.parent matches Some(parent) ==> (nodes.contains_key(parent)
                ==> nodes[parent].children.contains(id))
        }
}

/// No link leads to a fiber that is missing.
#[verifier::opaque]
pub open spec fn closed<C>(nodes: Nodes<C>) -> bool {
    forall|id: u32| #[trigger]
        nodes.contains_key(id) ==> {
            let node = nodes[id];
            &&& forall|i: int|
                0 <= i < node.children.len() ==> nodes.contains_key(#[trigger] node.children[i])
            &&& node.parent matches Some(parent) ==> nodes.contains_key(parent)
        }
}

/// The content of a fiber tree.
pub struct TreeView<C> {
    /// The mounted fibers.
    pub nodes: Nodes<C>,
    /// The fiber that is executing, if any.
    pub active: Option<u32>,
}

impl<C> TreeView<C> {
    /// The tree with no fiber mounted.
    pub open spec fn empty() -> TreeView<C> {
        TreeView { nodes: Map::empty(), active: None }
    }

    pub open spec fn mounted(self, id: u32) -> bool {
        self.nodes.contains_key(id)
    }

    /// The invariant of the tree: finitely many fibers, whose parent and child
    /// links agree and lead to mounted fibers only.
    pub open spec fn wf(self) -> bool {
        &&& self.nodes.dom().finite()
        &&& forest(self.nodes)
        &&& closed(self.nodes)
    }

    /// `id` is `root` or one of its descendants.
    pub open spec fn in_subtree(self, root: u32, id: u32) -> bool {
        reaches(self.nodes, root, id)
    }

    /// Why `mount(parent, id, ..)` is refused, if it is.
    pub open spec fn mount_error(self, parent: Option<u32>, id: u32) -> Option<FiberStoreError> {
        if self.mounted(id) {
            Some(FiberStoreError::FiberAlreadyExists(id))
        } else if parent is Some && !self.mounted(parent->0) {
            Some(FiberStoreError::ParentDoesNotExist(parent->0))
        } else {
            None
        }
    }

    /// The tree after mounting `id` under `parent`: a node with an empty
    /// cursor, listed last among the parent's children.
    pub open spec fn mount(
        self,
        parent: Option<u32>,
        id: u32,
        component: C,
        signature: Signature,
    ) -> TreeView<C> {
        let node = NodeView {
            component,
            signature,
            parent,
            children: Seq::empty(),
            depth: match parent {
                Some(p) => self.nodes[p].depth + 1,
                None => 0,
            },
            state: CursorView { slots: Seq::empty(), cursor: 0 },
        };
        let nodes = match parent {
            Some(p) => self.nodes.insert(
                p,
                NodeView { children: self.nodes[p].children.push(id), ..self.nodes[p] },
            ),
            None => self.nodes,
        };
        TreeView { nodes: nodes.insert(id, node), ..self }
    }

    /// The tree after unmounting `id`: `id` and all its descendants are gone,
    /// and the parent of `id` no longer lists it.
    pub open spec fn unmount(self, id: u32) -> TreeView<C> {
        if !self.mounted(id) {
            self
        } else {
            let rest = self.nodes.remove_keys(subtree(self.nodes, id));
            let nodes = match self.nodes[id].parent {
                Some(p) if rest.contains_key(p) => rest.insert(
                    p,
                    NodeView { children: without(rest[p].children, id), ..rest[p] },
                ),
                _ => rest,
            };
            TreeView { nodes, ..self }
        }
    }

    /// The tree with the cursor of `id` replaced.
    pub open spec fn with_state(self, id: u32, state: CursorView) -> TreeView<C> {
        TreeView { nodes: self.nodes.insert(id, NodeView { state, ..self.nodes[id] }), ..self }
    }

    /// The tree with another fiber marked as executing.
    pub open spec fn with_active(self, active: Option<u32>) -> TreeView<C> {
        TreeView { active, ..self }
    }

    /// The tree at the moment the function of `id` starts to run: the cursor
    /// of `id` is back at its first slot and `id` is the executing fiber.
    pub open spec fn enter(self, id: u32) -> TreeView<C> {
        self.with_state(id, self.nodes[id].state.rewind()).with_active(Some(id))
    }

    /// Why `call(id, ..)` with a value of type `props` for a result of type
    /// `result` is refused, if it is.
    pub open spec fn call_error(self, id: u32, requested: Signature) -> Option<FiberStoreError> {
        if !self.mounted(id) {
            Some(FiberStoreError::FiberDoesntExist(id))
        } else if self.nodes[id].signature != requested {
            Some(FiberStoreError::FiberTypeMismatch(id))
        } else {
            None
        }
    }

    /// How a call that began in the tree `self` ends once the function of `id`
    /// has returned `out` and left the tree `left`: the fiber that was
    /// executing before is the executing one again, and `out` is handed on if
    /// it is of the type asked for.
    pub open spec fn returned(
        self,
        id: u32,
        result: ValueType,
        left: TreeView<C>,
        out: Value,
        r: Result<Value, FiberStoreError>,
        after: TreeView<C>,
    ) -> bool {
        &&& after == left.with_active(self.active)
        &&& r == if out@.type_of() == result {
            Ok::<Value, FiberStoreError>(out)
        } else {
            Err::<Value, FiberStoreError>(FiberStoreError::FiberTypeMismatch(id))
        }
    }

    /// The function of `component` has just been entered.
    pub open spec fn entered(self, component: C) -> bool {
        &&& self.active is Some
        &&& self.mounted(self.active->0)
        &&& self.nodes[self.active->0].component == component
        &&& self.nodes[self.active->0].state.cursor == 0
    }

    /// The cursor of the executing fiber.
    pub open spec fn cursor(self) -> CursorView {
        self.nodes[self.active->0].state
    }

    /// A hook call of `kind` is in order: a mounted fiber is executing and its
    /// cursor expects that kind.
    pub open spec fn ready(self, kind: HookKind) -> bool {
        &&& self.active is Some
        &&& self.mounted(self.active->0)
        &&& self.cursor().expects(kind)
    }

    /// The tree after the executing fiber's cursor moved to `state`.
    pub open spec fn step(self, state: CursorView) -> TreeView<C> {
        self.with_state(self.active->0, state)
    }

    /// The value of the state slot `index` of fiber `id`, if the fiber is
    /// mounted and has a state slot there.
    pub open spec fn state_of(self, id: u32, index: nat) -> Option<ValueView> {
        if self.mounted(id) {
            self.nodes[id].state.state_at(index)
        } else {
            None
        }
    }

    /// The tree after the state slot `index` of fiber `id` took `value`. A
    /// fiber that is not mounted, or has no state slot there, leaves the tree
    /// as it is.
    pub open spec fn set_state(self, id: u32, index: nat, value: ValueView) -> TreeView<C> {
        if self.mounted(id) {
            self.with_state(id, self.nodes[id].state.set_state(index, value))
        } else {
            self
        }
    }

    /// The value that the executing fiber sees for `ctx`, if there is an
    /// executing fiber and one of its ancestors, or itself, provides one.
    pub open spec fn lookup(self, ctx: Context) -> Option<ValueView> {
        if self.active is Some {
            self.resolve(self.active->0, ctx)
        } else {
            None
        }
    }

    /// The value that `id` sees for `ctx`: the one provided by `id` itself or
    /// else by its nearest ancestor that provides one.
    pub open spec fn resolve(self, id: u32, ctx: Context) -> Option<ValueView>
        decreases
            (if self.mounted(id) {
                self.nodes[id].depth
            } else {
                0
            }),
    {
        if !self.mounted(id) {
            None
        } else if self.nodes[id].state.provided(ctx) is Some {
            self.nodes[id].state.provided(ctx)
        } else {
            match self.nodes[id].parent {
                Some(p) if self.mounted(p) && self.nodes[p].depth < self.nodes[id].depth =>
                    self.resolve(p, ctx),
                _ => None,
            }
        }
    }
}

/// In a well-formed tree no cursor has run past its slots.
pub proof fn lemma_cursor_wf<C>(t: TreeView<C>, id: u32)
    requires
        t.wf(),
        t.mounted(id),
    ensures
        t.nodes[id].state.wf(),
{
    reveal(forest);
}

/// Mounting keeps the tree well formed.
pub proof fn lemma_mount_wf<C>(
    t: TreeView<C>,
    parent: Option<u32>,
    id: u32,
    component: C,
    signature: Signature,
)
    requires
        t.wf(),
        t.mount_error(parent, id) is None,
    ensures
        t.mount(parent, id, component, signature).wf(),
{
    reveal(forest);
    reveal(closed);
    let after = t.mount(parent, id, component, signature).nodes;
    assert forall|x: u32| #[trigger] after.contains_key(x) implies {
        let node = after[x];
        &&& node.state.wf()
        &&& node.children.no_duplicates()
        &&& forall|i: int|
            0 <= i < node.children.len() ==> after.contains_key(#[trigger] node.children[i])
                && after[node.children[i]].parent == Some(x) && after[node.children[i]].depth
                == node.depth + 1
        &&& node.parent matches Some(p) ==> (after.contains_key(p) && after[p].children.contains(
            x,
        ))
    } by {
        let node = after[x];
        if x == id {
            if parent is Some {
                let p = parent->0;
                assert(after[p].children.last() == id);
            }
        } else {
            assert(t.nodes.contains_key(x));
            let before = t.nodes[x];
            if parent == Some(x) {
                assert(node.children == before.children.push(id));
                assert forall|i: int, j: int|
                    0 <= i < node.children.len() && 0 <= j < node.children.len() && i
                        != j implies node.children[i] != node.children[j] by {
                    if i < before.children.len() {
                        assert(t.nodes.contains_key(before.children[i]));
                    }
                    if j < before.children.len() {
                        assert(t.nodes.contains_key(before.children[j]));
                    }
                }
            }
            assert forall|i: int| 0 <= i < node.children.len() implies after.contains_key(
                #[trigger] node.children[i],
            ) && after[node.children[i]].parent == Some(x) && after[node.children[i]].depth
                == node.depth + 1 by {
                if i < before.children.len() {
                    assert(t.nodes.contains_key(before.children[i]));
                }
            }
            if node.parent is Some {
                let p = node.parent->0;
                assert(t.nodes.contains_key(p));
                let listed = t.nodes[p].children;
                let k = choose|k: int| 0 <= k < listed.len() && listed[k] == x;
                assert(after[p].children[k] == x);
            }
        }
    }
}

/// Moving a cursor keeps the tree well formed.
pub proof fn lemma_with_state_wf<C>(t: TreeView<C>, id: u32, state: CursorView)
    requires
        t.wf(),
        t.mounted(id),
        state.wf(),
    ensures
        t.with_state(id, state).wf(),
{
    reveal(forest);
    reveal(closed);
    let after = t.with_state(id, state).nodes;
    assert forall|x: u32| #[trigger] after.contains_key(x) implies {
        let node = after[x];
        &&& node.state.wf()
        &&& node.children.no_duplicates()
        &&& forall|i: int|
            0 <= i < node.children.len() ==> after.contains_key(#[trigger] node.children[i])
                && after[node.children[i]].parent == Some(x) && after[node.children[i]].depth
                == node.depth + 1
        &&& node.parent matches Some(p) ==> (after.contains_key(p) && after[p].children.contains(
            x,
        ))
    } by {
        assert(t.nodes.contains_key(x));
        let node = after[x];
        assert forall|i: int| 0 <= i < node.children.len() implies after.contains_key(
            #[trigger] node.children[i],
        ) && after[node.children[i]].parent == Some(x) && after[node.children[i]].depth
            == node.depth + 1 by {
            assert(t.nodes.contains_key(t.nodes[x].children[i]));
        }
        if node.parent is Some {
            assert(t.nodes.contains_key(node.parent->0));
        }
    }
}

/// Only the last cursor given to a fiber counts.
pub proof fn lemma_with_state_twice<C>(t: TreeView<C>, id: u32, first: CursorView, last: CursorView)
    ensures
        t.with_state(id, first).with_state(id, last) == t.with_state(id, last),
{
    assert(t.with_state(id, first).with_state(id, last).nodes =~= t.with_state(id, last).nodes);
}

} // verus!
