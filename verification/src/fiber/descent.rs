//! Facts about ancestors and subtrees, and what removing a subtree leaves.
use vstd::prelude::*;
use crate::fiber::model::{ancestor, closed, forest, reaches, subtree, without, Nodes, TreeView};

verus! {

/// What `ancestor` finds is present, and lies `k` levels above where the walk
/// began.
pub proof fn lemma_ancestor_depth<C>(nodes: Nodes<C>, id: u32, k: nat)
    requires
        forest(nodes),
        ancestor(nodes, id, k) is Some,
    ensures
        nodes.contains_key(id),
        nodes.contains_key(ancestor(nodes, id, k)->0),
        nodes[id].depth == nodes[ancestor(nodes, id, k)->0].depth + k,
    decreases k,
{
    if k > 0 {
        let parent = nodes[id].parent->0;
        lemma_ancestor_depth(nodes, parent, (k - 1) as nat);
        lemma_child_of_parent(nodes, id);
    }
}

/// A fiber whose parent is present lies one level below it, and is listed by
/// it.
pub proof fn lemma_child_of_parent<C>(nodes: Nodes<C>, id: u32)
    requires
        forest(nodes),
        nodes.contains_key(id),
        nodes[id].parent is Some,
        nodes.contains_key(nodes[id].parent->0),
    ensures
        nodes[nodes[id].parent->0].children.contains(id),
        nodes[id].depth == nodes[nodes[id].parent->0].depth + 1,
{
    reveal(forest);
    let parent = nodes[id].parent->0;
    assert(nodes.contains_key(parent));
    let i = choose|i: int| 0 <= i < nodes[parent].children.len() && nodes[parent].children[i] == id;
    assert(nodes.contains_key(nodes[parent].children[i]));
}

/// A listed child that is present names its parent and lies one level below.
pub proof fn lemma_listed_child<C>(nodes: Nodes<C>, id: u32, i: int)
    requires
        forest(nodes),
        nodes.contains_key(id),
        0 <= i < nodes[id].children.len(),
        nodes.contains_key(nodes[id].children[i]),
    ensures
        nodes[nodes[id].children[i]].parent == Some(id),
        nodes[nodes[id].children[i]].depth == nodes[id].depth + 1,
{
    reveal(forest);
}

/// Walking `k1` steps and then `k2` is walking `k1 + k2`.
pub proof fn lemma_ancestor_join<C>(nodes: Nodes<C>, id: u32, k1: nat, k2: nat)
    requires
        ancestor(nodes, id, k1) is Some,
    ensures
        ancestor(nodes, id, k1 + k2) == ancestor(nodes, ancestor(nodes, id, k1)->0, k2),
    decreases k1,
{
    if k1 > 0 {
        let parent = nodes[id].parent->0;
        lemma_ancestor_join(nodes, parent, (k1 - 1) as nat, k2);
        assert(ancestor(nodes, id, k1 + k2) == ancestor(nodes, parent, (k1 + k2 - 1) as nat));
    } else {
        if k2 == 0 {
        } else {
        }
    }
}

/// A walk that arrives somewhere has arrived somewhere at every step before.
pub proof fn lemma_ancestor_prefix<C>(nodes: Nodes<C>, id: u32, k1: nat, k2: nat)
    requires
        ancestor(nodes, id, k1 + k2) is Some,
    ensures
        ancestor(nodes, id, k1) is Some,
    decreases k1,
{
    if k1 > 0 {
        let parent = nodes[id].parent->0;
        assert(ancestor(nodes, id, k1 + k2) == ancestor(nodes, parent, (k1 + k2 - 1) as nat));
        lemma_ancestor_prefix(nodes, parent, (k1 - 1) as nat, k2);
    }
}

/// A walk through what is left after a removal is a walk in the whole.
pub proof fn lemma_ancestor_kept<C>(nodes: Nodes<C>, gone: Set<u32>, id: u32, k: nat)
    requires
        ancestor(nodes.remove_keys(gone), id, k) is Some,
    ensures
        ancestor(nodes, id, k) == ancestor(nodes.remove_keys(gone), id, k),
    decreases k,
{
    if k > 0 {
        let parent = nodes[id].parent->0;
        lemma_ancestor_kept(nodes, gone, parent, (k - 1) as nat);
    }
}

/// Removing fibers leaves the links between the others in agreement.
pub proof fn lemma_forest_kept<C>(nodes: Nodes<C>, gone: Set<u32>)
    requires
        forest(nodes),
    ensures
        forest(nodes.remove_keys(gone)),
{
    reveal(forest);
    let rest = nodes.remove_keys(gone);
    assert forall|id: u32| #[trigger] rest.contains_key(id) implies {
        let node = rest[id];
        &&& node.state.wf()
        &&& node.children.no_duplicates()
        &&& forall|i: int|
            0 <= i < node.children.len() && rest.contains_key(#[trigger] node.children[i])
                ==> rest[node.children[i]].parent == Some(id) && rest[node.children[i]].depth
                == node.depth + 1
        &&& node.parent matches Some(parent) ==> (rest.contains_key(parent)
            ==> rest[parent].children.contains(id))
    } by {
        assert(nodes.contains_key(id));
        let node = rest[id];
        assert forall|i: int|
            0 <= i < node.children.len() && rest.contains_key(
                #[trigger] node.children[i],
            ) implies rest[node.children[i]].parent == Some(id) && rest[node.children[i]].depth
            == node.depth + 1 by {
            assert(nodes.contains_key(node.children[i]));
        }
        if node.parent is Some && rest.contains_key(node.parent->0) {
            assert(nodes.contains_key(node.parent->0));
        }
    }
}

/// The fibers removed once `id` and the subtrees of its first `upto` children
/// are gone.
pub open spec fn cleared<C>(nodes: Nodes<C>, id: u32, upto: int) -> Set<u32> {
    Set::new(
        |x: u32|
            x == id || exists|i: int|
                0 <= i < upto && i < nodes[id].children.len() && reaches(
                    nodes,
                    #[trigger] nodes[id].children[i],
                    x,
                ),
    )
}

/// A fiber under the child `j` of `id` is under no earlier child, and is not
/// `id`.
pub proof fn lemma_under_one_child<C>(nodes: Nodes<C>, id: u32, j: int, x: u32, k: nat)
    requires
        forest(nodes),
        nodes.contains_key(id),
        0 <= j < nodes[id].children.len(),
        ancestor(nodes, x, k) == Some(nodes[id].children[j]),
    ensures
        !cleared(nodes, id, j).contains(x),
{
    let child = nodes[id].children[j];
    lemma_ancestor_depth(nodes, x, k);
    lemma_listed_child(nodes, id, j);
    if x == id {
        assert(false);
    }
    if exists|i: int|
        0 <= i < j && i < nodes[id].children.len() && reaches(
            nodes,
            #[trigger] nodes[id].children[i],
            x,
        ) {
        let i = choose|i: int|
            0 <= i < j && i < nodes[id].children.len() && reaches(
                nodes,
                #[trigger] nodes[id].children[i],
                x,
            );
        let other = nodes[id].children[i];
        let k2 = choose|k2: nat| ancestor(nodes, x, k2) == Some(other);
        lemma_ancestor_depth(nodes, x, k2);
        lemma_listed_child(nodes, id, i);
        assert(k2 == k);
        reveal(forest);
        assert(nodes[id].children.no_duplicates());
        assert(false);
    }
}

/// Once `id` and the subtrees of its first `j` children are gone, what is
/// under child `j` is what was under it before.
pub proof fn lemma_walk_survives<C>(nodes: Nodes<C>, id: u32, j: int, x: u32, k: nat)
    requires
        forest(nodes),
        nodes.contains_key(id),
        0 <= j < nodes[id].children.len(),
        ancestor(nodes, x, k) == Some(nodes[id].children[j]),
    ensures
        ancestor(nodes.remove_keys(cleared(nodes, id, j)), x, k) == Some(nodes[id].children[j]),
    decreases k,
{
    let rest = nodes.remove_keys(cleared(nodes, id, j));
    lemma_under_one_child(nodes, id, j, x, k);
    lemma_ancestor_depth(nodes, x, k);
    assert(rest.contains_key(x));
    if k > 0 {
        let parent = nodes[x].parent->0;
        lemma_walk_survives(nodes, id, j, parent, (k - 1) as nat);
    }
}

/// Removing the subtree of child `j` after `id` and the earlier subtrees
/// clears `id` and the subtrees of the first `j + 1` children.
pub proof fn lemma_cleared_step<C>(nodes: Nodes<C>, id: u32, j: int)
    requires
        forest(nodes),
        nodes.contains_key(id),
        0 <= j < nodes[id].children.len(),
    ensures
        ({
            let rest = nodes.remove_keys(cleared(nodes, id, j));
            rest.remove_keys(subtree(rest, nodes[id].children[j])) == nodes.remove_keys(
                cleared(nodes, id, j + 1),
            )
        }),
{
    let child = nodes[id].children[j];
    let rest = nodes.remove_keys(cleared(nodes, id, j));
    let left = rest.remove_keys(subtree(rest, child));
    let right = nodes.remove_keys(cleared(nodes, id, j + 1));
    assert forall|x: u32| left.contains_key(x) == right.contains_key(x) by {
        if nodes.contains_key(x) && !cleared(nodes, id, j).contains(x) {
            if reaches(rest, child, x) {
                let k = choose|k: nat| ancestor(rest, x, k) == Some(child);
                lemma_ancestor_kept(nodes, cleared(nodes, id, j), x, k);
                assert(reaches(nodes, nodes[id].children[j], x));
                assert(cleared(nodes, id, j + 1).contains(x));
            }
            if cleared(nodes, id, j + 1).contains(x) {
                let i = choose|i: int|
                    0 <= i < j + 1 && i < nodes[id].children.len() && reaches(
                        nodes,
                        #[trigger] nodes[id].children[i],
                        x,
                    );
                assert(i == j);
                let k = choose|k: nat| ancestor(nodes, x, k) == Some(child);
                lemma_walk_survives(nodes, id, j, x, k);
                assert(reaches(rest, child, x));
            }
        } else if nodes.contains_key(x) {
            let i = choose|i: int|
                x == id || (0 <= i < j && i < nodes[id].children.len() && reaches(
                    nodes,
                    #[trigger] nodes[id].children[i],
                    x,
                ));
            assert(cleared(nodes, id, j + 1).contains(x));
        }
    }
    assert(left =~= right);
}

/// `id` and the subtrees of all its children are the subtree of `id`.
pub proof fn lemma_cleared_all<C>(nodes: Nodes<C>, id: u32)
    requires
        forest(nodes),
        nodes.contains_key(id),
    ensures
        cleared(nodes, id, nodes[id].children.len() as int) == subtree(nodes, id),
{
    let n = nodes[id].children.len() as int;
    assert forall|x: u32| cleared(nodes, id, n).contains(x) == subtree(nodes, id).contains(
        x,
    ) by {
        if cleared(nodes, id, n).contains(x) {
            if x == id {
                assert(ancestor(nodes, x, 0) == Some(id));
            } else {
                let i = choose|i: int|
                    0 <= i < n && i < nodes[id].children.len() && reaches(
                        nodes,
                        #[trigger] nodes[id].children[i],
                        x,
                    );
                let child = nodes[id].children[i];
                let k = choose|k: nat| ancestor(nodes, x, k) == Some(child);
                lemma_ancestor_depth(nodes, x, k);
                lemma_listed_child(nodes, id, i);
                lemma_ancestor_join(nodes, x, k, 1);
                assert(ancestor(nodes, child, 1) == ancestor(nodes, id, 0));
                assert(ancestor(nodes, x, k + 1) == Some(id));
            }
        }
        if subtree(nodes, id).contains(x) {
            let k = choose|k: nat| ancestor(nodes, x, k) == Some(id);
            if k > 0 {
                let k1 = (k - 1) as nat;
                lemma_ancestor_prefix(nodes, x, k1, 1);
                let child = ancestor(nodes, x, k1)->0;
                lemma_ancestor_join(nodes, x, k1, 1);
                assert(ancestor(nodes, child, 1) == Some(id));
                lemma_ancestor_depth(nodes, x, k1);
                assert(ancestor(nodes, nodes[child].parent->0, 0) == Some(id));
                assert(nodes[child].parent == Some(id));
                lemma_child_of_parent(nodes, child);
                let i = choose|i: int|
                    0 <= i < nodes[id].children.len() && nodes[id].children[i] == child;
                assert(reaches(nodes, nodes[id].children[i], x));
            }
        }
    }
    assert(cleared(nodes, id, n) =~= subtree(nodes, id));
}

/// Nothing is under a fiber that is not mounted.
pub proof fn lemma_subtree_of_absent<C>(nodes: Nodes<C>, id: u32)
    requires
        !nodes.contains_key(id),
    ensures
        nodes.remove_keys(subtree(nodes, id)) == nodes,
{
    assert forall|x: u32| !subtree(nodes, id).contains(x) by {
        if subtree(nodes, id).contains(x) {
            let k = choose|k: nat| ancestor(nodes, x, k) == Some(id);
            lemma_ancestor_present(nodes, x, k);
        }
    }
    assert(nodes.remove_keys(subtree(nodes, id)) =~= nodes);
}

/// What `ancestor` finds is present.
pub proof fn lemma_ancestor_present<C>(nodes: Nodes<C>, id: u32, k: nat)
    requires
        ancestor(nodes, id, k) is Some,
    ensures
        nodes.contains_key(id),
        nodes.contains_key(ancestor(nodes, id, k)->0),
    decreases k,
{
    if k > 0 {
        lemma_ancestor_present(nodes, nodes[id].parent->0, (k - 1) as nat);
    }
}

/// `without` keeps exactly the other children, and lists none of them twice.
pub proof fn lemma_without(children: Seq<u32>, id: u32)
    ensures
        forall|child: u32| #[trigger]
            without(children, id).contains(child) ==> children.contains(child) && child != id,
        forall|child: u32| #[trigger]
            children.contains(child) && child != id ==> without(children, id).contains(child),
        children.no_duplicates() ==> without(children, id).no_duplicates(),
    decreases children.len(),
{
    let kept = without(children, id);
    if children.len() == 0 {
    } else {
        let front = children.drop_last();
        let last = children.last();
        lemma_without(front, id);
        assert forall|child: u32|
            (#[trigger] kept.contains(child) ==> children.contains(child) && child != id) && (
            children.contains(child) && child != id ==> kept.contains(child)) by {
            if kept.contains(child) {
                let i = choose|i: int| 0 <= i < kept.len() && kept[i] == child;
                if i < without(front, id).len() {
                    assert(without(front, id).contains(child));
                    let j = choose|j: int| 0 <= j < front.len() && front[j] == child;
                    assert(children[j] == child);
                } else {
                    assert(children[children.len() - 1] == child);
                }
            }
            if children.contains(child) && child != id {
                let j = choose|j: int| 0 <= j < children.len() && children[j] == child;
                if j < front.len() {
                    assert(front[j] == child);
                    assert(front.contains(child));
                    assert(without(front, id).contains(child));
                    let i = choose|i: int|
                        0 <= i < without(front, id).len() && without(front, id)[i] == child;
                    assert(kept[i] == child);
                } else {
                    assert(kept[kept.len() - 1] == child);
                }
            }
        }
        if children.no_duplicates() {
            assert(front.no_duplicates());
            if last != id {
                assert forall|i: int, j: int|
                    0 <= i < kept.len() && 0 <= j < kept.len() && i != j implies kept[i]
                    != kept[j] by {
                    if i == kept.len() - 1 || j == kept.len() - 1 {
                        let other = if i == kept.len() - 1 {
                            j
                        } else {
                            i
                        };
                        assert(without(front, id).contains(kept[other]));
                        let at = choose|at: int| 0 <= at < front.len() && front[at] == kept[other];
                        assert(children[at] != children[children.len() - 1]);
                    }
                }
            }
        }
    }
}

/// In a closed tree every listed child is present.
pub proof fn lemma_closed_child<C>(nodes: Nodes<C>, id: u32, i: int)
    requires
        closed(nodes),
        nodes.contains_key(id),
        0 <= i < nodes[id].children.len(),
    ensures
        nodes.contains_key(nodes[id].children[i]),
{
    reveal(closed);
}

/// In a closed tree every parent is present.
pub proof fn lemma_closed_parent<C>(nodes: Nodes<C>, id: u32)
    requires
        closed(nodes),
        nodes.contains_key(id),
        nodes[id].parent is Some,
    ensures
        nodes.contains_key(nodes[id].parent->0),
{
    reveal(closed);
}

/// A fiber of a forest lists no child twice, and its cursor is in range.
pub proof fn lemma_forest_node<C>(nodes: Nodes<C>, id: u32)
    requires
        forest(nodes),
        nodes.contains_key(id),
    ensures
        nodes[id].children.no_duplicates(),
        nodes[id].state.wf(),
{
    reveal(forest);
}

/// What holds of a fiber that an unmount leaves behind.
proof fn lemma_unmount_node<C>(t: TreeView<C>, id: u32, x: u32)
    requires
        t.wf(),
        t.mounted(id),
        t.unmount(id).nodes.contains_key(x),
    ensures
        ({
            let after = t.unmount(id).nodes;
            let node = after[x];
            &&& node.state.wf()
            &&& node.children.no_duplicates()
            &&& forall|i: int|
                0 <= i < node.children.len() ==> after.contains_key(#[trigger] node.children[i])
                    && after[node.children[i]].parent == Some(x) && after[node.children[i]].depth
                    == node.depth + 1
            &&& node.parent matches Some(p) ==> (after.contains_key(p)
                && after[p].children.contains(x))
        }),
{
    let nodes = t.nodes;
    let gone = subtree(nodes, id);
    let rest = nodes.remove_keys(gone);
    let after = t.unmount(id).nodes;
    let parent = nodes[id].parent;
    assert(ancestor(nodes, id, 0) == Some(id));
    assert(gone.contains(id));
    assert(after.dom() =~= rest.dom());
    assert(nodes.contains_key(x));
    assert(!gone.contains(x));
    if parent is Some {
        lemma_closed_parent(nodes, id);
        lemma_without(nodes[parent->0].children, id);
    }
    let node = after[x];
    let before = nodes[x];
    lemma_forest_node(nodes, x);
    assert(node.parent == before.parent);
    assert(node.depth == before.depth);
    assert(node.children == if parent == Some(x) {
        without(before.children, id)
    } else {
        before.children
    });
    assert forall|i: int| 0 <= i < node.children.len() implies after.contains_key(
        #[trigger] node.children[i],
    ) && after[node.children[i]].parent == Some(x) && after[node.children[i]].depth == node.depth
        + 1 by {
        let child = node.children[i];
        assert(before.children.contains(child)) by {
            if parent == Some(x) {
                assert(node.children.contains(child));
            } else {
                assert(before.children[i] == child);
            }
        }
        let at = choose|at: int| 0 <= at < before.children.len() && before.children[at] == child;
        lemma_closed_child(nodes, x, at);
        lemma_listed_child(nodes, x, at);
        if gone.contains(child) {
            let k = choose|k: nat| ancestor(nodes, child, k) == Some(id);
            if k == 0 {
                assert(child == id);
                assert(parent == Some(x));
                assert(node.children.contains(child));
                assert(false);
            } else {
                assert(ancestor(nodes, x, (k - 1) as nat) == Some(id));
                assert(reaches(nodes, id, x));
                assert(false);
            }
        }
        assert(after[child].parent == nodes[child].parent);
        assert(after[child].depth == nodes[child].depth);
    }
    if node.parent is Some {
        let p = node.parent->0;
        lemma_closed_parent(nodes, x);
        if gone.contains(p) {
            let k = choose|k: nat| ancestor(nodes, p, k) == Some(id);
            assert(ancestor(nodes, x, k + 1) == ancestor(nodes, p, k));
            assert(reaches(nodes, id, x));
            assert(false);
        }
        lemma_child_of_parent(nodes, x);
        assert(nodes[p].children.contains(x));
        assert(x != id);
        assert(after[p].children.contains(x));
    }
}

/// Unmounting keeps the tree well formed.
pub proof fn lemma_unmount_wf<C>(t: TreeView<C>, id: u32)
    requires
        t.wf(),
    ensures
        t.unmount(id).wf(),
{
    if t.mounted(id) {
        let nodes = t.nodes;
        let rest = nodes.remove_keys(subtree(nodes, id));
        let after = t.unmount(id).nodes;
        assert(after.dom() =~= rest.dom());
        assert(rest.dom().subset_of(nodes.dom()));
        vstd::set_lib::lemma_set_subset_finite(nodes.dom(), rest.dom());
        assert forall|x: u32| #[trigger] after.contains_key(x) implies {
            let node = after[x];
            &&& node.state.wf()
            &&& node.children.no_duplicates()
            &&& forall|i: int|
                0 <= i < node.children.len() ==> after.contains_key(#[trigger] node.children[i])
                    && after[node.children[i]].parent == Some(x) && after[node.children[i]].depth
                    == node.depth + 1
            &&& node.parent matches Some(p) ==> (after.contains_key(p)
                && after[p].children.contains(x))
        } by {
            lemma_unmount_node(t, id, x);
        }
        assert(forest(after)) by {
            reveal(forest);
        }
        assert(closed(after)) by {
            reveal(closed);
        }
    }
}

} // verus!
