//! The dependency comparator used by the effect primitive.
use vstd::prelude::*;
use crate::value::{lemma_views, views, Value};

verus! {

/// Equality between values whose static type has been erased.
pub trait DynEq {
    /// What `eq_dyn` decides.
    spec fn eq_dyn_spec(&self, other: &Self) -> bool;

    fn eq_dyn(&self, other: &Self) -> (same: bool)
        ensures
            same == self.eq_dyn_spec(other),
    ;
}

impl DynEq for Value {
    open spec fn eq_dyn_spec(&self, other: &Self) -> bool {
        self@ == other@
    }

    fn eq_dyn(&self, other: &Self) -> (same: bool) {
        self.same(other)
    }
}

/// Two dependency lists differ when their lengths differ or when they
/// disagree at some position.
pub open spec fn deps_differ<T: DynEq>(old: Seq<T>, new: Seq<T>) -> bool {
    old.len() != new.len() || exists|i: int|
        0 <= i < old.len() && !(#[trigger] old[i]).eq_dyn_spec(&new[i])
}

/// Decides whether `new` differs from `old`.
pub fn deps_changed<T: DynEq>(old: &[T], new: &[T]) -> (changed: bool)
    ensures
        changed == deps_differ(old@, new@),
{
    if old.len() != new.len() {
        return true;
    }
    let mut i: usize = 0;
    while i < old.len()
        invariant
            i <= old.len(),
            old.len() == new.len(),
            forall|j: int| 0 <= j < i ==> (#[trigger] old[j]).eq_dyn_spec(&new[j]),
        decreases old.len() - i,
    {
        if !old[i].eq_dyn(&new[i]) {
            return true;
        }
        i += 1;
    }
    false
}

/// Lists of values differ exactly when their contents differ.
pub proof fn lemma_deps_differ_values(old: Seq<Value>, new: Seq<Value>)
    ensures
        deps_differ(old, new) == (views(old) != views(new)),
{
    lemma_views(old);
    lemma_views(new);
    if deps_differ(old, new) {
        if old.len() == new.len() {
            let i = choose|i: int| 0 <= i < old.len() && !(#[trigger] old[i]).eq_dyn_spec(&new[i]);
            assert(views(old)[i] != views(new)[i]);
        }
    } else {
        assert(forall|i: int| 0 <= i < old.len() ==> (#[trigger] old[i]).eq_dyn_spec(&new[i]));
        assert(views(old) =~= views(new));
    }
}

} // verus!
