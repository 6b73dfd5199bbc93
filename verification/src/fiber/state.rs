//! The hook cursor: a fiber's ordered slots and the position of the next
//! declaration.
use vstd::prelude::*;
use std::cell::RefCell;
use std::rc::Rc;
use crate::deps::{deps_changed, lemma_deps_differ_values};
use crate::hooks::use_context::Context;
use crate::hooks::use_ref::SharedCell;
use crate::hooks::{Hook, HookKind, HookView};
use crate::value::{views, Value, ValueView};

verus! {

/// The mathematical content of a hook cursor.
pub struct CursorView {
    /// The slots declared so far, in declaration order.
    pub slots: Seq<HookView>,
    /// The position the next hook call in this invocation refers to.
    pub cursor: nat,
}

/// The value of the last `Context` slot in `slots` that carries `ctx`.
pub open spec fn provided_in(slots: Seq<HookView>, ctx: Context) -> Option<ValueView>
    decreases slots.len(),
{
    if slots.len() == 0 {
        None
    } else {
        match slots.last() {
            HookView::Context(handle, value) if handle == ctx => Some(value),
            _ => provided_in(slots.drop_last(), ctx),
        }
    }
}

impl CursorView {
    /// The cursor never runs past the end of the slots.
    pub open spec fn wf(self) -> bool {
        self.cursor <= self.slots.len()
    }

    /// The next hook call declares a new slot.
    pub open spec fn mounting(self) -> bool {
        self.cursor >= self.slots.len()
    }

    /// The slot the next hook call refers to, when it is not declaring one.
    pub open spec fn current(self) -> HookView {
        self.slots[self.cursor as int]
    }

    /// A hook call of `kind` is in order here: it either declares a new slot or
    /// meets a slot that was declared with the same kind.
    pub open spec fn expects(self, kind: HookKind) -> bool {
        self.wf() && (self.mounting() || self.current().kind() == kind)
    }

    /// The cursor at the start of an invocation.
    pub open spec fn rewind(self) -> CursorView {
        CursorView { slots: self.slots, cursor: 0 }
    }

    /// Appends `slot` and steps over it.
    pub open spec fn declare(self, slot: HookView) -> CursorView {
        CursorView { slots: self.slots.push(slot), cursor: self.cursor + 1 }
    }

    /// Steps over the current slot and leaves it as it is.
    pub open spec fn keep(self) -> CursorView {
        CursorView { slots: self.slots, cursor: self.cursor + 1 }
    }

    /// Overwrites the current slot and steps over it.
    pub open spec fn replace(self, slot: HookView) -> CursorView {
        CursorView { slots: self.slots.update(self.cursor as int, slot), cursor: self.cursor + 1 }
    }

    /// The cursor after a state hook whose initializer would give `init`.
    pub open spec fn state_hook(self, init: ValueView) -> CursorView {
        if self.mounting() {
            self.declare(HookView::State(init))
        } else {
            self.keep()
        }
    }

    /// What that state hook returns.
    pub open spec fn state_value(self, init: ValueView) -> ValueView {
        if self.mounting() {
            init
        } else {
            self.current()->State_0
        }
    }

    /// Whether an effect hook with `deps` runs its effect.
    pub open spec fn effect_due(self, deps: Seq<ValueView>) -> bool {
        self.mounting() || self.current()->Effect_0 != deps
    }

    /// The cursor after an effect hook with `deps`.
    pub open spec fn effect_hook(self, deps: Seq<ValueView>) -> CursorView {
        if self.mounting() {
            self.declare(HookView::Effect(deps))
        } else if self.effect_due(deps) {
            self.replace(HookView::Effect(deps))
        } else {
            self.keep()
        }
    }

    /// The cursor after a ref hook that would allocate `fresh`.
    pub open spec fn ref_hook(self, fresh: SharedCell) -> CursorView {
        if self.mounting() {
            self.declare(HookView::Ref(fresh))
        } else {
            self.keep()
        }
    }

    /// What that ref hook returns.
    pub open spec fn ref_value(self, fresh: SharedCell) -> SharedCell {
        if self.mounting() {
            fresh
        } else {
            self.current()->Ref_0
        }
    }

    /// The cursor after providing `value` for `ctx`.
    pub open spec fn provide(self, ctx: Context, value: ValueView) -> CursorView {
        if self.mounting() {
            self.declare(HookView::Context(ctx, value))
        } else {
            self.replace(HookView::Context(ctx, value))
        }
    }

    /// The value these slots provide for `ctx`, if any: that of the last
    /// matching declaration.
    pub open spec fn provided(self, ctx: Context) -> Option<ValueView> {
        provided_in(self.slots, ctx)
    }

    /// The value of the state slot at `index`, if there is one.
    pub open spec fn state_at(self, index: nat) -> Option<ValueView> {
        if index < self.slots.len() && self.slots[index as int] is State {
            Some(self.slots[index as int]->State_0)
        } else {
            None
        }
    }

    /// Overwrites the state slot at `index`; nothing happens if there is none.
    pub open spec fn set_state(self, index: nat, value: ValueView) -> CursorView {
        if self.state_at(index) is Some {
            CursorView {
                slots: self.slots.update(index as int, HookView::State(value)),
                cursor: self.cursor,
            }
        } else {
            self
        }
    }
}

/// The contents of a sequence of slots.
pub open spec fn slot_views(hooks: Seq<Hook>) -> Seq<HookView> {
    hooks.map_values(|hook: Hook| hook@)
}

/// A fiber's slots and its cursor.
pub struct HooksState {
    hooks: Vec<Hook>,
    hook_index: usize,
}

impl View for HooksState {
    type V = CursorView;

    closed spec fn view(&self) -> CursorView {
        CursorView { slots: slot_views(self.hooks@), cursor: self.hook_index as nat }
    }
}

impl HooksState {
    /// An empty cursor: no slot has been declared.
    pub fn new() -> (state: Self)
        ensures
            state@ == (CursorView { slots: Seq::empty(), cursor: 0 }),
    {
        let state = HooksState { hooks: Vec::new(), hook_index: 0 };
        assert(state@.slots =~= Seq::empty());
        state
    }

    /// Moves the cursor back to the first slot. The slots stay.
    pub fn reset(&mut self)
        ensures
            final(self)@ == old(self)@.rewind(),
    {
        self.hook_index = 0;
    }

    /// Whether a hook call of `kind` is in order.
    pub fn expects(&self, kind: HookKind) -> (ok: bool)
        ensures
            ok == self@.expects(kind),
    {
        if self.hook_index > self.hooks.len() {
            false
        } else if self.hook_index == self.hooks.len() {
            true
        } else {
            self.hooks[self.hook_index].kind() == kind
        }
    }

    /// The state hook on this cursor. On the first visit the slot is declared
    /// with what `initialize` returns; later visits return what the slot holds
    /// and leave `initialize` alone.
    pub fn state_slot<F: FnOnce() -> Value>(&mut self, initialize: F) -> (r: (Value, usize))
        requires
            old(self)@.expects(HookKind::State),
            old(self)@.mounting() ==> call_requires(initialize, ()),
        ensures
            r.1 == old(self)@.cursor,
            r.0@ == old(self)@.state_value(r.0@),
            final(self)@ == old(self)@.state_hook(r.0@),
            old(self)@.mounting() ==> exists|first: Value|
                call_ensures(initialize, (), first) && first@ == r.0@,
    {
        let index = self.hook_index;
        if index >= self.hooks.len() {
            let first = initialize();
            let copy = first.clone();
            self.hooks.push(Hook::State(first));
            self.hook_index = self.hooks.len();
            assert(self@.slots =~= old(self)@.slots.push(HookView::State(copy@)));
            (copy, index)
        } else {
            let copy = match &self.hooks[index] {
                Hook::State(value) => value.clone(),
                _ => vstd::pervasive::unreached(),
            };
            self.hook_index = index + 1;
            (copy, index)
        }
    }

    /// The effect hook on this cursor: records `deps` and says whether the
    /// effect is due, that is on the first visit and whenever `deps` differs
    /// from the list recorded by the visit before.
    pub fn effect_slot(&mut self, deps: Vec<Value>) -> (due: bool)
        requires
            old(self)@.expects(HookKind::Effect),
        ensures
            due == old(self)@.effect_due(views(deps@)),
            final(self)@ == old(self)@.effect_hook(views(deps@)),
    {
        let index = self.hook_index;
        if index >= self.hooks.len() {
            self.hooks.push(Hook::Effect(deps));
            self.hook_index = self.hooks.len();
            assert(self@.slots =~= old(self)@.slots.push(HookView::Effect(views(deps@))));
            true
        } else {
            let due = match &self.hooks[index] {
                Hook::Effect(previous) => {
                    proof {
                        lemma_deps_differ_values(previous@, deps@);
                    }
                    deps_changed(previous.as_slice(), deps.as_slice())
                },
                _ => vstd::pervasive::unreached(),
            };
            if due {
                self.hooks[index] = Hook::Effect(deps);
                assert(self.hooks@ == old(self).hooks@.update(index as int, Hook::Effect(deps)));
                assert(slot_views(self.hooks@) =~= old(self)@.slots.update(
                    index as int,
                    HookView::Effect(views(deps@)),
                ));
            }
            self.hook_index = index + 1;
            due
        }
    }

    /// The ref hook on this cursor. On the first visit a cell seeded with
    /// `initial` is allocated and kept; every visit returns the kept cell
    /// itself.
    pub fn ref_slot(&mut self, initial: Value) -> (cell: SharedCell)
        requires
            old(self)@.expects(HookKind::Ref),
        ensures
            cell == old(self)@.ref_value(cell),
            final(self)@ == old(self)@.ref_hook(cell),
    {
        let index = self.hook_index;
        if index >= self.hooks.len() {
            let cell = Rc::new(RefCell::new(initial));
            self.hooks.push(Hook::Ref(cell.clone()));
            self.hook_index = self.hooks.len();
            assert(self@.slots =~= old(self)@.slots.push(HookView::Ref(cell)));
            cell
        } else {
            let cell = match &self.hooks[index] {
                Hook::Ref(kept) => kept.clone(),
                _ => vstd::pervasive::unreached(),
            };
            self.hook_index = index + 1;
            cell
        }
    }

    /// The provide hook on this cursor: the slot at this position now offers
    /// `value` for `ctx`.
    pub fn context_slot(&mut self, ctx: Context, value: Value)
        requires
            old(self)@.expects(HookKind::Context),
        ensures
            final(self)@ == old(self)@.provide(ctx, value@),
    {
        let index = self.hook_index;
        if index >= self.hooks.len() {
            self.hooks.push(Hook::Context(ctx, value));
            self.hook_index = self.hooks.len();
            assert(self@.slots =~= old(self)@.slots.push(HookView::Context(ctx, value@)));
        } else {
            self.hooks[index] = Hook::Context(ctx, value);
            self.hook_index = index + 1;
            assert(self@.slots =~= old(self)@.slots.update(
                index as int,
                HookView::Context(ctx, value@),
            ));
        }
    }

    /// Looks through the slots, last declared first, for a value provided for
    /// `ctx`, and returns a copy of the first it meets.
    pub fn provided(&self, ctx: Context) -> (found: Option<Value>)
        ensures
            match found {
                Some(value) => self@.provided(ctx) == Some(value@),
                None => self@.provided(ctx) is None,
            },
    {
        let mut i: usize = self.hooks.len();
        assert(self@.slots.take(i as int) =~= self@.slots);
        while i > 0
            invariant
                i <= self.hooks.len(),
                self@.provided(ctx) == provided_in(self@.slots.take(i as int), ctx),
            decreases i,
        {
            i -= 1;
            proof {
                let upto = self@.slots.take(i + 1);
                assert(upto.last() == self.hooks@[i as int]@);
                assert(upto.drop_last() =~= self@.slots.take(i as int));
            }
            match &self.hooks[i] {
                Hook::Context(handle, value) => {
                    if *handle == ctx {
                        return Some(value.clone());
                    }
                },
                _ => {},
            }
        }
        assert(self@.slots.take(0).len() == 0);
        None
    }

    /// Whether the next hook call declares a new slot.
    pub fn mounting(&self) -> (mounting: bool)
        ensures
            mounting == self@.mounting(),
    {
        self.hook_index >= self.hooks.len()
    }

    /// The value of the state slot at `index`, if there is one.
    pub fn state_at(&self, index: usize) -> (held: Option<&Value>)
        ensures
            match held {
                Some(value) => self@.state_at(index as nat) == Some(value@),
                None => self@.state_at(index as nat) is None,
            },
    {
        if index < self.hooks.len() {
            match &self.hooks[index] {
                Hook::State(value) => Some(value),
                _ => None,
            }
        } else {
            None
        }
    }

    /// Gives the state slot at `index` the value `value`. Nothing happens if
    /// there is no state slot at `index`.
    pub fn write_state(&mut self, index: usize, value: Value)
        ensures
            final(self)@ == old(self)@.set_state(index as nat, value@),
    {
        if index < self.hooks.len() {
            let writable = match &self.hooks[index] {
                Hook::State(_) => true,
                _ => false,
            };
            if writable {
                self.hooks[index] = Hook::State(value);
                assert(self@.slots =~= old(self)@.slots.update(
                    index as int,
                    HookView::State(value@),
                ));
            }
        }
    }
}

} // verus!
