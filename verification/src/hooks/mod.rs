//! State slots and the hook primitives that declare them.
use vstd::prelude::*;
use crate::hooks::use_context::Context;
use crate::hooks::use_ref::SharedCell;
use crate::value::{views, Value, ValueView};

pub mod use_context;
pub mod use_effect;
pub mod use_ref;
pub mod use_state;

verus! {

/// What a slot was declared as. A slot keeps its kind for as long as its
/// fiber is mounted.
#[derive(Clone, Copy, Debug, PartialEq, Eq, Structural)]
pub enum HookKind {
    State,
    Effect,
    Ref,
    Context,
}

/// One slot of persisted hook state.
pub enum Hook {
    /// The value kept by `use_state`.
    State(Value),
    /// The dependency list last seen by `use_effect`.
    Effect(Vec<Value>),
    /// The cell handed out by `use_ref`.
    Ref(SharedCell),
    /// A value offered to descendants by `provide_context`.
    Context(Context, Value),
}

/// The mathematical content of a [`Hook`]. A cell is its own content: two
/// cells are equal when they are the same cell, whatever they hold.
pub enum HookView {
    State(ValueView),
    Effect(Seq<ValueView>),
    Ref(SharedCell),
    Context(Context, ValueView),
}

impl HookView {
    pub open spec fn kind(self) -> HookKind {
        match self {
            HookView::State(_) => HookKind::State,
            HookView::Effect(_) => HookKind::Effect,
            HookView::Ref(_) => HookKind::Ref,
            HookView::Context(_, _) => HookKind::Context,
        }
    }
}

impl View for Hook {
    type V = HookView;

    open spec fn view(&self) -> HookView {
        match self {
            Hook::State(value) => HookView::State(value@),
            Hook::Effect(deps) => HookView::Effect(views(deps@)),
            Hook::Ref(cell) => HookView::Ref(*cell),
            Hook::Context(ctx, value) => HookView::Context(*ctx, value@),
        }
    }
}

impl Hook {
    /// The kind this slot was declared as.
    pub fn kind(&self) -> (kind: HookKind)
        ensures
            kind == self@.kind(),
    {
        match self {
            Hook::State(_) => HookKind::State,
            Hook::Effect(_) => HookKind::Effect,
            Hook::Ref(_) => HookKind::Ref,
            Hook::Context(_, _) => HookKind::Context,
        }
    }
}

} // verus!
