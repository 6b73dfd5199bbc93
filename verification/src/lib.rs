//! A retained-state runtime for repeatedly invoked component functions.
//!
//! A component function is bound to a *fiber*: a node in a tree that owns an
//! ordered list of state slots. Each time the fiber is called its function may
//! declare slots through the hook primitives (`use_state`, `use_effect`,
//! `use_ref`, `provide_context`); a slot is identified by the position of the
//! declaring call, so the same sequence of declarations finds the same slots on
//! every call.
//!
//! The runtime is an explicit value, [`FiberTree`], handed by reference to the
//! component function and from there to every hook primitive.
pub mod deps;
pub mod error;
pub mod fiber;
pub mod hooks;
pub mod laws;
pub mod value;

pub use deps::{deps_changed, DynEq};
pub use error::FiberStoreError;
pub use fiber::{
    call_fiber, get_children_ids, get_parent_id, mount_fiber, unmount_fiber, Component, Fiber,
    FiberStore, FiberTree, HooksState, Signature,
};
pub use hooks::use_context::{
    create_context, find_context, provide_context, use_context, Context, ContextSource,
};
pub use hooks::use_effect::use_effect;
pub use hooks::use_ref::{use_ref, SharedCell};
pub use hooks::use_state::{use_state, SetStateAction};
pub use hooks::{Hook, HookKind};
pub use value::{Value, ValueType, ValueView};
