//! A text-input and form widget toolkit for a retained-mode UI layer.
//!
//! Forms are ordered sets of labeled input fields plus submit/cancel/apply
//! action buttons. The library owns the focus, validation-propagation, and
//! text-editing state machine: per-field text buffers with character-index
//! cursors, per-field validity derived from the value and an optionality
//! flag, propagation of field errors into the owning form's aggregate error
//! list, a process-wide focus token held by at most one field, and emission
//! of high-level submit/cancel events. The host runtime (rendering, event
//! intake, clipboard access) drives it by handing plain events to a world
//! value and performing the actions it returns.

pub mod builder;
pub mod button;
pub mod clipboard;
pub mod entity;
pub mod form;
pub mod form_element;
pub mod pass;
pub mod text_input;
pub mod world;

use vstd::prelude::*;

verus! {

/// The whole toolkit in one piece: building it yields a fresh world ready
/// for forms, fields and buttons.
pub struct BevyUiFormsPlugins;

impl BevyUiFormsPlugins {
    /// Assemble the toolkit: an empty world with no focus held.
    pub fn build(self) -> (w: world::World)
        ensures
            w.wf(),
            w.slots@.len() == 0,
            w.focus is None,
    {
        world::World::new()
    }
}

} // verus!
