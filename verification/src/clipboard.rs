//! Clipboard intake: which keys ask for clipboard work, and what a
//! completed read delivers.
//!
//! The clipboard itself is an outside collaborator: the host performs the
//! actual read — possibly asynchronously — and hands the completed text
//! back on a later pass. This module owns only the decisions: recognizing
//! the copy and paste chords, and substituting an empty string when the
//! clipboard was unavailable. Newline stripping happens at insertion, in
//! the text-edit engine.

use vstd::prelude::*;

verus! {

/// Events the clipboard intake produces.
#[derive(Debug, Clone)]
pub enum ClipboardEvent {
    /// The user asked to copy the current selection. Currently only a
    /// notification: nothing is written to the clipboard.
    Copy,
    /// A paste completed, delivering the clipboard's text.
    Paste(String),
}

/// What the keyboard asked the clipboard bridge to do this pass.
#[derive(Clone, Copy, PartialEq, Eq, Structural, Debug)]
pub enum ClipboardAction {
    /// Emit a copy notification.
    Copy,
    /// Start a clipboard read whose text arrives on a later pass.
    RequestPaste,
}

/// The clipboard chord decision: the platform paste key asks for a read;
/// the platform copy key asks for a copy; with the control modifier held,
/// the C key asks for a copy and the V key for a read; anything else asks
/// for nothing.
pub open spec fn clipboard_key_spec(
    insert_pressed: bool,
    copy_key_pressed: bool,
    control_held: bool,
    c_pressed: bool,
    v_pressed: bool,
) -> Option<ClipboardAction> {
    if insert_pressed {
        Some(ClipboardAction::RequestPaste)
    } else if copy_key_pressed {
        Some(ClipboardAction::Copy)
    } else if !control_held {
        None
    } else if c_pressed {
        Some(ClipboardAction::Copy)
    } else if v_pressed {
        Some(ClipboardAction::RequestPaste)
    } else {
        None
    }
}

/// Decide what this pass's key state asks of the clipboard bridge.
pub fn clipboard_key_action(
    insert_pressed: bool,
    copy_key_pressed: bool,
    control_held: bool,
    c_pressed: bool,
    v_pressed: bool,
) -> (r: Option<ClipboardAction>)
    ensures
        r == clipboard_key_spec(
            insert_pressed,
            copy_key_pressed,
            control_held,
            c_pressed,
            v_pressed,
        ),
{
    if insert_pressed {
        Some(ClipboardAction::RequestPaste)
    } else if copy_key_pressed {
        Some(ClipboardAction::Copy)
    } else if !control_held {
        None
    } else if c_pressed {
        Some(ClipboardAction::Copy)
    } else if v_pressed {
        Some(ClipboardAction::RequestPaste)
    } else {
        None
    }
}

/// The text a completed clipboard read delivers: the clipboard's content,
/// or the empty string where the clipboard was unavailable — unavailability
/// is recovered locally and never propagated as a failure.
pub fn clipboard_text(content: Option<String>) -> (r: String)
    ensures
        match content {
            Some(s) => r@ == s@,
            None => r@.len() == 0,
        },
{
    match content {
        Some(s) => s,
        None => String::new(),
    }
}

} // verus!
