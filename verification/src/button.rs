//! Action buttons for forms: submit, cancel, apply or a custom action.
//!
//! A button references the form it belongs to and carries a role. Pointer
//! interaction arrives as a three-state reading per button; only a change
//! into the pressed state produces a press event.

use vstd::prelude::*;

use crate::entity::Entity;
use crate::form::FormActionId;

verus! {

/// Role a button plays in a form.
#[derive(Clone, Debug)]
pub enum ButtonRole {
    /// Submits the form.
    Submit,
    /// Cancels the form.
    Cancel,
    /// Submits the form without closing it; a reserved role that the core
    /// parses but never auto-emits.
    Apply,
    /// A custom role with a name.
    Custom(String),
}

/// The mathematical model of a [`ButtonRole`]: the name of a custom role is
/// taken as its character sequence.
pub enum RoleModel {
    /// Submits the form.
    Submit,
    /// Cancels the form.
    Cancel,
    /// Submits without closing.
    Apply,
    /// A custom role with a name.
    Custom(Seq<char>),
}

impl View for ButtonRole {
    type V = RoleModel;

    open spec fn view(&self) -> RoleModel {
        match self {
            ButtonRole::Submit => RoleModel::Submit,
            ButtonRole::Cancel => RoleModel::Cancel,
            ButtonRole::Apply => RoleModel::Apply,
            ButtonRole::Custom(name) => RoleModel::Custom(name@),
        }
    }
}

/// The role a textual role name denotes: the known names map to their
/// roles, any other name to a custom role carrying it.
pub open spec fn role_of_name(s: Seq<char>) -> RoleModel {
    if s == "submit"@ {
        RoleModel::Submit
    } else if s == "cancel"@ {
        RoleModel::Cancel
    } else if s == "apply"@ {
        RoleModel::Apply
    } else {
        RoleModel::Custom(s)
    }
}

impl ButtonRole {
    /// Parse a role from its textual name: "submit", "cancel" and "apply"
    /// give their roles, any other name a custom role carrying it.
    pub fn from_name(s: &str) -> (r: ButtonRole)
        ensures
            r@ == role_of_name(s@),
    {
        let owned = s.to_owned();
        if string_eq_lit(&owned, "submit") {
            ButtonRole::Submit
        } else if string_eq_lit(&owned, "cancel") {
            ButtonRole::Cancel
        } else if string_eq_lit(&owned, "apply") {
            ButtonRole::Apply
        } else {
            ButtonRole::Custom(owned)
        }
    }

    /// Copy a role; the copy denotes the same role.
    pub fn duplicate(&self) -> (r: ButtonRole)
        ensures
            r@ == self@,
    {
        match self {
            ButtonRole::Submit => ButtonRole::Submit,
            ButtonRole::Cancel => ButtonRole::Cancel,
            ButtonRole::Apply => ButtonRole::Apply,
            ButtonRole::Custom(name) => ButtonRole::Custom(name.clone()),
        }
    }
}

/// Whether a string equals a literal.
fn string_eq_lit(s: &String, lit: &str) -> (r: bool)
    ensures
        r == (s@ == lit@),
{
    let other = lit.to_owned();
    s.eq(&other)
}

/// Interaction state of a form button, read from the pointer: idle,
/// hovered, or pressed. Only a change into pressed is acted on.
#[derive(Clone, Copy, PartialEq, Eq, Structural, Hash, Debug)]
pub enum FormInteraction {
    /// No interaction.
    Idle,
    /// The pointer hovers over the button.
    Hovered,
    /// The button is pressed.
    Pressed,
}

/// A form button: its display text and the form it belongs to.
#[derive(Debug)]
pub struct FormButton {
    /// Text displayed on the button.
    pub text: String,
    /// The form the button belongs to.
    pub form: Option<Entity>,
}

/// The mathematical model of a [`FormButton`].
pub struct FormButtonModel {
    /// The display text as a character sequence.
    pub text: Seq<char>,
    /// The form the button belongs to.
    pub form: Option<Entity>,
}

impl View for FormButton {
    type V = FormButtonModel;

    open spec fn view(&self) -> FormButtonModel {
        FormButtonModel { text: self.text@, form: self.form }
    }
}

impl FormButton {
    /// Copy a button description.
    pub fn duplicate(&self) -> (r: FormButton)
        ensures
            r@ == self@,
    {
        FormButton { text: self.text.clone(), form: self.form }
    }
}

/// What a form button is built from: its description, its role, and — for
/// buttons generated from a typed action list — a numeric action id.
#[derive(Debug)]
pub struct FormButtonBundle {
    /// The button's description: display text and owning form.
    pub form_button: FormButton,
    /// The role the button plays in its form.
    pub button_role: ButtonRole,
    /// Numeric action id, present only for typed actions.
    pub action_id: Option<FormActionId>,
}

impl FormButtonBundle {
    /// A new bundle with the given display text, the submit role, no owning
    /// form and no action id.
    pub fn new(text: String) -> (b: FormButtonBundle)
        ensures
            b.form_button@.text == text@,
            b.form_button@.form is None,
            b.button_role@ is Submit,
            b.action_id is None,
    {
        FormButtonBundle {
            form_button: FormButton { text, form: None },
            button_role: ButtonRole::Submit,
            action_id: None,
        }
    }

    /// The same bundle with its role replaced.
    pub fn with_role(self, role: ButtonRole) -> (b: FormButtonBundle)
        ensures
            b.form_button == self.form_button,
            b.button_role == role,
            b.action_id == self.action_id,
    {
        FormButtonBundle { button_role: role, ..self }
    }

    /// The same bundle owned by the given form.
    pub fn with_form(self, form: Entity) -> (b: FormButtonBundle)
        ensures
            b.form_button@.text == self.form_button@.text,
            b.form_button@.form == Some(form),
            b.button_role == self.button_role,
            b.action_id == self.action_id,
    {
        FormButtonBundle {
            form_button: FormButton { text: self.form_button.text, form: Some(form) },
            ..self
        }
    }

    /// The same bundle carrying a numeric action id.
    pub fn with_action_id(self, id: FormActionId) -> (b: FormButtonBundle)
        ensures
            b.form_button == self.form_button,
            b.button_role == self.button_role,
            b.action_id == Some(id),
    {
        FormButtonBundle { action_id: Some(id), ..self }
    }
}

/// A button entity's state: its description, role, last observed pointer
/// interaction and optional action id.
#[derive(Debug)]
pub struct Button {
    /// The button's description: display text and owning form.
    pub button: FormButton,
    /// The role the button plays in its form.
    pub role: ButtonRole,
    /// The last observed pointer interaction.
    pub interaction: FormInteraction,
    /// Numeric action id, present only for typed actions.
    pub action_id: Option<FormActionId>,
}

/// The mathematical model of a [`Button`].
pub struct ButtonModel {
    /// The button's description.
    pub button: FormButtonModel,
    /// The role.
    pub role: RoleModel,
    /// The last observed pointer interaction.
    pub interaction: FormInteraction,
    /// Numeric action id, if any.
    pub action_id: Option<FormActionId>,
}

impl View for Button {
    type V = ButtonModel;

    open spec fn view(&self) -> ButtonModel {
        ButtonModel {
            button: self.button@,
            role: self.role@,
            interaction: self.interaction,
            action_id: self.action_id,
        }
    }
}

/// Whether a fresh interaction reading is a press: it differs from the last
/// observed one and is the pressed state.
pub open spec fn press_detected(last: FormInteraction, now: FormInteraction) -> bool {
    now is Pressed && last != now
}

impl Button {
    /// Record a fresh pointer-interaction reading; reports whether it is a
    /// transition into the pressed state, the only transition acted on.
    pub fn observe_interaction(&mut self, now: FormInteraction) -> (pressed: bool)
        ensures
            final(self)@ == (ButtonModel { interaction: now, ..old(self)@ }),
            pressed == press_detected(old(self)@.interaction, now),
    {
        let was = self.interaction;
        self.interaction = now;
        match now {
            FormInteraction::Pressed => !(was == FormInteraction::Pressed),
            _ => false,
        }
    }
}

/// Event sent when a form button is pressed.
#[derive(Debug)]
pub struct ButtonPressEvent {
    /// The handle of the button that was pressed.
    pub entity: Entity,
    /// A copy of the button's description at press time.
    pub button: FormButton,
    /// The role the button plays in its form.
    pub role: ButtonRole,
}

} // verus!
