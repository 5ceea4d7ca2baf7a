//! Event handling for one processing pass: pointer readings on buttons,
//! the form-level keyboard shortcuts, and the dispatch of press events to
//! submit, cancel and typed-action outcomes.
//!
//! The host runtime drives these as ordered phases within one logical
//! tick: focus-interaction resolution before touched-marking, value and
//! cursor updates before validation, validation before the form-level
//! shortcuts, and the blink phase last. Each phase is one call on the
//! world; no call here blocks or sleeps.

use vstd::prelude::*;

use crate::builder::{action_from_id, bindings_resolve, gathered_data, ActionInvocation,
    ActionVariantDef, FieldValue, FormDataError, FormFields};
use crate::button::{press_detected, ButtonPressEvent, ButtonRole, FormButton, FormInteraction};
use crate::entity::Entity;
use crate::form::{form_keyboard_spec, FormEvent, GenericFormEvent};
use crate::world::{Slot, World};

verus! {

impl World {
    /// Record one pointer-interaction reading for a button and, when it is
    /// a transition into the pressed state, hand back the press event — a
    /// copy of the button's description and role under the button's handle.
    /// A reading for a handle that names no live button falls on the floor.
    pub fn observe_button(&mut self, e: Entity, now: FormInteraction) -> (ev: Option<
        ButtonPressEvent,
    >)
        requires
            old(self).wf(),
        ensures
            final(self).wf(),
            final(self).focus == old(self).focus,
            if old(self).is_button(e) {
                &&& final(self).slots@.len() == old(self).slots@.len()
                &&& forall|j: int|
                    0 <= j < old(self).slots@.len() && j != e.0 ==> final(self).slots@[j] == old(
                        self,
                    ).slots@[j]
                &&& final(self).is_button(e)
                &&& final(self).button(e) == (crate::button::ButtonModel {
                    interaction: now,
                    ..old(self).button(e)
                })
                &&& match ev {
                    Some(p) => {
                        &&& press_detected(old(self).button(e).interaction, now)
                        &&& p.entity == e
                        &&& p.button@ == old(self).button(e).button
                        &&& p.role@ == old(self).button(e).role
                    },
                    None => !press_detected(old(self).button(e).interaction, now),
                }
            } else {
                *final(self) == *old(self) && ev is None
            },
    {
        let ghost w0 = *self;
        if !(e.0 < self.slots.len()) {
            return None;
        }
        let is_btn = match &self.slots[e.0] {
            Slot::Button(_) => true,
            _ => false,
        };
        if !is_btn {
            return None;
        }
        let s = self.take_slot(e.0);
        match s {
            Slot::Button(mut b) => {
                let pressed = b.observe_interaction(now);
                let ev = if pressed {
                    Some(
                        ButtonPressEvent {
                            entity: e,
                            button: b.button.duplicate(),
                            role: b.role.duplicate(),
                        },
                    )
                } else {
                    None
                };
                self.put_slot(e.0, Slot::Button(b));
                proof {
                    assert forall|k: int|
                        0 <= k < self.slots@.len() && (#[trigger] self.slots@[k]) is Field implies {
                        &&& (self.slots@[k]->Field_0@.active <==> self.focus == Some(
                            Entity(k as usize),
                        ))
                        &&& self.slots@[k]->Field_0@.wf()
                    } by {
                        assert(w0.slots@[k] is Field);
                    }
                    assert forall|k: int|
                        0 <= k < self.slots@.len() && (#[trigger] self.slots@[k])
                            is Form implies self.slots@[k]->Form_0@.wf() by {
                        assert(w0.slots@[k] is Form);
                    }
                    match self.focus {
                        Some(fe) => {
                            assert(w0.slots@[fe.0 as int] is Field);
                            assert(self.slots@[fe.0 as int] is Field);
                        },
                        None => (),
                    }
                }
                ev
            },
            _ => vstd::pervasive::unreached(),
        }
    }

    /// React to the focused form's keyboard shortcuts: Enter released while
    /// no invalid mark is present emits Submit, otherwise Escape released
    /// emits Cancel.
    pub fn form_keyboard(
        &self,
        form: Entity,
        enter_released: bool,
        escape_released: bool,
    ) -> (r: Option<GenericFormEvent>)
        requires
            self.wf(),
            self.is_form(form),
        ensures
            match r {
                Some(ev) => Some(ev.form) == form_keyboard_spec(
                    form,
                    self.form(form).validity is Invalid,
                    enter_released,
                    escape_released,
                ),
                None => form_keyboard_spec(
                    form,
                    self.form(form).validity is Invalid,
                    enter_released,
                    escape_released,
                ) is None,
            },
    {
        let f = self.form_ref(form);
        f.keyboard_event(form, enter_released, escape_released)
    }
}

/// What handling one button press or one generic form event amounts to.
#[derive(Debug)]
pub enum Outcome {
    /// The event concerned another form, a gone entity, or a role with
    /// nothing to do; nothing is emitted.
    Ignored,
    /// A typed action fired, with its id and the data handed to it.
    Action(ActionInvocation),
    /// A form event to emit, carrying the gathered field data as payload.
    Event(FormEvent<Vec<FieldValue>>),
    /// The wiring's invariant is broken: a required field's entity is
    /// missing, an unknown action id fired, or data was owed and absent.
    Violation,
}

impl World {
    /// Dispatch one button press for one form: presses for other forms are
    /// ignored; a button carrying an action id resolves to its typed
    /// action; otherwise the submit role emits the full field data only
    /// while the form is asserted valid, the cancel role emits cancel
    /// immediately, a custom role emits its name with best-effort data even
    /// on an invalid form, and the apply role is reserved and emits
    /// nothing. A required field missing from the world is an invariant
    /// violation, as is a failed action resolution.
    pub fn handle_button_press(
        &self,
        ff: &FormFields,
        defs: &Vec<ActionVariantDef>,
        ev: &ButtonPressEvent,
    ) -> (r: Outcome)
        requires
            self.wf(),
        ensures
            ({
                let form = ff.form;
                let relevant = self.is_form(form) && ev.button@.form == Some(form);
                let live = self.is_button(ev.entity);
                let b = self.button(ev.entity);
                let form_valid = self.form(form).validity is Valid;
                let resolvable = bindings_resolve(*self, ff.bindings@);
                let data_present = form_valid && resolvable;
                let gather_violation = form_valid && !resolvable;
                if !relevant || !live {
                    r is Ignored
                } else if gather_violation {
                    r is Violation
                } else {
                    match b.action_id {
                        Some(id) => {
                            if id.0 >= defs@.len() || (defs@[id.0 as int].needs_data
                                && !data_present) {
                                r is Violation
                            } else {
                                r matches Outcome::Action(inv) && inv.id == id.0 && (
                                if data_present {
                                    inv.data matches Some(d) && gathered_data(
                                        *self,
                                        ff.bindings@,
                                        d@,
                                    )
                                } else {
                                    inv.data is None
                                })
                            }
                        },
                        None => match b.role {
                            crate::button::RoleModel::Submit => {
                                if data_present {
                                    r matches Outcome::Event(FormEvent::Submit(d))
                                        && gathered_data(*self, ff.bindings@, d@)
                                } else {
                                    r is Ignored
                                }
                            },
                            crate::button::RoleModel::Cancel => r matches Outcome::Event(
                                FormEvent::Cancel(f),
                            ) && f == form,
                            crate::button::RoleModel::Apply => r is Ignored,
                            crate::button::RoleModel::Custom(name) => {
                                r matches Outcome::Event(FormEvent::Custom(f, n, d)) && f == form
                                    && n@ == name && (if data_present {
                                    d matches Some(dd) && gathered_data(*self, ff.bindings@, dd@)
                                } else {
                                    d is None
                                })
                            },
                        },
                    }
                }
            }),
    {
        let form = ff.form;
        let form_live = form.0 < self.slots.len() && (match &self.slots[form.0] {
            Slot::Form(_) => true,
            _ => false,
        });
        if !form_live {
            return Outcome::Ignored;
        }
        let owner_matches = match ev.button.form {
            Some(f) => f.0 == form.0,
            None => false,
        };
        if !owner_matches {
            return Outcome::Ignored;
        }
        let live = ev.entity.0 < self.slots.len() && (match &self.slots[ev.entity.0] {
            Slot::Button(_) => true,
            _ => false,
        });
        if !live {
            return Outcome::Ignored;
        }
        let data: Option<Vec<FieldValue>> = match self.gather_form_data(ff) {
            Ok(d) => Some(d),
            Err(FormDataError::FormNotValid) => None,
            Err(FormDataError::MissingField) => {
                return Outcome::Violation;
            },
        };
        let btn = self.button_ref(ev.entity);
        match &btn.action_id {
            Some(id) => {
                match action_from_id(defs, id.0, data) {
                    Ok(inv) => Outcome::Action(inv),
                    Err(_) => Outcome::Violation,
                }
            },
            None => {
                match &btn.role {
                    ButtonRole::Submit => {
                        match data {
                            Some(d) => Outcome::Event(FormEvent::Submit(d)),
                            None => Outcome::Ignored,
                        }
                    },
                    ButtonRole::Cancel => Outcome::Event(FormEvent::Cancel(form)),
                    ButtonRole::Apply => Outcome::Ignored,
                    ButtonRole::Custom(name) => Outcome::Event(
                        FormEvent::Custom(form, crate::form::clone_string(name), data),
                    ),
                }
            },
        }
    }

    /// Turn one generic form event into the typed event the submit path
    /// emits: a submit re-derives and carries the full field data — owed
    /// only while the form is asserted valid, anything else being a wiring
    /// violation —, a cancel passes through, and the remaining events are
    /// not wired to typed emission.
    pub fn handle_form_event(&self, ff: &FormFields, ev: &GenericFormEvent) -> (r: Outcome)
        requires
            self.wf(),
        ensures
            ({
                let form = ff.form;
                let form_valid = self.is_form(form) && self.form(form).validity is Valid;
                let resolvable = bindings_resolve(*self, ff.bindings@);
                match ev.form {
                    FormEvent::Submit(_) => {
                        if form_valid && resolvable {
                            r matches Outcome::Event(FormEvent::Submit(d)) && gathered_data(
                                *self,
                                ff.bindings@,
                                d@,
                            )
                        } else {
                            r is Violation
                        }
                    },
                    FormEvent::Cancel(e) => r matches Outcome::Event(FormEvent::Cancel(f)) && f
                        == e,
                    FormEvent::Apply(_) => r is Ignored,
                    FormEvent::Custom(_, _, _) => r is Ignored,
                }
            }),
    {
        match &ev.form {
            FormEvent::Submit(_) => {
                match self.gather_form_data(ff) {
                    Ok(d) => Outcome::Event(FormEvent::Submit(d)),
                    Err(_) => Outcome::Violation,
                }
            },
            FormEvent::Cancel(e) => Outcome::Event(FormEvent::Cancel(*e)),
            FormEvent::Apply(_) => Outcome::Ignored,
            FormEvent::Custom(_, _, _) => Outcome::Ignored,
        }
    }
}

} // verus!
