//! Forms: aggregates of input fields and action buttons with a combined
//! validity state.
//!
//! A form owns an ordered list of field handles and button handles, an
//! aggregate error list (insertion order = validation-event arrival order),
//! and a validity mark. Invalid-present is equivalent to a non-empty error
//! list; valid is an assertion made explicitly, never derived merely from
//! the absence of errors.

use vstd::prelude::*;

use crate::entity::Entity;

verus! {

/// Validation errors for form elements, each scoped to the owning field's
/// handle.
#[derive(Clone, Debug)]
pub enum FormValidationError {
    /// A required field is empty.
    Required(Entity),
    /// A field's value is invalid.
    Invalid(Entity),
    /// A custom error with a message.
    Custom(Entity, String),
}

/// The field handle an error is scoped to, regardless of its variant.
pub open spec fn error_entity(e: FormValidationError) -> Entity {
    match e {
        FormValidationError::Required(entity) => entity,
        FormValidationError::Invalid(entity) => entity,
        FormValidationError::Custom(entity, _) => entity,
    }
}

impl FormValidationError {
    /// The field handle this error is scoped to.
    pub fn entity(&self) -> (r: Entity)
        ensures
            r == error_entity(*self),
    {
        match self {
            FormValidationError::Required(entity) => *entity,
            FormValidationError::Invalid(entity) => *entity,
            FormValidationError::Custom(entity, _) => *entity,
        }
    }
}

/// A form's aggregate validity mark. A fresh form carries neither mark
/// until it is explicitly marked valid or a field error arrives.
#[derive(Clone, Copy, PartialEq, Eq, Structural, Debug)]
pub enum FormValidity {
    /// Neither mark is present.
    Unmarked,
    /// The form is asserted valid.
    Valid,
    /// The form is invalid; the error list says why.
    Invalid,
}

/// A form: its aggregate error list, validity mark, and its field and
/// button children in declared order.
pub struct Form {
    /// Field-scoped causes, in validation-event arrival order.
    pub errors: Vec<FormValidationError>,
    /// The aggregate validity mark.
    pub validity: FormValidity,
    /// Handles of the field children, in declared order.
    pub fields: Vec<Entity>,
    /// Handles of the action-button children.
    pub buttons: Vec<Entity>,
}

/// The error list with every cause scoped to one field removed, other
/// causes kept in order.
pub open spec fn errors_without(s: Seq<FormValidationError>, field: Entity) -> Seq<
    FormValidationError,
>
    decreases s.len(),
{
    if s.len() == 0 {
        Seq::empty()
    } else {
        errors_without(s.drop_last(), field) + if error_entity(s.last()) == field {
            Seq::empty()
        } else {
            seq![s.last()]
        }
    }
}

/// Whether some cause in the list is scoped to the given field.
pub open spec fn has_error_for(s: Seq<FormValidationError>, field: Entity) -> bool {
    exists|i: int| 0 <= i < s.len() && error_entity(s[i]) == field
}

/// Removing one field's causes removes exactly those: no cause for that
/// field remains, and a list without such causes is unchanged.
pub proof fn lemma_errors_without(s: Seq<FormValidationError>, field: Entity)
    ensures
        !has_error_for(errors_without(s, field), field),
        forall|i: int|
            0 <= i < errors_without(s, field).len() ==> s.contains(
                #[trigger] errors_without(s, field)[i],
            ),
        !has_error_for(s, field) ==> errors_without(s, field) == s,
        errors_without(s, field).len() <= s.len(),
    decreases s.len(),
{
    if s.len() > 0 {
        lemma_errors_without(s.drop_last(), field);
        assert(forall|i: int|
            0 <= i < s.drop_last().len() ==> s.drop_last()[i] == #[trigger] s[i]);
        if !has_error_for(s, field) {
            assert(error_entity(s.last()) != field);
            assert(forall|i: int| 0 <= i < s.drop_last().len() ==> error_entity(s[i]) != field);
            assert(errors_without(s, field) =~= s);
        }
    }
}

/// The mathematical model of a [`Form`].
pub struct FormModel {
    /// Field-scoped causes, in arrival order.
    pub errors: Seq<FormValidationError>,
    /// The aggregate validity mark.
    pub validity: FormValidity,
    /// Handles of the field children, in declared order.
    pub fields: Seq<Entity>,
    /// Handles of the action-button children.
    pub buttons: Seq<Entity>,
}

impl View for Form {
    type V = FormModel;

    open spec fn view(&self) -> FormModel {
        FormModel {
            errors: self.errors@,
            validity: self.validity,
            fields: self.fields@,
            buttons: self.buttons@,
        }
    }
}

impl FormModel {
    /// Well-formedness: the invalid mark is present exactly when the error
    /// list is non-empty.
    pub open spec fn wf(self) -> bool {
        (self.validity is Invalid) <==> self.errors.len() > 0
    }

    /// The form after a newly-appeared field error: the cause appended and
    /// the invalid mark set.
    pub open spec fn with_error(self, cause: FormValidationError) -> FormModel {
        FormModel { errors: self.errors.push(cause), validity: FormValidity::Invalid, ..self }
    }

    /// The form after a field newly became valid: on an invalid form that
    /// field's causes are removed and, if none remain, the invalid mark is
    /// replaced by valid; any other form is untouched.
    pub open spec fn noted_valid(self, field: Entity) -> FormModel {
        if self.validity is Invalid {
            FormModel {
                errors: errors_without(self.errors, field),
                validity: if errors_without(self.errors, field).len() == 0 {
                    FormValidity::Valid
                } else {
                    FormValidity::Invalid
                },
                ..self
            }
        } else {
            self
        }
    }
}

impl Form {
    /// Well-formedness: the invalid mark is present exactly when the error
    /// list is non-empty.
    pub open spec fn wf(self) -> bool {
        self@.wf()
    }

    /// A fresh form with no children, no errors and neither validity mark.
    pub fn new() -> (f: Form)
        ensures
            f.errors@.len() == 0,
            f.validity is Unmarked,
            f.fields@.len() == 0,
            f.buttons@.len() == 0,
            f.wf(),
    {
        Form {
            errors: Vec::new(),
            validity: FormValidity::Unmarked,
            fields: Vec::new(),
            buttons: Vec::new(),
        }
    }

    /// Assert the form valid; allowed only while no error is recorded.
    pub fn mark_valid(&mut self)
        requires
            old(self).wf(),
            old(self).errors@.len() == 0,
        ensures
            final(self).wf(),
            final(self).validity is Valid,
            final(self).errors == old(self).errors,
            final(self).fields == old(self).fields,
            final(self).buttons == old(self).buttons,
    {
        self.validity = FormValidity::Valid;
    }

    /// Record a newly-appeared field error: the cause is appended to the
    /// error list and the form is marked invalid, displacing any valid mark.
    pub fn note_invalid(&mut self, cause: FormValidationError)
        requires
            old(self).wf(),
        ensures
            final(self).wf(),
            final(self)@ == old(self)@.with_error(cause),
    {
        self.errors.push(cause);
        self.validity = FormValidity::Invalid;
    }

    /// React to a field becoming valid: on an invalid form, every cause
    /// scoped to that field's handle is removed — matching by handle, not by
    /// variant — and if the list becomes empty the invalid mark is replaced
    /// by valid. A form that is not invalid is left untouched.
    pub fn note_valid(&mut self, field: Entity)
        requires
            old(self).wf(),
        ensures
            final(self).wf(),
            final(self)@ == old(self)@.noted_valid(field),
    {
        match self.validity {
            FormValidity::Invalid => {
                let ghost s0 = self.errors@;
                let mut kept: Vec<FormValidationError> = Vec::new();
                while self.errors.len() > 0
                    invariant
                        self.errors@.len() <= s0.len(),
                        self.errors@ == s0.skip(s0.len() - self.errors@.len()),
                        kept@ == errors_without(s0.take(s0.len() - self.errors@.len()), field),
                        self.validity == old(self).validity,
                        self.fields == old(self).fields,
                        self.buttons == old(self).buttons,
                    decreases self.errors@.len(),
                {
                    let ghost k = s0.len() - self.errors@.len();
                    let e = self.errors.remove(0);
                    proof {
                        assert(s0.take(k + 1).drop_last() =~= s0.take(k));
                        assert(s0.take(k + 1).last() == s0[k]);
                        assert(e == s0[k]);
                        assert(self.errors@ =~= s0.skip(k + 1));
                    }
                    let ent = e.entity();
                    if !(ent.0 == field.0) {
                        kept.push(e);
                    }
                    proof {
                        assert(kept@ =~= errors_without(s0.take(k + 1), field));
                    }
                }
                proof {
                    assert(s0.take(s0.len() as int) =~= s0);
                }
                self.errors = kept;
                if self.errors.len() == 0 {
                    self.validity = FormValidity::Valid;
                }
            },
            _ => (),
        }
    }
}

/// Copy a string, character for character.
pub fn clone_string(s: &String) -> (r: String)
    ensures
        r@ == s@,
{
    s.clone()
}

/// Event sent when a form-level action occurs; the payload type is the
/// form's field data, or a bare handle for the generic layer.
#[derive(Debug)]
pub enum FormEvent<T> {
    /// Submit with the form data.
    Submit(T),
    /// Apply with the form data; a reserved role, not auto-emitted.
    Apply(T),
    /// Cancel, carrying the form's handle.
    Cancel(Entity),
    /// A custom action: the form's handle, the action's name, and the form
    /// data where it could be gathered.
    Custom(Entity, String, Option<T>),
}

/// The generic form event: a form-level action carrying bare handles.
#[derive(Debug)]
pub struct GenericFormEvent {
    /// The form event, with the form's handle as payload.
    pub form: FormEvent<Entity>,
}

/// Event sent when a field is validated, summarizing the form's state.
#[derive(Debug)]
pub struct FormValidationEvent {
    /// Whether the form is valid after this validation.
    pub valid: bool,
    /// Whether the validated field was dirty.
    pub dirty: bool,
    /// The form's error list after this validation.
    pub fields: Vec<FormValidationError>,
}

/// Actions that can be performed on a form.
#[derive(Hash, PartialEq, Eq, Debug, Clone)]
pub enum FormEventAction {
    /// Submit the form.
    Submit,
    /// Apply the form.
    Apply,
    /// Cancel the form.
    Cancel,
    /// A custom action with a name.
    Custom(String),
}

/// Numeric id carried by buttons generated from a typed action list.
#[derive(Clone, Copy, PartialEq, Eq, Structural, Debug)]
pub struct FormActionId(pub usize);

/// What the form-level keyboard shortcuts emit: Enter released while no
/// invalid mark is present submits; otherwise Escape released cancels.
pub open spec fn form_keyboard_spec(
    form: Entity,
    invalid: bool,
    enter_released: bool,
    escape_released: bool,
) -> Option<FormEvent<Entity>> {
    if enter_released && !invalid {
        Some(FormEvent::Submit(form))
    } else if escape_released {
        Some(FormEvent::Cancel(form))
    } else {
        None
    }
}

impl Form {
    /// React to the focused form's keyboard shortcuts: Enter released with
    /// no invalid mark present emits Submit; Escape released emits Cancel
    /// unconditionally.
    pub fn keyboard_event(
        &self,
        self_entity: Entity,
        enter_released: bool,
        escape_released: bool,
    ) -> (r: Option<GenericFormEvent>)
        ensures
            match r {
                Some(ev) => Some(ev.form) == form_keyboard_spec(
                    self_entity,
                    self.validity is Invalid,
                    enter_released,
                    escape_released,
                ),
                None => form_keyboard_spec(
                    self_entity,
                    self.validity is Invalid,
                    enter_released,
                    escape_released,
                ) is None,
            },
    {
        let invalid = match self.validity {
            FormValidity::Invalid => true,
            _ => false,
        };
        if enter_released && !invalid {
            Some(GenericFormEvent { form: FormEvent::Submit(self_entity) })
        } else if escape_released {
            Some(GenericFormEvent { form: FormEvent::Cancel(self_entity) })
        } else {
            None
        }
    }
}

} // verus!
