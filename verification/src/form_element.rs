//! Form elements: a single input field's role inside a form, and the
//! validation engine that reconciles its status with the owning form's
//! aggregate error list.
//!
//! Validation runs whenever a field's value changes: an empty value on a
//! non-optional field marks the field invalid with cause `Required(self)`,
//! any other value marks it valid. Transitions are edge-triggered — only a
//! newly-appeared invalid or valid status touches the parent form — so the
//! aggregate list never collects duplicate causes.

use vstd::prelude::*;

use crate::entity::Entity;
use crate::form::{errors_without, error_entity, has_error_for, lemma_errors_without, Form,
    FormModel};
use crate::form::{FormValidationError, FormValidity};
use crate::text_input::{TextInput, TextInputModel};

verus! {

/// A field's validation status. Valid and invalid are mutually exclusive;
/// a fresh field carries neither until first validated.
pub enum FieldStatus {
    /// Not validated yet.
    Unchecked,
    /// The value is valid.
    Valid,
    /// The value is invalid, with the recorded cause.
    Invalid(FormValidationError),
}

/// One input field: its edit state plus its role inside the owning form.
pub struct Field {
    /// The text-edit state: value, cursor, masking, blink timer.
    pub input: TextInput,
    /// The owning form's handle (non-owning back-reference).
    pub parent: Entity,
    /// Whether an empty value is acceptable.
    pub optional: bool,
    /// Declared tab order; only fields carrying one participate in tab
    /// navigation.
    pub order: Option<usize>,
    /// Whether this field is the routed-input field.
    pub active: bool,
    /// Set once focus is first gained; never cleared.
    pub touched: bool,
    /// Whether the value was changed since creation.
    pub dirty: bool,
    /// The current validation status.
    pub status: FieldStatus,
    /// Placeholder text shown while the value is empty.
    pub placeholder: String,
}

/// The mathematical model of a [`Field`].
pub struct FieldModel {
    /// The edit-state model.
    pub input: TextInputModel,
    /// The owning form's handle.
    pub parent: Entity,
    /// Whether an empty value is acceptable.
    pub optional: bool,
    /// Declared tab order, if any.
    pub order: Option<usize>,
    /// Whether this field is the routed-input field.
    pub active: bool,
    /// Whether focus was ever gained.
    pub touched: bool,
    /// Whether the value was changed since creation.
    pub dirty: bool,
    /// The current validation status.
    pub status: FieldStatus,
    /// Placeholder text.
    pub placeholder: Seq<char>,
}

impl View for Field {
    type V = FieldModel;

    open spec fn view(&self) -> FieldModel {
        FieldModel {
            input: self.input@,
            parent: self.parent,
            optional: self.optional,
            order: self.order,
            active: self.active,
            touched: self.touched,
            dirty: self.dirty,
            status: self.status,
            placeholder: self.placeholder@,
        }
    }
}

impl FieldModel {
    /// Well-formedness: the edit state keeps its cursor in the buffer.
    pub open spec fn wf(self) -> bool {
        self.input.wf()
    }
}

/// The status a value earns: empty on a non-optional field is invalid with
/// cause `Required(self)`; anything else is valid.
pub open spec fn validate_status(value: Seq<char>, optional: bool, field: Entity) -> FieldStatus {
    if value.len() == 0 && !optional {
        FieldStatus::Invalid(FormValidationError::Required(field))
    } else {
        FieldStatus::Valid
    }
}

/// The field status after one validation pass: a newly-earned invalid
/// status is recorded with its cause; a field already invalid keeps its
/// recorded cause; a valid value makes the field valid.
pub open spec fn next_status(
    old_status: FieldStatus,
    value: Seq<char>,
    optional: bool,
    field: Entity,
) -> FieldStatus {
    if validate_status(value, optional, field) is Invalid {
        if old_status is Invalid {
            old_status
        } else {
            validate_status(value, optional, field)
        }
    } else {
        FieldStatus::Valid
    }
}

/// The owning form after one validation pass of this field, edge-triggered:
/// a newly-appeared invalid status appends its cause; a newly-appeared
/// valid status removes the field's causes; no transition leaves the form
/// untouched.
pub open spec fn reconciled_form(
    form: FormModel,
    old_status: FieldStatus,
    value: Seq<char>,
    optional: bool,
    field: Entity,
) -> FormModel {
    if validate_status(value, optional, field) is Invalid {
        if old_status is Invalid {
            form
        } else {
            form.with_error(FormValidationError::Required(field))
        }
    } else {
        if old_status is Valid {
            form
        } else {
            form.noted_valid(field)
        }
    }
}

/// Validate one field against its current value and reconcile the owning
/// form's aggregate error list with the outcome.
pub fn revalidate(field: &mut Field, form: &mut Form, self_entity: Entity)
    requires
        old(field)@.wf(),
        old(form)@.wf(),
    ensures
        final(field)@.wf(),
        final(form)@.wf(),
        final(field)@.status == next_status(
            old(field)@.status,
            old(field)@.input.value,
            old(field)@.optional,
            self_entity,
        ),
        final(field)@ == (FieldModel { status: final(field)@.status, ..old(field)@ }),
        final(form)@ == reconciled_form(
            old(form)@,
            old(field)@.status,
            old(field)@.input.value,
            old(field)@.optional,
            self_entity,
        ),
{
    let invalid_now = field.input.value.len() == 0 && !field.optional;
    if invalid_now {
        match field.status {
            FieldStatus::Invalid(_) => (),
            _ => {
                let cause = FormValidationError::Required(self_entity);
                field.status = FieldStatus::Invalid(FormValidationError::Required(self_entity));
                form.note_invalid(cause);
            },
        }
    } else {
        match field.status {
            FieldStatus::Valid => (),
            _ => {
                field.status = FieldStatus::Valid;
                form.note_valid(self_entity);
            },
        }
    }
}

/// The validation engine keeps this tie between a field's status and its
/// form's error list: an invalid field's cause stands in the list, scoped
/// to the field's handle.
pub open spec fn cause_tracked(form: FormModel, status: FieldStatus, field: Entity) -> bool {
    status is Invalid ==> has_error_for(form.errors, field)
}

/// A field with optionality false and an empty value always carries cause
/// `Required(self)` in its form's error list after validation: if the field
/// was not yet invalid the cause is appended now, and if it was, the cause
/// recorded at that earlier pass still stands.
pub proof fn lemma_required_cause_present(
    form: FormModel,
    status: FieldStatus,
    field: Entity,
    value: Seq<char>,
)
    requires
        form.wf(),
        cause_tracked(form, status, field),
        value.len() == 0,
    ensures
        next_status(status, value, false, field) is Invalid,
        has_error_for(reconciled_form(form, status, value, false, field).errors, field),
        reconciled_form(form, status, value, false, field).validity is Invalid,
        cause_tracked(
            reconciled_form(form, status, value, false, field),
            next_status(status, value, false, field),
            field,
        ),
{
    let form2 = reconciled_form(form, status, value, false, field);
    if status is Invalid {
        assert(form.errors.len() > 0);
    } else {
        let cause = FormValidationError::Required(field);
        assert(form2.errors == form.errors.push(cause));
        assert(form2.errors[form.errors.len() as int] == cause);
        assert(error_entity(form2.errors[form.errors.len() as int]) == field);
    }
}

/// Setting any non-empty value on a field removes exactly that field's
/// causes from the form's error list — no cause scoped to it remains, every
/// remaining cause already stood in the list — and if its cause was the
/// only one, the form flips to valid.
pub proof fn lemma_nonempty_clears_cause(
    form: FormModel,
    status: FieldStatus,
    field: Entity,
    value: Seq<char>,
    optional: bool,
)
    requires
        form.wf(),
        value.len() > 0,
        !(status is Valid),
    ensures
        next_status(status, value, optional, field) is Valid,
        !has_error_for(reconciled_form(form, status, value, optional, field).errors, field),
        forall|i: int|
            0 <= i < reconciled_form(form, status, value, optional, field).errors.len()
                ==> form.errors.contains(
                #[trigger] reconciled_form(form, status, value, optional, field).errors[i],
            ),
        (forall|i: int| 0 <= i < form.errors.len() ==> error_entity(form.errors[i]) == field)
            ==> reconciled_form(form, status, value, optional, field).errors.len() == 0,
        form.validity is Invalid && reconciled_form(
            form,
            status,
            value,
            optional,
            field,
        ).errors.len() == 0 ==> reconciled_form(form, status, value, optional, field).validity
            is Valid,
{
    let form2 = reconciled_form(form, status, value, optional, field);
    lemma_errors_without(form.errors, field);
    if form.validity is Invalid {
        if forall|i: int| 0 <= i < form.errors.len() ==> error_entity(form.errors[i]) == field {
            lemma_all_removed(form.errors, field);
        }
    } else {
        assert(form.errors.len() == 0);
        assert(form2 == form);
    }
}

/// Removing one field's causes from a list holding only that field's
/// causes empties it.
proof fn lemma_all_removed(s: Seq<FormValidationError>, field: Entity)
    requires
        forall|i: int| 0 <= i < s.len() ==> error_entity(#[trigger] s[i]) == field,
    ensures
        errors_without(s, field).len() == 0,
    decreases s.len(),
{
    if s.len() > 0 {
        assert(forall|i: int|
            0 <= i < s.drop_last().len() ==> error_entity(#[trigger] s.drop_last()[i]) == field);
        lemma_all_removed(s.drop_last(), field);
    }
}

} // verus!
