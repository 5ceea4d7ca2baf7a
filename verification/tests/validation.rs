use ui_forms::entity::Entity;
use ui_forms::form::{Form, FormValidationError, FormValidity};
use ui_forms::form_element::{revalidate, Field, FieldStatus};
use ui_forms::text_input::TextInput;
use ui_forms::form::{FormEvent, GenericFormEvent};

fn bare_field(value: &str, optional: bool, parent: Entity) -> Field {
    let mut input = TextInput::new(None, true);
    for c in value.chars() {
        input.insert_char(c);
    }
    Field {
        input,
        parent,
        optional,
        order: None,
        active: false,
        touched: false,
        dirty: false,
        status: FieldStatus::Unchecked,
        placeholder: String::new(),
    }
}

#[test]
fn empty_required_field_gets_required_cause() {
    // non-optional empty field: the form's error list becomes exactly
    // [Required(field)]
    let mut form = Form::new();
    let fe = Entity(7);
    let mut field = bare_field("", false, Entity(0));
    revalidate(&mut field, &mut form, fe);
    assert!(matches!(field.status, FieldStatus::Invalid(FormValidationError::Required(e)) if e == fe));
    assert_eq!(form.errors.len(), 1);
    assert!(matches!(form.errors[0], FormValidationError::Required(e) if e == fe));
    assert_eq!(form.validity, FormValidity::Invalid);
}

#[test]
fn typing_removes_exactly_that_cause_and_flips_valid() {
    // typing "x" into the only invalid field empties the list and flips
    // the form to valid
    let mut form = Form::new();
    let fe = Entity(7);
    let mut field = bare_field("", false, Entity(0));
    revalidate(&mut field, &mut form, fe);
    field.input.insert_char('x');
    revalidate(&mut field, &mut form, fe);
    assert!(matches!(field.status, FieldStatus::Valid));
    assert_eq!(form.errors.len(), 0);
    assert_eq!(form.validity, FormValidity::Valid);
}

#[test]
fn other_fields_causes_are_kept() {
    let mut form = Form::new();
    let fa = Entity(1);
    let fb = Entity(2);
    let mut field_a = bare_field("", false, Entity(0));
    let mut field_b = bare_field("", false, Entity(0));
    revalidate(&mut field_a, &mut form, fa);
    revalidate(&mut field_b, &mut form, fb);
    assert_eq!(form.errors.len(), 2);
    field_b.input.insert_char('y');
    revalidate(&mut field_b, &mut form, fb);
    assert_eq!(form.errors.len(), 1);
    assert!(matches!(form.errors[0], FormValidationError::Required(e) if e == fa));
    assert_eq!(form.validity, FormValidity::Invalid);
}

#[test]
fn revalidation_is_edge_triggered() {
    // validating an already-invalid field again must not append a
    // duplicate cause
    let mut form = Form::new();
    let fe = Entity(3);
    let mut field = bare_field("", false, Entity(0));
    revalidate(&mut field, &mut form, fe);
    revalidate(&mut field, &mut form, fe);
    revalidate(&mut field, &mut form, fe);
    assert_eq!(form.errors.len(), 1);
}

#[test]
fn optional_empty_field_is_valid() {
    let mut form = Form::new();
    let fe = Entity(4);
    let mut field = bare_field("", true, Entity(0));
    revalidate(&mut field, &mut form, fe);
    assert!(matches!(field.status, FieldStatus::Valid));
    assert_eq!(form.errors.len(), 0);
    // the form was never invalid, so it stays unmarked rather than
    // asserting validity on its own
    assert_eq!(form.validity, FormValidity::Unmarked);
}

#[test]
fn removal_matches_by_handle_regardless_of_variant() {
    let mut form = Form::new();
    let fe = Entity(9);
    form.note_invalid(FormValidationError::Custom(fe, String::from("bad")));
    form.note_invalid(FormValidationError::Invalid(fe));
    form.note_invalid(FormValidationError::Required(Entity(8)));
    form.note_valid(fe);
    assert_eq!(form.errors.len(), 1);
    assert!(matches!(form.errors[0], FormValidationError::Required(e) if e == Entity(8)));
    assert_eq!(form.validity, FormValidity::Invalid);
}

#[test]
fn note_valid_on_untracked_form_is_a_noop() {
    let mut form = Form::new();
    form.note_valid(Entity(1));
    assert_eq!(form.validity, FormValidity::Unmarked);
    assert_eq!(form.errors.len(), 0);
}

#[test]
fn form_keyboard_enter_submits_only_when_not_invalid() {
    let form_e = Entity(5);
    let mut form = Form::new();
    form.mark_valid();
    let ev = form.keyboard_event(form_e, true, false);
    assert!(
        matches!(ev, Some(GenericFormEvent { form: FormEvent::Submit(e) }) if e == form_e)
    );
    form.note_invalid(FormValidationError::Required(Entity(1)));
    let ev2 = form.keyboard_event(form_e, true, false);
    assert!(ev2.is_none());
}

#[test]
fn form_keyboard_escape_cancels_unconditionally() {
    let form_e = Entity(5);
    let mut form = Form::new();
    form.note_invalid(FormValidationError::Required(Entity(1)));
    let ev = form.keyboard_event(form_e, false, true);
    assert!(
        matches!(ev, Some(GenericFormEvent { form: FormEvent::Cancel(e) }) if e == form_e)
    );
    // Enter takes precedence over Escape when the form is not invalid
    let mut valid = Form::new();
    valid.mark_valid();
    let ev2 = valid.keyboard_event(form_e, true, true);
    assert!(matches!(ev2, Some(GenericFormEvent { form: FormEvent::Submit(_) })));
}
