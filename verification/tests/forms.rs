use ui_forms::builder::{action_from_id, ActionError, ActionVariantDef, FieldBinding, FieldDef,
    FormDataError, FormDef, FormFields};
use ui_forms::button::{ButtonRole, FormInteraction};
use ui_forms::entity::Entity;
use ui_forms::form::{Form, FormEvent, FormValidity, GenericFormEvent};
use ui_forms::pass::Outcome;
use ui_forms::world::{Slot, World};
use ui_forms::text_input::Key;

fn login_def() -> FormDef {
    FormDef {
        fields: vec![
            FieldDef {
                name: String::from("username"),
                placeholder: String::from("Username"),
                mask_character: None,
                default_value: vec!['u'],
                optional: false,
                active: true,
            },
            FieldDef {
                name: String::from("password"),
                placeholder: String::from("Password"),
                mask_character: Some('*'),
                default_value: vec!['p', 'w'],
                optional: false,
                active: false,
            },
        ],
        submit_text: Some(String::from("Login")),
        cancel_text: Some(String::from("Back")),
        actions: vec![ActionVariantDef {
            text: String::from("Extra"),
            role: ButtonRole::Custom(String::from("extra")),
            needs_data: true,
        }],
    }
}

#[test]
fn build_form_creates_fields_in_declared_order() {
    let mut w = World::new();
    let (form_e, ff) = w.build_form(login_def());
    let fields = w.form_ref(form_e).fields.clone();
    assert_eq!(fields.len(), 2);
    let f0 = w.field_ref(fields[0]);
    assert_eq!(f0.input.value, vec!['u']);
    assert_eq!(f0.input.cursor, 1);
    assert_eq!(f0.order, Some(0));
    assert!(f0.input.retain_on_submit);
    assert_eq!(f0.input.mask_character, None);
    assert!(!f0.optional);
    assert_eq!(f0.parent, form_e);
    let f1 = w.field_ref(fields[1]);
    assert_eq!(f1.input.value, vec!['p', 'w']);
    assert_eq!(f1.order, Some(1));
    assert_eq!(f1.input.mask_character, Some('*'));
    assert_eq!(ff.form, form_e);
    assert_eq!(ff.bindings.len(), 2);
    assert_eq!(ff.bindings[0].name, "username");
    assert_eq!(ff.bindings[0].entity, fields[0]);
    assert_eq!(ff.bindings[1].name, "password");
    assert_eq!(ff.bindings[1].entity, fields[1]);
}

#[test]
fn build_form_starts_valid_and_focuses_the_active_field() {
    let mut w = World::new();
    let (form_e, _) = w.build_form(login_def());
    assert_eq!(w.form_ref(form_e).validity, FormValidity::Valid);
    assert_eq!(w.form_ref(form_e).errors.len(), 0);
    let fields = w.form_ref(form_e).fields.clone();
    assert_eq!(w.focus, Some(fields[0]));
    assert!(w.field_ref(fields[0]).active);
    assert!(w.field_ref(fields[0]).touched);
    assert!(!w.field_ref(fields[1]).active);
}

#[test]
fn build_form_spawns_cancel_submit_then_action_buttons() {
    let mut w = World::new();
    let (form_e, _) = w.build_form(login_def());
    let buttons = w.form_ref(form_e).buttons.clone();
    assert_eq!(buttons.len(), 3);
    let cancel = w.button_ref(buttons[0]);
    assert_eq!(cancel.button.text, "Back");
    assert_eq!(cancel.button.form, Some(form_e));
    assert!(matches!(cancel.role, ButtonRole::Cancel));
    assert_eq!(cancel.interaction, FormInteraction::Idle);
    assert!(cancel.action_id.is_none());
    let submit = w.button_ref(buttons[1]);
    assert_eq!(submit.button.text, "Login");
    assert!(matches!(submit.role, ButtonRole::Submit));
    let extra = w.button_ref(buttons[2]);
    assert_eq!(extra.button.text, "Extra");
    assert!(matches!(&extra.role, ButtonRole::Custom(n) if n == "extra"));
    assert_eq!(extra.action_id.map(|id| id.0), Some(0));
}

#[test]
fn gather_form_data_reads_values_by_name() {
    let mut w = World::new();
    let (_, ff) = w.build_form(login_def());
    let data = w.gather_form_data(&ff).unwrap();
    assert_eq!(data.len(), 2);
    assert_eq!(data[0].name, "username");
    assert_eq!(data[0].value, Some(vec!['u']));
    assert_eq!(data[1].name, "password");
    assert_eq!(data[1].value, Some(vec!['p', 'w']));
}

#[test]
fn gather_form_data_requires_a_valid_form() {
    let mut w = World::new();
    let (form_e, ff) = w.build_form(login_def());
    let fields = w.form_ref(form_e).fields.clone();
    // empty the non-optional username and revalidate: the form flips to
    // invalid and data can no longer be gathered
    w.set_focus(Some(fields[0]));
    {
        w.route_keys(&vec![Key::Backspace], false);
    }
    w.validate_field(fields[0]);
    assert_eq!(w.form_ref(form_e).validity, FormValidity::Invalid);
    assert!(matches!(w.gather_form_data(&ff), Err(FormDataError::FormNotValid)));
}

#[test]
fn gather_form_data_flags_a_missing_required_field() {
    let mut w = World::new();
    let mut form = Form::new();
    form.mark_valid();
    let form_e = w.spawn(Slot::Form(form));
    let ff = FormFields {
        form: form_e,
        bindings: vec![FieldBinding {
            name: String::from("ghostly"),
            entity: Entity(99),
            optional: false,
        }],
    };
    assert!(matches!(w.gather_form_data(&ff), Err(FormDataError::MissingField)));
}

#[test]
fn gather_form_data_skips_missing_optional_fields() {
    let mut w = World::new();
    let mut form = Form::new();
    form.mark_valid();
    let form_e = w.spawn(Slot::Form(form));
    let ff = FormFields {
        form: form_e,
        bindings: vec![FieldBinding {
            name: String::from("note"),
            entity: Entity(99),
            optional: true,
        }],
    };
    let data = w.gather_form_data(&ff).unwrap();
    assert_eq!(data.len(), 1);
    assert_eq!(data[0].value, None);
}

#[test]
fn action_from_id_validates_id_and_data() {
    let defs = vec![
        ActionVariantDef {
            text: String::from("Go"),
            role: ButtonRole::Submit,
            needs_data: true,
        },
        ActionVariantDef {
            text: String::from("Stop"),
            role: ButtonRole::Cancel,
            needs_data: false,
        },
    ];
    assert!(matches!(action_from_id(&defs, 5, None), Err(ActionError::UnknownId)));
    assert!(matches!(action_from_id(&defs, 0, None), Err(ActionError::MissingData)));
    let ok = action_from_id(&defs, 1, None).unwrap();
    assert_eq!(ok.id, 1);
    assert!(ok.data.is_none());
    let ok2 = action_from_id(&defs, 0, Some(Vec::new())).unwrap();
    assert_eq!(ok2.id, 0);
    assert!(ok2.data.is_some());
}

#[test]
fn observe_button_fires_only_on_transition_into_pressed() {
    let mut w = World::new();
    let (form_e, _) = w.build_form(login_def());
    let btn = w.form_ref(form_e).buttons.clone()[1];
    assert!(w.observe_button(btn, FormInteraction::Hovered).is_none());
    let ev = w.observe_button(btn, FormInteraction::Pressed).unwrap();
    assert_eq!(ev.entity, btn);
    assert_eq!(ev.button.form, Some(form_e));
    assert!(matches!(ev.role, ButtonRole::Submit));
    // held down: no repeat event without a change
    assert!(w.observe_button(btn, FormInteraction::Pressed).is_none());
    assert!(w.observe_button(btn, FormInteraction::Idle).is_none());
    assert!(w.observe_button(btn, FormInteraction::Pressed).is_some());
}

#[test]
fn submit_button_emits_data_when_valid() {
    let mut w = World::new();
    let (form_e, ff) = w.build_form(login_def());
    let btn = w.form_ref(form_e).buttons.clone()[1];
    let ev = w.observe_button(btn, FormInteraction::Pressed).unwrap();
    let defs = Vec::new();
    match w.handle_button_press(&ff, &defs, &ev) {
        Outcome::Event(FormEvent::Submit(data)) => {
            assert_eq!(data[0].value, Some(vec!['u']));
            assert_eq!(data[1].value, Some(vec!['p', 'w']));
        },
        other => panic!("expected a submit event, got {:?}", other),
    }
}

#[test]
fn submit_button_is_ignored_while_invalid() {
    let mut w = World::new();
    let (form_e, ff) = w.build_form(login_def());
    let fields = w.form_ref(form_e).fields.clone();
    w.set_focus(Some(fields[0]));
    {
        w.route_keys(&vec![Key::Backspace], false);
    }
    w.validate_field(fields[0]);
    let btn = w.form_ref(form_e).buttons.clone()[1];
    let ev = w.observe_button(btn, FormInteraction::Pressed).unwrap();
    let defs = Vec::new();
    assert!(matches!(w.handle_button_press(&ff, &defs, &ev), Outcome::Ignored));
}

#[test]
fn cancel_button_emits_cancel_immediately() {
    let mut w = World::new();
    let (form_e, ff) = w.build_form(login_def());
    let btn = w.form_ref(form_e).buttons.clone()[0];
    let ev = w.observe_button(btn, FormInteraction::Pressed).unwrap();
    let defs = Vec::new();
    assert!(matches!(
        w.handle_button_press(&ff, &defs, &ev),
        Outcome::Event(FormEvent::Cancel(f)) if f == form_e
    ));
}

#[test]
fn custom_action_button_resolves_with_data() {
    let mut w = World::new();
    let def = login_def();
    let defs = vec![ActionVariantDef {
        text: String::from("Extra"),
        role: ButtonRole::Custom(String::from("extra")),
        needs_data: true,
    }];
    let (form_e, ff) = w.build_form(def);
    let btn = w.form_ref(form_e).buttons.clone()[2];
    let ev = w.observe_button(btn, FormInteraction::Pressed).unwrap();
    match w.handle_button_press(&ff, &defs, &ev) {
        Outcome::Action(inv) => {
            assert_eq!(inv.id, 0);
            let data = inv.data.unwrap();
            assert_eq!(data[0].name, "username");
        },
        other => panic!("expected an action, got {:?}", other),
    }
}

#[test]
fn presses_for_other_forms_are_ignored() {
    let mut w = World::new();
    let (_, ff) = w.build_form(login_def());
    let (other_form, _) = w.build_form(login_def());
    let btn = w.form_ref(other_form).buttons.clone()[1];
    let ev = w.observe_button(btn, FormInteraction::Pressed).unwrap();
    let defs = Vec::new();
    assert!(matches!(w.handle_button_press(&ff, &defs, &ev), Outcome::Ignored));
}

#[test]
fn generic_submit_event_rederives_field_data() {
    let mut w = World::new();
    let (form_e, ff) = w.build_form(login_def());
    let ev = GenericFormEvent { form: FormEvent::Submit(form_e) };
    match w.handle_form_event(&ff, &ev) {
        Outcome::Event(FormEvent::Submit(data)) => {
            assert_eq!(data.len(), 2);
            assert_eq!(data[0].value, Some(vec!['u']));
        },
        other => panic!("expected a submit event, got {:?}", other),
    }
}

#[test]
fn generic_cancel_event_passes_through() {
    let mut w = World::new();
    let (form_e, ff) = w.build_form(login_def());
    let ev = GenericFormEvent { form: FormEvent::Cancel(form_e) };
    assert!(matches!(
        w.handle_form_event(&ff, &ev),
        Outcome::Event(FormEvent::Cancel(f)) if f == form_e
    ));
}

#[test]
fn full_login_flow_types_then_submits() {
    let mut w = World::new();
    let mut def = login_def();
    def.fields[0].default_value = Vec::new();
    def.fields[1].default_value = Vec::new();
    let (form_e, ff) = w.build_form(def);
    let fields = w.form_ref(form_e).fields.clone();
    // the active username field receives typed input
    let keys: Vec<Key> = "alice".chars().map(Key::Character).collect();
    w.route_keys(&keys, false);
    w.validate_field(fields[0]);
    // tab to the password field and type there
    w.tab_navigate(form_e);
    assert_eq!(w.focus, Some(fields[1]));
    let keys: Vec<Key> = "s3cret".chars().map(Key::Character).collect();
    w.route_keys(&keys, false);
    w.validate_field(fields[1]);
    assert_eq!(w.form_ref(form_e).validity, FormValidity::Valid);
    // Enter released on the valid form submits it
    let ev = w.form_keyboard(form_e, true, false).unwrap();
    match w.handle_form_event(&ff, &ev) {
        Outcome::Event(FormEvent::Submit(data)) => {
            assert_eq!(data[0].value, Some("alice".chars().collect()));
            assert_eq!(data[1].value, Some("s3cret".chars().collect()));
        },
        other => panic!("expected a submit event, got {:?}", other),
    }
}
