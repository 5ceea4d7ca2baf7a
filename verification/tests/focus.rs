use ui_forms::entity::Entity;
use ui_forms::form::Form;
use ui_forms::form_element::{Field, FieldStatus};
use ui_forms::text_input::TextInput;
use ui_forms::world::{Slot, World};
use ui_forms::form::FormValidity;
use ui_forms::text_input::Key;

fn plain_field(order: Option<usize>) -> Field {
    Field {
        input: TextInput::new(None, true),
        parent: Entity(0),
        optional: true,
        order,
        active: false,
        touched: false,
        dirty: false,
        status: FieldStatus::Unchecked,
        placeholder: String::new(),
    }
}

fn world_with_orders(orders: &[Option<usize>]) -> (World, Vec<Entity>, Entity) {
    let mut w = World::new();
    let mut fields = Vec::new();
    for o in orders {
        fields.push(w.spawn(Slot::Field(plain_field(*o))));
    }
    let mut form = Form::new();
    form.fields = fields.clone();
    let form_e = w.spawn(Slot::Form(form));
    (w, fields, form_e)
}

fn active_count(w: &World) -> usize {
    let mut n = 0;
    for s in &w.slots {
        if let Slot::Field(f) = s {
            if f.active {
                n += 1;
            }
        }
    }
    n
}

#[test]
fn pointer_press_transfers_focus_exclusively() {
    let (mut w, fields, _) = world_with_orders(&[Some(0), Some(1)]);
    w.set_focus(Some(fields[0]));
    assert_eq!(w.focus, Some(fields[0]));
    assert!(w.field_ref(fields[0]).active);
    assert!(w.field_ref(fields[0]).touched);
    assert!(!w.field_ref(fields[1]).active);
    w.set_focus(Some(fields[1]));
    assert_eq!(w.focus, Some(fields[1]));
    assert!(!w.field_ref(fields[0]).active);
    assert!(w.field_ref(fields[1]).active);
    assert_eq!(active_count(&w), 1);
}

#[test]
fn press_outside_all_fields_clears_focus() {
    let (mut w, fields, _) = world_with_orders(&[Some(0)]);
    w.set_focus(Some(fields[0]));
    w.set_focus(None);
    assert_eq!(w.focus, None);
    assert!(!w.field_ref(fields[0]).active);
    // touched stays once set
    assert!(w.field_ref(fields[0]).touched);
}

#[test]
fn at_most_one_field_focused_over_arbitrary_sequence() {
    let (mut w, fields, form_e) = world_with_orders(&[Some(0), Some(2), Some(1)]);
    assert!(active_count(&w) <= 1);
    let moves: Vec<Option<Entity>> =
        vec![Some(fields[0]), Some(fields[2]), None, Some(fields[1]), Some(fields[1])];
    for m in moves {
        w.set_focus(m);
        assert!(active_count(&w) <= 1);
        w.tab_navigate(form_e);
        assert!(active_count(&w) <= 1);
    }
}

#[test]
fn tab_visits_declared_orders_ascending_with_wraparound() {
    // declared orders [0, 2, 1] in creation order: starting from the
    // order-0 field, tab visits order 0, 1, 2, 0, 1, 2, ...
    let (mut w, fields, form_e) = world_with_orders(&[Some(0), Some(2), Some(1)]);
    let by_order_0 = fields[0];
    let by_order_1 = fields[2];
    let by_order_2 = fields[1];
    w.set_focus(Some(by_order_0));
    w.tab_navigate(form_e);
    assert_eq!(w.focus, Some(by_order_1));
    w.tab_navigate(form_e);
    assert_eq!(w.focus, Some(by_order_2));
    w.tab_navigate(form_e);
    assert_eq!(w.focus, Some(by_order_0));
    w.tab_navigate(form_e);
    assert_eq!(w.focus, Some(by_order_1));
    w.tab_navigate(form_e);
    assert_eq!(w.focus, Some(by_order_2));
}

#[test]
fn tab_with_no_focus_starts_from_order_zero() {
    let (mut w, fields, form_e) = world_with_orders(&[Some(0), Some(2), Some(1)]);
    // no field focused: the current order defaults to zero, so tab picks
    // the smallest order strictly above it
    w.tab_navigate(form_e);
    assert_eq!(w.focus, Some(fields[2]));
}

#[test]
fn fields_without_declared_order_do_not_participate() {
    let (mut w, fields, form_e) = world_with_orders(&[None, Some(3), None]);
    w.tab_navigate(form_e);
    assert_eq!(w.focus, Some(fields[1]));
    w.tab_navigate(form_e);
    assert_eq!(w.focus, Some(fields[1]));
}

#[test]
fn tab_does_nothing_without_ordered_children() {
    let (mut w, _, form_e) = world_with_orders(&[None, None]);
    w.tab_navigate(form_e);
    assert_eq!(w.focus, None);
}

#[test]
fn focus_gain_marks_touched_permanently() {
    let (mut w, fields, _) = world_with_orders(&[Some(0), Some(1)]);
    w.set_focus(Some(fields[0]));
    w.set_focus(Some(fields[1]));
    w.set_focus(None);
    assert!(w.field_ref(fields[0]).touched);
    assert!(w.field_ref(fields[1]).touched);
}

#[test]
fn despawn_form_cascades_and_clears_focus() {
    let (mut w, fields, form_e) = world_with_orders(&[Some(0), Some(1)]);
    w.set_focus(Some(fields[0]));
    w.despawn_form(form_e);
    assert_eq!(w.focus, None);
    assert!(matches!(w.slots[fields[0].0], Slot::Empty));
    assert!(matches!(w.slots[fields[1].0], Slot::Empty));
    assert!(matches!(w.slots[form_e.0], Slot::Empty));
}

#[test]
fn route_keys_edits_only_the_focused_field() {
    let (mut w, fields, _) = world_with_orders(&[Some(0), Some(1)]);
    w.set_focus(Some(fields[0]));
    let keys = vec![Key::Character('h'), Key::Character('i')];
    let submits = w.route_keys(&keys, false);
    assert!(submits.is_empty());
    assert_eq!(w.field_ref(fields[0]).input.value, vec!['h', 'i']);
    assert!(w.field_ref(fields[0]).dirty);
    assert_eq!(w.field_ref(fields[1]).input.value, Vec::<char>::new());
    assert!(!w.field_ref(fields[1]).dirty);
}

#[test]
fn route_keys_without_focus_drops_the_batch() {
    let (mut w, fields, _) = world_with_orders(&[Some(0)]);
    let submits = w.route_keys(&vec![Key::Character('x')], false);
    assert!(submits.is_empty());
    assert_eq!(w.field_ref(fields[0]).input.value, Vec::<char>::new());
}

#[test]
fn route_keys_reports_submit_under_field_handle() {
    let (mut w, fields, _) = world_with_orders(&[Some(0)]);
    w.set_focus(Some(fields[0]));
    let keys = vec![Key::Character('a'), Key::Enter];
    let submits = w.route_keys(&keys, false);
    assert_eq!(submits.len(), 1);
    assert_eq!(submits[0].entity, fields[0]);
    assert_eq!(submits[0].value, vec!['a']);
}

#[test]
fn route_paste_hits_the_focused_field() {
    let (mut w, fields, _) = world_with_orders(&[Some(0), Some(1)]);
    w.set_focus(Some(fields[1]));
    let text: Vec<char> = "a\nb".chars().collect();
    w.route_paste(&text);
    assert_eq!(w.field_ref(fields[1]).input.value, vec!['a', 'b']);
    assert!(w.field_ref(fields[1]).dirty);
    assert_eq!(w.field_ref(fields[0]).input.value, Vec::<char>::new());
}

#[test]
fn blink_phase_ticks_every_field() {
    let (mut w, fields, _) = world_with_orders(&[Some(0), Some(1)]);
    w.blink_phase();
    assert!(!w.field_ref(fields[0]).input.cursor_visible);
    assert!(!w.field_ref(fields[1]).input.cursor_visible);
    w.set_focus(Some(fields[0]));
    {
        // an edit marks the focused field's timer for reset
        w.route_keys(&vec![Key::ArrowLeft], false);
    }
    w.blink_phase();
    assert!(w.field_ref(fields[0]).input.cursor_visible);
    assert!(w.field_ref(fields[1]).input.cursor_visible);
}

#[test]
fn validate_field_reconciles_parent_form() {
    let mut w = World::new();
    let mut field = plain_field(Some(0));
    field.optional = false;
    field.parent = Entity(1);
    let fe = w.spawn(Slot::Field(field));
    let mut form = Form::new();
    form.fields = vec![fe];
    let form_e = w.spawn(Slot::Form(form));
    assert_eq!(fe, Entity(0));
    assert_eq!(form_e, Entity(1));
    w.validate_field(fe);
    assert_eq!(w.form_ref(form_e).validity, FormValidity::Invalid);
    assert_eq!(w.form_ref(form_e).errors.len(), 1);
    w.set_focus(Some(fe));
    {
        w.route_keys(&vec![Key::Character('x')], false);
    }
    w.validate_field(fe);
    assert_eq!(w.form_ref(form_e).validity, FormValidity::Valid);
    assert_eq!(w.form_ref(form_e).errors.len(), 0);
}
