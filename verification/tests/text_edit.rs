use ui_forms::text_input::{Key, TextInput, CURSOR_GLYPH_BAR, CURSOR_GLYPH_END};

fn input_with(value: &str, cursor: usize) -> TextInput {
    let mut t = TextInput::new(None, true);
    for c in value.chars() {
        t.insert_char(c);
    }
    while t.cursor > cursor {
        t.arrow_left();
    }
    t
}

#[test]
fn insert_advances_cursor() {
    let mut t = TextInput::new(None, true);
    t.insert_char('a');
    t.insert_char('b');
    assert_eq!(t.value, vec!['a', 'b']);
    assert_eq!(t.cursor, 2);
    assert!(t.blink_reset);
}

#[test]
fn insert_mid_field_uses_character_index() {
    let mut t = input_with("ab", 1);
    t.insert_char('x');
    assert_eq!(t.value, vec!['a', 'x', 'b']);
    assert_eq!(t.cursor, 2);
}

#[test]
fn backspace_then_arrow_then_delete_scenario() {
    // value "abc", cursor 3: Backspace gives "ab", cursor 2; ArrowLeft
    // gives cursor 1; Delete removes forward of the cursor, giving "a".
    let mut t = input_with("abc", 3);
    t.backspace();
    assert_eq!(t.value, vec!['a', 'b']);
    assert_eq!(t.cursor, 2);
    t.arrow_left();
    assert_eq!(t.cursor, 1);
    assert_eq!(t.value, vec!['a', 'b']);
    t.delete();
    assert_eq!(t.value, vec!['a']);
    assert_eq!(t.cursor, 1);
}

#[test]
fn arrows_clamp_at_boundaries() {
    let mut t = input_with("ab", 0);
    t.arrow_left();
    assert_eq!(t.cursor, 0);
    t.arrow_right();
    t.arrow_right();
    assert_eq!(t.cursor, 2);
    t.arrow_right();
    assert_eq!(t.cursor, 2);
}

#[test]
fn backspace_at_start_and_delete_at_end_are_noops() {
    let mut t = input_with("ab", 0);
    t.backspace();
    assert_eq!(t.value, vec!['a', 'b']);
    assert_eq!(t.cursor, 0);
    let mut t2 = input_with("ab", 2);
    t2.delete();
    assert_eq!(t2.value, vec!['a', 'b']);
    assert_eq!(t2.cursor, 2);
}

#[test]
fn insert_then_backspace_restores_value_and_cursor() {
    let mut t = input_with("hello", 2);
    let before_value = t.value.clone();
    let before_cursor = t.cursor;
    t.insert_char('z');
    t.backspace();
    assert_eq!(t.value, before_value);
    assert_eq!(t.cursor, before_cursor);
}

#[test]
fn cursor_stays_in_bounds_over_arbitrary_keys() {
    let mut t = TextInput::new(None, true);
    let keys = [
        Key::Character('a'),
        Key::ArrowLeft,
        Key::Character('b'),
        Key::Backspace,
        Key::ArrowRight,
        Key::Delete,
        Key::Character('c'),
        Key::ArrowLeft,
        Key::ArrowLeft,
        Key::Backspace,
        Key::Character('d'),
    ];
    for k in keys {
        t.apply_key(k);
        assert!(t.cursor <= t.value.len());
    }
}

#[test]
fn enter_without_retention_submits_then_clears() {
    // retain-on-submit false, value "hello": Enter submits "hello", the
    // field empties and the cursor returns to the start.
    let mut t = TextInput::new(None, false);
    for c in "hello".chars() {
        t.insert_char(c);
    }
    let submitted = t.apply_key(Key::Enter);
    assert_eq!(submitted, Some("hello".chars().collect()));
    assert_eq!(t.value, Vec::<char>::new());
    assert_eq!(t.cursor, 0);
}

#[test]
fn enter_with_retention_keeps_value() {
    let mut t = TextInput::new(None, true);
    for c in "keep".chars() {
        t.insert_char(c);
    }
    let submitted = t.apply_key(Key::Enter);
    assert_eq!(submitted, Some("keep".chars().collect()));
    assert_eq!(t.value, "keep".chars().collect::<Vec<char>>());
    assert_eq!(t.cursor, 4);
}

#[test]
fn control_held_skips_whole_batch() {
    let mut t = input_with("ab", 2);
    let keys = vec![Key::Character('x'), Key::Backspace, Key::Enter];
    let submits = t.process_keys(&keys, true);
    assert!(submits.is_empty());
    assert_eq!(t.value, vec!['a', 'b']);
    assert_eq!(t.cursor, 2);
}

#[test]
fn batch_applies_in_arrival_order() {
    let mut t = TextInput::new(None, false);
    let keys = vec![
        Key::Character('h'),
        Key::Character('i'),
        Key::Enter,
        Key::Character('y'),
        Key::Enter,
    ];
    let submits = t.process_keys(&keys, false);
    assert_eq!(submits.len(), 2);
    assert_eq!(submits[0], vec!['h', 'i']);
    assert_eq!(submits[1], vec!['y']);
    assert_eq!(t.value, Vec::<char>::new());
}

#[test]
fn paste_strips_newlines_and_advances_cursor() {
    // paste "foo\nbar" mid-field: the inserted text is "foobar" and the
    // cursor advances by six.
    let mut t = input_with("xy", 1);
    let pasted: Vec<char> = "foo\nbar".chars().collect();
    let inserted = t.paste(&pasted);
    assert_eq!(inserted, 6);
    assert_eq!(t.value, "xfoobary".chars().collect::<Vec<char>>());
    assert_eq!(t.cursor, 7);
}

#[test]
fn paste_strips_carriage_returns_too() {
    let mut t = TextInput::new(None, true);
    let pasted: Vec<char> = "a\r\nb".chars().collect();
    let inserted = t.paste(&pasted);
    assert_eq!(inserted, 2);
    assert_eq!(t.value, vec!['a', 'b']);
}

#[test]
fn render_splits_at_cursor_with_bar_glyph() {
    let t = input_with("abc", 1);
    let r = t.render();
    assert_eq!(r.before, vec!['a']);
    assert_eq!(r.after, vec!['b', 'c']);
    assert_eq!(r.glyph, CURSOR_GLYPH_BAR);
}

#[test]
fn render_at_end_uses_zero_width_glyph() {
    let t = input_with("abc", 3);
    let r = t.render();
    assert_eq!(r.before, vec!['a', 'b', 'c']);
    assert_eq!(r.after, Vec::<char>::new());
    assert_eq!(r.glyph, CURSOR_GLYPH_END);
}

#[test]
fn render_masks_every_character() {
    let mut t = TextInput::new(Some('*'), true);
    for c in "pw".chars() {
        t.insert_char(c);
    }
    t.arrow_left();
    let r = t.render();
    assert_eq!(r.before, vec!['*']);
    assert_eq!(r.after, vec!['*']);
    // editing still works on the true value
    assert_eq!(t.value, vec!['p', 'w']);
}

#[test]
fn blink_toggles_and_reset_forces_visible() {
    let mut t = TextInput::new(None, true);
    assert!(t.cursor_visible);
    t.blink_tick();
    assert!(!t.cursor_visible);
    t.blink_tick();
    assert!(t.cursor_visible);
    t.blink_tick();
    assert!(!t.cursor_visible);
    t.arrow_right();
    assert!(t.blink_reset);
    t.blink_tick();
    assert!(t.cursor_visible);
    assert!(!t.blink_reset);
}

#[test]
fn external_value_write_resets_cursor_to_end() {
    let mut t = input_with("abc", 1);
    let changed = t.write_external(Some("hello".chars().collect()), None);
    assert!(changed);
    assert_eq!(t.value, "hello".chars().collect::<Vec<char>>());
    assert_eq!(t.cursor, 5);
}

#[test]
fn external_cursor_write_clamps_to_new_length() {
    let mut t = input_with("abcdef", 6);
    let changed = t.write_external(Some("ab".chars().collect()), Some(9));
    assert!(changed);
    assert_eq!(t.cursor, 2);
    let mut t2 = input_with("abcdef", 6);
    t2.write_external(Some("abcd".chars().collect()), Some(1));
    assert_eq!(t2.cursor, 1);
}

#[test]
fn external_same_value_keeps_cursor() {
    let mut t = input_with("abc", 1);
    let changed = t.write_external(Some("abc".chars().collect()), None);
    assert!(!changed);
    assert_eq!(t.cursor, 1);
}
