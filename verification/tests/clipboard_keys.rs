use ui_forms::button::ButtonRole;
use ui_forms::clipboard::{clipboard_key_action, clipboard_text, ClipboardAction};

#[test]
fn insert_key_requests_a_paste() {
    let r = clipboard_key_action(true, false, false, false, false);
    assert_eq!(r, Some(ClipboardAction::RequestPaste));
}

#[test]
fn copy_key_emits_copy() {
    let r = clipboard_key_action(false, true, false, false, false);
    assert_eq!(r, Some(ClipboardAction::Copy));
}

#[test]
fn control_chords_need_the_modifier() {
    assert_eq!(clipboard_key_action(false, false, false, true, false), None);
    assert_eq!(clipboard_key_action(false, false, false, false, true), None);
    assert_eq!(
        clipboard_key_action(false, false, true, true, false),
        Some(ClipboardAction::Copy)
    );
    assert_eq!(
        clipboard_key_action(false, false, true, false, true),
        Some(ClipboardAction::RequestPaste)
    );
    assert_eq!(clipboard_key_action(false, false, true, false, false), None);
}

#[test]
fn copy_chord_wins_over_paste_chord() {
    assert_eq!(
        clipboard_key_action(false, false, true, true, true),
        Some(ClipboardAction::Copy)
    );
}

#[test]
fn unavailable_clipboard_becomes_empty_text() {
    assert_eq!(clipboard_text(None), String::new());
    assert_eq!(clipboard_text(Some(String::from("hi"))), "hi");
}

#[test]
fn role_names_parse_to_their_roles() {
    assert!(matches!(ButtonRole::from_name("submit"), ButtonRole::Submit));
    assert!(matches!(ButtonRole::from_name("cancel"), ButtonRole::Cancel));
    assert!(matches!(ButtonRole::from_name("apply"), ButtonRole::Apply));
    assert!(matches!(ButtonRole::from_name("frobnicate"), ButtonRole::Custom(n) if n == "frobnicate"));
}

#[test]
fn toolkit_build_yields_an_empty_world() {
    let w = ui_forms::BevyUiFormsPlugins.build();
    assert!(w.slots.is_empty());
    assert_eq!(w.focus, None);
}
