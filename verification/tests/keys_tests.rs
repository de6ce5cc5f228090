use sharp::keys::{key_combo_plan, mouse_button, parse_enigo_key, KeyAction, KeyName, Modifier, MouseButton};

#[test]
fn key_names_any_case() {
    assert_eq!(parse_enigo_key("Enter"), KeyName::Return);
    assert_eq!(parse_enigo_key("return"), KeyName::Return);
    assert_eq!(parse_enigo_key("ESC"), KeyName::Escape);
    assert_eq!(parse_enigo_key("PgDn"), KeyName::PageDown);
    assert_eq!(parse_enigo_key("pgdown"), KeyName::PageDown);
    assert_eq!(parse_enigo_key("del"), KeyName::Delete);
    assert_eq!(parse_enigo_key("F12"), KeyName::F12);
    assert_eq!(parse_enigo_key("f1"), KeyName::F1);
    assert_eq!(parse_enigo_key("Up"), KeyName::UpArrow);
}

#[test]
fn single_characters_and_unknown_names() {
    assert_eq!(parse_enigo_key("A"), KeyName::Unicode('a'));
    assert_eq!(parse_enigo_key("/"), KeyName::Unicode('/'));
    // A single character of two bytes is no one-byte name.
    assert_eq!(parse_enigo_key("é"), KeyName::Unicode(' '));
    assert_eq!(parse_enigo_key("foo"), KeyName::Unicode(' '));
    assert_eq!(parse_enigo_key(""), KeyName::Unicode(' '));
}

#[test]
fn combo_presses_clicks_and_releases_in_reverse() {
    assert_eq!(
        key_combo_plan("ctrl+shift+t"),
        vec![
            KeyAction::Press(Modifier::Control),
            KeyAction::Press(Modifier::Shift),
            KeyAction::Click(KeyName::Unicode('t')),
            KeyAction::Release(Modifier::Shift),
            KeyAction::Release(Modifier::Control),
        ]
    );
}

#[test]
fn combo_names_trimmed_and_lowercased() {
    assert_eq!(
        key_combo_plan(" Win + D "),
        vec![
            KeyAction::Press(Modifier::Meta),
            KeyAction::Click(KeyName::Unicode('d')),
            KeyAction::Release(Modifier::Meta),
        ]
    );
    assert_eq!(
        key_combo_plan("Alt+F4"),
        vec![
            KeyAction::Press(Modifier::Alt),
            KeyAction::Click(KeyName::F4),
            KeyAction::Release(Modifier::Alt),
        ]
    );
}

#[test]
fn combo_single_key_and_unknown_modifier() {
    assert_eq!(key_combo_plan("enter"), vec![KeyAction::Click(KeyName::Return)]);
    assert_eq!(key_combo_plan("hyper+a"), vec![KeyAction::Click(KeyName::Unicode('a'))]);
    assert_eq!(key_combo_plan(""), vec![KeyAction::Click(KeyName::Unicode(' '))]);
    assert_eq!(
        key_combo_plan("ctrl+"),
        vec![
            KeyAction::Press(Modifier::Control),
            KeyAction::Click(KeyName::Unicode(' ')),
            KeyAction::Release(Modifier::Control),
        ]
    );
}

#[test]
fn combo_releases_mirror_presses() {
    let plan = key_combo_plan("control+alt+shift+cmd+x");
    let presses: Vec<Modifier> = plan
        .iter()
        .filter_map(|a| if let KeyAction::Press(m) = a { Some(*m) } else { None })
        .collect();
    let mut releases: Vec<Modifier> = plan
        .iter()
        .filter_map(|a| if let KeyAction::Release(m) = a { Some(*m) } else { None })
        .collect();
    releases.reverse();
    assert_eq!(presses, releases);
    assert_eq!(presses.len(), 4);
}

#[test]
fn mouse_buttons() {
    assert_eq!(mouse_button("RIGHT"), MouseButton::Right);
    assert_eq!(mouse_button("middle"), MouseButton::Middle);
    assert_eq!(mouse_button("left"), MouseButton::Left);
    assert_eq!(mouse_button("other"), MouseButton::Left);
}

#[test]
fn ascii_names_ignore_case() {
    for (a, b) in [("ESC", "esc"), ("Tab", "tAB"), ("F12", "f12"), ("PageUp", "PAGEUP")] {
        assert_eq!(parse_enigo_key(a), parse_enigo_key(b));
    }
    assert_eq!(mouse_button("RIGHT"), MouseButton::Right);
    assert_eq!(mouse_button("Middle"), MouseButton::Middle);
}

#[test]
fn names_and_combinations_ignore_ascii_case() {
    for s in ["Esc", "pgDn", "F5", "x", "Backspace", "LeftArrow", "what"] {
        assert_eq!(parse_enigo_key(s), parse_enigo_key(&s.to_ascii_uppercase()));
        assert_eq!(parse_enigo_key(s), parse_enigo_key(&s.to_ascii_lowercase()));
    }
    assert_eq!(key_combo_plan("CTRL+SHIFT+T"), key_combo_plan("ctrl+shift+t"));
    assert_eq!(key_combo_plan("Alt + f4"), key_combo_plan("alt+F4"));
}
