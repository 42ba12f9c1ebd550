use mote_shell::keybinds::{
    classify_chord, key_inputs, keybinds_list_json, windows_key_code, Key, KeyAction, KeyInput,
    KeybindAction, Modifiers, NamedKey,
};

fn ctrl() -> Modifiers {
    Modifiers { control: true, ..Modifiers::none() }
}

fn alt() -> Modifiers {
    Modifiers { alt: true, ..Modifiers::none() }
}

fn ctrl_shift() -> Modifiers {
    Modifiers { control: true, shift: true, ..Modifiers::none() }
}

fn char_key(c: &str) -> Key {
    Key::Character(c.into())
}

#[test]
fn enter_key_maps_to_carriage_return() {
    assert_eq!(windows_key_code(&Key::Named(NamedKey::Enter)), 0x0D);
    assert_eq!(
        windows_key_code(&Key::Character("a".into())),
        i32::from(b'A')
    );
}

#[test]
fn punctuation_does_not_collide_with_editing_vk_codes() {
    assert_eq!(windows_key_code(&Key::Character(".".into())), 0);
    assert_ne!(
        windows_key_code(&Key::Character(".".into())),
        windows_key_code(&Key::Named(NamedKey::Delete)),
        "'.' must not share VK_DELETE's code"
    );
    for p in ["/", ":", "-", "_", "~", "?", "&", "=", "%", ",", "@"] {
        assert_eq!(
            windows_key_code(&Key::Character(p.into())),
            0,
            "punctuation `{p}` must map to 0, not a colliding editing VK"
        );
    }
    assert_eq!(
        windows_key_code(&Key::Character("z".into())),
        i32::from(b'Z')
    );
    assert_eq!(
        windows_key_code(&Key::Character("5".into())),
        i32::from(b'5')
    );
}

#[test]
fn r4_ctrl_t_is_new_tab() {
    let action = classify_chord(ctrl(), &char_key("t"), 1);
    assert_eq!(action, Some(KeybindAction::NewTab));
    let action_upper = classify_chord(ctrl(), &char_key("T"), 1);
    assert_eq!(action_upper, Some(KeybindAction::NewTab));
}

#[test]
fn r4_ctrl_w_multi_tab_closes_tab() {
    let action = classify_chord(ctrl(), &char_key("w"), 3);
    assert_eq!(
        action,
        Some(KeybindAction::CloseTabOrWindow),
        "Ctrl+W with >1 tab must produce CloseTabOrWindow"
    );
}

#[test]
fn r4_ctrl_w_last_tab_closes_window() {
    let action = classify_chord(ctrl(), &char_key("w"), 1);
    assert_eq!(
        action,
        Some(KeybindAction::CloseWindow),
        "Ctrl+W with 1 tab must produce CloseWindow"
    );
}

#[test]
fn r4_ctrl_w_zero_tabs_closes_window() {
    let action = classify_chord(ctrl(), &char_key("w"), 0);
    assert_eq!(
        action,
        Some(KeybindAction::CloseWindow),
        "Ctrl+W with 0 tabs must produce CloseWindow (tab_count <= 1)"
    );
}

#[test]
fn r4_ctrl_shift_w_always_closes_window() {
    let mods = ctrl_shift();
    assert_eq!(
        classify_chord(mods, &char_key("W"), 1),
        Some(KeybindAction::CloseWindow),
        "Ctrl+Shift+W with 1 tab must close window"
    );
    assert_eq!(
        classify_chord(mods, &char_key("w"), 5),
        Some(KeybindAction::CloseWindow),
        "Ctrl+Shift+W with 5 tabs must close window"
    );
}

#[test]
fn r4_ctrl_q_is_quit() {
    let action = classify_chord(ctrl(), &char_key("q"), 1);
    assert_eq!(action, Some(KeybindAction::Quit));
}

#[test]
fn r4_ctrl_l_is_focus_omnibox() {
    let action = classify_chord(ctrl(), &char_key("l"), 1);
    assert_eq!(action, Some(KeybindAction::FocusOmnibox));
}

#[test]
fn r4_ctrl_r_is_reload() {
    let action = classify_chord(ctrl(), &char_key("r"), 1);
    assert_eq!(action, Some(KeybindAction::ReloadTab));
}

#[test]
fn r4_ctrl_bracket_open_is_go_back() {
    let action = classify_chord(ctrl(), &char_key("["), 1);
    assert_eq!(action, Some(KeybindAction::GoBack));
}

#[test]
fn r4_ctrl_bracket_close_is_go_forward() {
    let action = classify_chord(ctrl(), &char_key("]"), 1);
    assert_eq!(action, Some(KeybindAction::GoForward));
}

#[test]
fn r4_ctrl_1_through_8_map_to_1_based_index() {
    let cases: &[(&str, u8)] = &[
        ("1", 1),
        ("2", 2),
        ("3", 3),
        ("4", 4),
        ("5", 5),
        ("6", 6),
        ("7", 7),
        ("8", 8),
    ];
    for (digit, expected_idx) in cases {
        let action = classify_chord(ctrl(), &char_key(digit), 1);
        assert_eq!(
            action,
            Some(KeybindAction::SwitchWorkspaceByIndex(*expected_idx)),
            "Ctrl+{digit} must map to index {expected_idx}, got {action:?}"
        );
    }
}

#[test]
fn r4_ctrl_9_is_switch_workspace_last_not_index_9() {
    let action = classify_chord(ctrl(), &char_key("9"), 1);
    assert_eq!(
        action,
        Some(KeybindAction::SwitchWorkspaceLast),
        "Ctrl+9 must map to SwitchWorkspaceLast (Chrome convention), not index 9"
    );
    assert_ne!(
        action,
        Some(KeybindAction::SwitchWorkspaceByIndex(9)),
        "Ctrl+9 must NOT produce SwitchWorkspaceByIndex(9)"
    );
}

#[test]
fn r4_esc_dismisses_modal_without_modifiers() {
    let esc = Key::Named(NamedKey::Escape);
    assert_eq!(
        classify_chord(Modifiers::none(), &esc, 1),
        Some(KeybindAction::DismissModal),
    );
    assert_eq!(
        classify_chord(ctrl(), &esc, 1),
        Some(KeybindAction::DismissModal),
    );
}

#[test]
fn r4_ctrl_tab_cycles_tabs() {
    let tab = Key::Named(NamedKey::Tab);
    assert_eq!(
        classify_chord(ctrl(), &tab, 2),
        Some(KeybindAction::CycleTab),
    );
}

#[test]
fn r4_non_chord_keys_are_not_consumed() {
    assert_eq!(classify_chord(Modifiers::none(), &char_key("t"), 1), None);
    assert_eq!(classify_chord(alt(), &char_key("t"), 1), None);
    assert_eq!(
        classify_chord(Modifiers::none(), &Key::Named(NamedKey::Enter), 1),
        None
    );
}

#[test]
fn p6_keybinds_list_op_returns_expected_json_shape() {
    let json_str = keybinds_list_json();
    let json: serde_json::Value =
        serde_json::from_str(&json_str).expect("keybinds_list_json must return valid JSON");

    let keybinds = json
        .get("keybinds")
        .and_then(|v| v.as_array())
        .expect("response must have a `keybinds` array");

    assert!(
        !keybinds.is_empty(),
        "keybinds array must be non-empty (v0.1 chord table)"
    );

    for (i, entry) in keybinds.iter().enumerate() {
        for field in ["action", "chord", "scope", "source"] {
            assert!(
                entry.get(field).and_then(|v| v.as_str()).is_some(),
                "keybinds[{i}] must have a string `{field}` field"
            );
        }
    }

    let valid_scopes = ["global", "chrome", "content", "captured-modal"];
    for (i, entry) in keybinds.iter().enumerate() {
        let scope = entry["scope"].as_str().unwrap();
        assert!(
            valid_scopes.contains(&scope),
            "keybinds[{i}] scope `{scope}` must be one of {valid_scopes:?}"
        );
    }

    for (i, entry) in keybinds.iter().enumerate() {
        assert_eq!(
            entry["source"].as_str().unwrap(),
            "built-in",
            "keybinds[{i}] source must be `built-in` in v0.1"
        );
    }
}

#[test]
fn p6_keybinds_list_includes_v01_chords() {
    let json_str = keybinds_list_json();
    let json: serde_json::Value =
        serde_json::from_str(&json_str).expect("keybinds_list_json must be valid JSON");
    let keybinds = json["keybinds"].as_array().unwrap();

    let actions: Vec<&str> = keybinds
        .iter()
        .filter_map(|e| e["action"].as_str())
        .collect();
    let chords: Vec<&str> = keybinds
        .iter()
        .filter_map(|e| e["chord"].as_str())
        .collect();

    assert!(chords.contains(&"Ctrl+T"), "must include Ctrl+T (new tab)");
    assert!(
        chords.contains(&"Ctrl+W"),
        "must include Ctrl+W (close tab)"
    );
    assert!(chords.contains(&"Esc"), "must include Esc (dismiss modal)");
    assert!(
        actions.iter().any(|a| a.contains("new tab")),
        "must include new tab action"
    );
}

#[test]
fn p5_ctrl_f_is_find_in_page() {
    assert_eq!(
        classify_chord(ctrl(), &char_key("f"), 1),
        Some(KeybindAction::FindInPage)
    );
    assert_eq!(
        classify_chord(ctrl(), &char_key("F"), 1),
        Some(KeybindAction::FindInPage)
    );
}

#[test]
fn p5_ctrl_g_is_find_next() {
    assert_eq!(
        classify_chord(ctrl(), &char_key("g"), 1),
        Some(KeybindAction::FindNext)
    );
}

#[test]
fn p5_ctrl_shift_g_is_find_prev() {
    let mods = ctrl_shift();
    assert_eq!(
        classify_chord(mods, &char_key("G"), 1),
        Some(KeybindAction::FindPrev)
    );
    assert_eq!(
        classify_chord(mods, &char_key("g"), 1),
        Some(KeybindAction::FindPrev)
    );
}

#[test]
fn p5_ctrl_equals_is_zoom_in() {
    assert_eq!(
        classify_chord(ctrl(), &char_key("="), 1),
        Some(KeybindAction::ZoomIn)
    );
}

#[test]
fn p5_ctrl_minus_is_zoom_out() {
    assert_eq!(
        classify_chord(ctrl(), &char_key("-"), 1),
        Some(KeybindAction::ZoomOut)
    );
}

#[test]
fn p5_ctrl_0_is_zoom_reset() {
    assert_eq!(
        classify_chord(ctrl(), &char_key("0"), 1),
        Some(KeybindAction::ZoomReset)
    );
}

#[test]
fn p5_ctrl_shift_t_is_reopen_closed_tab() {
    let mods = ctrl_shift();
    assert_eq!(
        classify_chord(mods, &char_key("T"), 1),
        Some(KeybindAction::ReopenClosedTab)
    );
    assert_eq!(
        classify_chord(mods, &char_key("t"), 1),
        Some(KeybindAction::ReopenClosedTab)
    );
}

#[test]
fn capital_w_needs_shift() {
    assert_eq!(classify_chord(ctrl(), &char_key("W"), 3), None);
    assert_eq!(classify_chord(ctrl_shift(), &char_key("W"), 3), Some(KeybindAction::CloseWindow));
    assert_eq!(classify_chord(ctrl(), &char_key("tt"), 3), None);
    assert_eq!(classify_chord(ctrl(), &char_key(""), 3), None);
    assert_eq!(classify_chord(ctrl(), &Key::Other, 3), None);
    assert_eq!(classify_chord(ctrl_shift(), &char_key("I"), 1), Some(KeybindAction::ToggleIntegrity));
    assert_eq!(classify_chord(ctrl_shift(), &char_key("+"), 1), Some(KeybindAction::ZoomIn));
    assert_eq!(classify_chord(ctrl_shift(), &Key::Named(NamedKey::Tab), 2), None);
}

#[test]
fn the_picker_opens_with_either_modifier() {
    let space = Key::Named(NamedKey::Space);
    let command = Modifiers { command: true, ..Modifiers::none() };
    assert_eq!(classify_chord(ctrl(), &space, 1), Some(KeybindAction::OpenPicker));
    assert_eq!(classify_chord(command, &space, 1), Some(KeybindAction::OpenPicker));
    assert_eq!(classify_chord(alt(), &space, 1), None);
}

#[test]
fn named_keys_have_their_codes() {
    let codes = [
        (NamedKey::Backspace, 0x08),
        (NamedKey::Tab, 0x09),
        (NamedKey::Escape, 0x1B),
        (NamedKey::Space, 0x20),
        (NamedKey::End, 0x23),
        (NamedKey::Home, 0x24),
        (NamedKey::ArrowLeft, 0x25),
        (NamedKey::ArrowUp, 0x26),
        (NamedKey::ArrowRight, 0x27),
        (NamedKey::ArrowDown, 0x28),
        (NamedKey::Delete, 0x2E),
    ];
    for (key, code) in codes {
        assert_eq!(windows_key_code(&Key::Named(key)), code);
    }
    assert_eq!(windows_key_code(&Key::Other), 0);
    assert_eq!(windows_key_code(&char_key("")), 0);
    assert_eq!(windows_key_code(&char_key("\u{e9}")), 0);
}

#[test]
fn typed_text_follows_the_key_in_utf16() {
    let text = "a\u{1f600}";
    let inputs = key_inputs(true, &char_key("a"), &Some(text.to_owned()));
    assert_eq!(
        inputs[0],
        KeyInput { action: KeyAction::Down, windows_key_code: 0x41, character: 0 }
    );
    let units: Vec<u16> = inputs[1..].iter().map(|i| i.character).collect();
    assert_eq!(units, text.encode_utf16().collect::<Vec<u16>>());
    assert!(inputs[1..].iter().all(|i| i.action == KeyAction::Char && i.windows_key_code == 0x41));
    let released = key_inputs(false, &char_key("a"), &Some(text.to_owned()));
    assert_eq!(released.len(), 1);
    assert_eq!(released[0].action, KeyAction::Up);
    assert_eq!(key_inputs(true, &Key::Other, &None).len(), 1);
}
