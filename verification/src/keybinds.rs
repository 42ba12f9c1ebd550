//! The keyboard: which chord means which action, the table of chords that the
//! settings page lists, and the key codes that pages receive.

use crate::json::{json_quoted, json_string};
use crate::text::{chars_of, join, joined, opt_text, strings};
use vstd::prelude::*;

verus! {

/// The modifier keys that are held.
#[derive(Debug, Clone, Copy, PartialEq, Eq, Structural)]
pub struct Modifiers {
    pub shift: bool,
    pub control: bool,
    pub alt: bool,
    pub command: bool,
}

impl Modifiers {
    /// No modifier key.
    pub fn none() -> (r: Modifiers)
        ensures
            r == (Modifiers { shift: false, control: false, alt: false, command: false }),
    {
        Modifiers { shift: false, control: false, alt: false, command: false }
    }
}

/// The keys that have a name here.
#[derive(Debug, Clone, Copy, PartialEq, Eq, Structural)]
pub enum NamedKey {
    Enter,
    Backspace,
    Tab,
    Escape,
    Space,
    ArrowLeft,
    ArrowUp,
    ArrowRight,
    ArrowDown,
    Delete,
    Home,
    End,
}

/// A key by what it means in the user's layout.
#[derive(Debug)]
pub enum Key {
    Named(NamedKey),
    Character(String),
    /// Any other key.
    Other,
}

/// What a chord does.
#[derive(Debug, Clone, Copy, PartialEq, Eq, Structural)]
pub enum KeybindAction {
    NewTab,
    /// Close the active tab; only where there is more than one.
    CloseTabOrWindow,
    CloseWindow,
    Quit,
    FocusOmnibox,
    ReloadTab,
    GoBack,
    GoForward,
    /// Switch to the workspace at this place, counted from one.
    SwitchWorkspaceByIndex(u8),
    SwitchWorkspaceLast,
    CycleTab,
    ToggleIntegrity,
    OpenPicker,
    DismissModal,
    FindInPage,
    FindNext,
    FindPrev,
    ZoomIn,
    ZoomOut,
    ZoomReset,
    ReopenClosedTab,
}

/// What the character `c` does with Ctrl and without Shift.
pub open spec fn ctrl_action(c: char, tab_count: nat) -> Option<KeybindAction> {
    if c == 't' || c == 'T' {
        Some(KeybindAction::NewTab)
    } else if c == 'w' {
        if tab_count <= 1 {
            Some(KeybindAction::CloseWindow)
        } else {
            Some(KeybindAction::CloseTabOrWindow)
        }
    } else if c == 'q' || c == 'Q' {
        Some(KeybindAction::Quit)
    } else if c == 'l' || c == 'L' {
        Some(KeybindAction::FocusOmnibox)
    } else if c == 'r' || c == 'R' {
        Some(KeybindAction::ReloadTab)
    } else if c == '[' {
        Some(KeybindAction::GoBack)
    } else if c == ']' {
        Some(KeybindAction::GoForward)
    } else if '1' <= c <= '8' {
        Some(KeybindAction::SwitchWorkspaceByIndex((c as u32 - 48) as u8))
    } else if c == '9' {
        Some(KeybindAction::SwitchWorkspaceLast)
    } else if c == 'f' || c == 'F' {
        Some(KeybindAction::FindInPage)
    } else if c == 'g' || c == 'G' {
        Some(KeybindAction::FindNext)
    } else if c == '=' || c == '+' {
        Some(KeybindAction::ZoomIn)
    } else if c == '-' {
        Some(KeybindAction::ZoomOut)
    } else if c == '0' {
        Some(KeybindAction::ZoomReset)
    } else {
        None
    }
}

/// What the character `c` does with Ctrl and Shift.
pub open spec fn ctrl_shift_action(c: char) -> Option<KeybindAction> {
    if c == 'i' || c == 'I' {
        Some(KeybindAction::ToggleIntegrity)
    } else if c == 'w' || c == 'W' {
        Some(KeybindAction::CloseWindow)
    } else if c == 'g' || c == 'G' {
        Some(KeybindAction::FindPrev)
    } else if c == '=' || c == '+' {
        Some(KeybindAction::ZoomIn)
    } else if c == 't' || c == 'T' {
        Some(KeybindAction::ReopenClosedTab)
    } else {
        None
    }
}

/// The action of a chord, with `tab_count` tabs open.
pub open spec fn chord_action(modifiers: Modifiers, key: Key, tab_count: nat) -> Option<
    KeybindAction,
> {
    match key {
        Key::Named(NamedKey::Escape) => Some(KeybindAction::DismissModal),
        Key::Named(NamedKey::Space) => if modifiers.control || modifiers.command {
            Some(KeybindAction::OpenPicker)
        } else {
            None
        },
        Key::Named(NamedKey::Tab) => if modifiers.control && !modifiers.shift {
            Some(KeybindAction::CycleTab)
        } else {
            None
        },
        Key::Character(s) => if !modifiers.control || s@.len() != 1 {
            None
        } else if modifiers.shift {
            ctrl_shift_action(s@[0])
        } else {
            ctrl_action(s@[0], tab_count)
        },
        _ => None,
    }
}

fn classify_ctrl(c: char, tab_count: usize) -> (r: Option<KeybindAction>)
    ensures
        r == ctrl_action(c, tab_count as nat),
{
    if c == 't' || c == 'T' {
        Some(KeybindAction::NewTab)
    } else if c == 'w' {
        if tab_count <= 1 {
            Some(KeybindAction::CloseWindow)
        } else {
            Some(KeybindAction::CloseTabOrWindow)
        }
    } else if c == 'q' || c == 'Q' {
        Some(KeybindAction::Quit)
    } else if c == 'l' || c == 'L' {
        Some(KeybindAction::FocusOmnibox)
    } else if c == 'r' || c == 'R' {
        Some(KeybindAction::ReloadTab)
    } else if c == '[' {
        Some(KeybindAction::GoBack)
    } else if c == ']' {
        Some(KeybindAction::GoForward)
    } else if '1' <= c && c <= '8' {
        Some(KeybindAction::SwitchWorkspaceByIndex((c as u32 - 48) as u8))
    } else if c == '9' {
        Some(KeybindAction::SwitchWorkspaceLast)
    } else if c == 'f' || c == 'F' {
        Some(KeybindAction::FindInPage)
    } else if c == 'g' || c == 'G' {
        Some(KeybindAction::FindNext)
    } else if c == '=' || c == '+' {
        Some(KeybindAction::ZoomIn)
    } else if c == '-' {
        Some(KeybindAction::ZoomOut)
    } else if c == '0' {
        Some(KeybindAction::ZoomReset)
    } else {
        None
    }
}

fn classify_ctrl_shift(c: char) -> (r: Option<KeybindAction>)
    ensures
        r == ctrl_shift_action(c),
{
    if c == 'i' || c == 'I' {
        Some(KeybindAction::ToggleIntegrity)
    } else if c == 'w' || c == 'W' {
        Some(KeybindAction::CloseWindow)
    } else if c == 'g' || c == 'G' {
        Some(KeybindAction::FindPrev)
    } else if c == '=' || c == '+' {
        Some(KeybindAction::ZoomIn)
    } else if c == 't' || c == 'T' {
        Some(KeybindAction::ReopenClosedTab)
    } else {
        None
    }
}

/// The action of a key press, or `None` where the key belongs to whoever has
/// the focus. Escape always dismisses; Ctrl+W closes the window where only
/// one tab is open.
pub fn classify_chord(modifiers: Modifiers, key: &Key, tab_count: usize) -> (r: Option<
    KeybindAction,
>)
    ensures
        r == chord_action(modifiers, *key, tab_count as nat),
{
    match key {
        Key::Named(NamedKey::Escape) => Some(KeybindAction::DismissModal),
        Key::Named(NamedKey::Space) => if modifiers.control || modifiers.command {
            Some(KeybindAction::OpenPicker)
        } else {
            None
        },
        Key::Named(NamedKey::Tab) => if modifiers.control && !modifiers.shift {
            Some(KeybindAction::CycleTab)
        } else {
            None
        },
        Key::Character(s) => {
            let v = chars_of(s.as_str());
            if !modifiers.control || v.len() != 1 {
                None
            } else if modifiers.shift {
                classify_ctrl_shift(v[0])
            } else {
                classify_ctrl(v[0], tab_count)
            }
        },
        _ => None,
    }
}

/// Apart from Escape, no key is a chord without Ctrl, save the space bar with
/// the command key: typing never triggers an action.
pub proof fn typing_is_no_chord(modifiers: Modifiers, key: Key, tab_count: nat)
    requires
        !modifiers.control,
        key != Key::Named(NamedKey::Escape),
        !(modifiers.command && key == Key::Named(NamedKey::Space)),
    ensures
        chord_action(modifiers, key, tab_count) is None,
{
}

/// Escape dismisses under every modifier.
pub proof fn escape_always_dismisses(modifiers: Modifiers, tab_count: nat)
    ensures
        chord_action(modifiers, Key::Named(NamedKey::Escape), tab_count) == Some(
            KeybindAction::DismissModal,
        ),
{
}

/// Only Ctrl+W looks at the number of tabs: it closes the window where one tab
/// or none is open, and the tab elsewhere.
pub proof fn only_close_depends_on_tabs(modifiers: Modifiers, key: Key, few: nat, many: nat)
    requires
        few <= 1 < many,
    ensures
        chord_action(modifiers, key, few) == chord_action(modifiers, key, many) || (chord_action(
            modifiers,
            key,
            few,
        ) == Some(KeybindAction::CloseWindow) && chord_action(modifiers, key, many) == Some(
            KeybindAction::CloseTabOrWindow,
        )),
{
}

/// A workspace chord names a place from one to eight.
pub proof fn workspace_chords_are_one_based(modifiers: Modifiers, key: Key, tab_count: nat)
    ensures
        match chord_action(modifiers, key, tab_count) {
            Some(KeybindAction::SwitchWorkspaceByIndex(i)) => 1 <= i <= 8,
            _ => true,
        },
{
}

/// The Windows virtual-key code of a key, as far as it is known.
pub open spec fn key_code(key: Key) -> int {
    match key {
        Key::Named(NamedKey::Enter) => 0x0d,
        Key::Named(NamedKey::Backspace) => 0x08,
        Key::Named(NamedKey::Tab) => 0x09,
        Key::Named(NamedKey::Escape) => 0x1b,
        Key::Named(NamedKey::Space) => 0x20,
        Key::Named(NamedKey::ArrowLeft) => 0x25,
        Key::Named(NamedKey::ArrowUp) => 0x26,
        Key::Named(NamedKey::ArrowRight) => 0x27,
        Key::Named(NamedKey::ArrowDown) => 0x28,
        Key::Named(NamedKey::Delete) => 0x2e,
        Key::Named(NamedKey::Home) => 0x24,
        Key::Named(NamedKey::End) => 0x23,
        Key::Character(s) => if s@.len() == 0 {
            0
        } else if '0' <= s@[0] <= '9' || 'A' <= s@[0] <= 'Z' {
            s@[0] as int
        } else if 'a' <= s@[0] <= 'z' {
            s@[0] as int - 32
        } else {
            0
        },
        Key::Other => 0,
    }
}

/// The Windows virtual-key code of a key: for letters and digits the code of
/// the upper-case character; for other characters zero, since their ASCII
/// values are the codes of editing keys.
pub fn windows_key_code(key: &Key) -> (r: i32)
    ensures
        r == key_code(*key),
{
    match key {
        Key::Named(NamedKey::Enter) => 0x0d,
        Key::Named(NamedKey::Backspace) => 0x08,
        Key::Named(NamedKey::Tab) => 0x09,
        Key::Named(NamedKey::Escape) => 0x1b,
        Key::Named(NamedKey::Space) => 0x20,
        Key::Named(NamedKey::ArrowLeft) => 0x25,
        Key::Named(NamedKey::ArrowUp) => 0x26,
        Key::Named(NamedKey::ArrowRight) => 0x27,
        Key::Named(NamedKey::ArrowDown) => 0x28,
        Key::Named(NamedKey::Delete) => 0x2e,
        Key::Named(NamedKey::Home) => 0x24,
        Key::Named(NamedKey::End) => 0x23,
        Key::Character(s) => {
            let v = chars_of(s.as_str());
            if v.len() == 0 {
                0
            } else if ('0' <= v[0] && v[0] <= '9') || ('A' <= v[0] && v[0] <= 'Z') {
                v[0] as u32 as i32
            } else if 'a' <= v[0] && v[0] <= 'z' {
                v[0] as u32 as i32 - 32
            } else {
                0
            }
        },
        Key::Other => 0,
    }
}

/// No character has the code of an editing key: what is typed is never taken
/// for Delete, Backspace, Enter or an arrow.
pub proof fn characters_have_no_editing_code(s: String, named: NamedKey)
    ensures
        key_code(Key::Character(s)) != key_code(Key::Named(named)),
{
}

/// One row of the table of chords: action, chord, scope, and where the chord
/// comes from.
pub type KeybindRow = (&'static str, &'static str, &'static str, &'static str);

/// The table of chords.
pub open spec fn keybind_table() -> Seq<(Seq<char>, Seq<char>, Seq<char>, Seq<char>)> {
    seq![
        ("dismiss modal"@, "Esc"@, "captured-modal"@, "built-in"@),
        ("new tab"@, "Ctrl+T"@, "global"@, "built-in"@),
        ("close tab / window"@, "Ctrl+W"@, "global"@, "built-in"@),
        ("close window"@, "Ctrl+Shift+W"@, "global"@, "built-in"@),
        ("quit mote"@, "Ctrl+Q"@, "global"@, "built-in"@),
        ("focus omnibox"@, "Ctrl+L"@, "global"@, "built-in"@),
        ("reload page"@, "Ctrl+R"@, "global"@, "built-in"@),
        ("go back"@, "Ctrl+["@, "global"@, "built-in"@),
        ("go forward"@, "Ctrl+]"@, "global"@, "built-in"@),
        ("cycle tab"@, "Ctrl+Tab"@, "global"@, "built-in"@),
        ("toggle integrity panel"@, "Ctrl+Shift+I"@, "global"@, "built-in"@),
        ("open workspace picker"@, "Ctrl+Space"@, "global"@, "built-in"@),
        ("switch workspace 1"@, "Ctrl+1"@, "global"@, "built-in"@),
        ("switch workspace 2"@, "Ctrl+2"@, "global"@, "built-in"@),
        ("switch workspace 3"@, "Ctrl+3"@, "global"@, "built-in"@),
        ("switch workspace 4"@, "Ctrl+4"@, "global"@, "built-in"@),
        ("switch workspace 5"@, "Ctrl+5"@, "global"@, "built-in"@),
        ("switch workspace 6"@, "Ctrl+6"@, "global"@, "built-in"@),
        ("switch workspace 7"@, "Ctrl+7"@, "global"@, "built-in"@),
        ("switch workspace 8"@, "Ctrl+8"@, "global"@, "built-in"@),
        ("switch to last workspace"@, "Ctrl+9"@, "global"@, "built-in"@),
        ("find in page"@, "Ctrl+F"@, "global"@, "built-in"@),
        ("find next match"@, "Ctrl+G"@, "global"@, "built-in"@),
        ("find previous match"@, "Ctrl+Shift+G"@, "global"@, "built-in"@),
        ("zoom in"@, "Ctrl+="@, "global"@, "built-in"@),
        ("zoom out"@, "Ctrl+-"@, "global"@, "built-in"@),
        ("reset zoom"@, "Ctrl+0"@, "global"@, "built-in"@),
        ("reopen closed tab"@, "Ctrl+Shift+T"@, "global"@, "built-in"@),
    ]
}

/// A row as texts.
pub open spec fn row_texts(row: KeybindRow) -> (Seq<char>, Seq<char>, Seq<char>, Seq<char>) {
    (row.0@, row.1@, row.2@, row.3@)
}

fn row(action: &'static str, chord: &'static str, scope: &'static str) -> (r: KeybindRow)
    ensures
        row_texts(r) == (action@, chord@, scope@, "built-in"@),
{
    (action, chord, scope, "built-in")
}

/// The table of chords.
pub fn keybind_rows() -> (r: Vec<KeybindRow>)
    ensures
        r@.map_values(|row: KeybindRow| row_texts(row)) == keybind_table(),
{
    let mut rows: Vec<KeybindRow> = Vec::new();
    rows.push(row("dismiss modal", "Esc", "captured-modal"));
    rows.push(row("new tab", "Ctrl+T", "global"));
    rows.push(row("close tab / window", "Ctrl+W", "global"));
    rows.push(row("close window", "Ctrl+Shift+W", "global"));
    rows.push(row("quit mote", "Ctrl+Q", "global"));
    rows.push(row("focus omnibox", "Ctrl+L", "global"));
    rows.push(row("reload page", "Ctrl+R", "global"));
    rows.push(row("go back", "Ctrl+[", "global"));
    rows.push(row("go forward", "Ctrl+]", "global"));
    rows.push(row("cycle tab", "Ctrl+Tab", "global"));
    rows.push(row("toggle integrity panel", "Ctrl+Shift+I", "global"));
    rows.push(row("open workspace picker", "Ctrl+Space", "global"));
    rows.push(row("switch workspace 1", "Ctrl+1", "global"));
    rows.push(row("switch workspace 2", "Ctrl+2", "global"));
    rows.push(row("switch workspace 3", "Ctrl+3", "global"));
    rows.push(row("switch workspace 4", "Ctrl+4", "global"));
    rows.push(row("switch workspace 5", "Ctrl+5", "global"));
    rows.push(row("switch workspace 6", "Ctrl+6", "global"));
    rows.push(row("switch workspace 7", "Ctrl+7", "global"));
    rows.push(row("switch workspace 8", "Ctrl+8", "global"));
    rows.push(row("switch to last workspace", "Ctrl+9", "global"));
    rows.push(row("find in page", "Ctrl+F", "global"));
    rows.push(row("find next match", "Ctrl+G", "global"));
    rows.push(row("find previous match", "Ctrl+Shift+G", "global"));
    rows.push(row("zoom in", "Ctrl+=", "global"));
    rows.push(row("zoom out", "Ctrl+-", "global"));
    rows.push(row("reset zoom", "Ctrl+0", "global"));
    rows.push(row("reopen closed tab", "Ctrl+Shift+T", "global"));
    assert(rows@.map_values(|row: KeybindRow| row_texts(row)) =~= keybind_table());
    rows
}

/// A row as a JSON object.
pub open spec fn row_json(row: (Seq<char>, Seq<char>, Seq<char>, Seq<char>)) -> Seq<char> {
    "{\"action\":"@ + json_quoted(row.0) + ",\"chord\":"@ + json_quoted(row.1) + ",\"scope\":"@
        + json_quoted(row.2) + ",\"source\":"@ + json_quoted(row.3) + "}"@
}

fn row_to_json(row: &KeybindRow) -> (r: String)
    ensures
        r@ == row_json(row_texts(*row)),
{
    let mut out = String::new();
    out.push_str("{\"action\":");
    let action = json_string(row.0);
    out.push_str(action.as_str());
    out.push_str(",\"chord\":");
    let chord = json_string(row.1);
    out.push_str(chord.as_str());
    out.push_str(",\"scope\":");
    let scope = json_string(row.2);
    out.push_str(scope.as_str());
    out.push_str(",\"source\":");
    let source = json_string(row.3);
    out.push_str(source.as_str());
    out.push_str("}");
    assert(out@ =~= row_json(row_texts(*row)));
    out
}

/// The table of chords as JSON.
pub open spec fn keybinds_json() -> Seq<char> {
    "{\"keybinds\":["@ + joined(
        keybind_table().map_values(
            |row: (Seq<char>, Seq<char>, Seq<char>, Seq<char>)| row_json(row),
        ),
        ","@,
    ) + "]}"@
}

/// The table of chords as JSON: an object whose `keybinds` is the array of
/// rows.
pub fn keybinds_list_json() -> (r: String)
    ensures
        r@ == keybinds_json(),
{
    let rows = keybind_rows();
    let mut parts: Vec<String> = Vec::new();
    let ghost jsons = keybind_table().map_values(
        |row: (Seq<char>, Seq<char>, Seq<char>, Seq<char>)| row_json(row),
    );
    let ghost table = rows@.map_values(|row: KeybindRow| row_texts(row));
    let mut i: usize = 0;
    while i < rows.len()
        invariant
            i <= rows@.len(),
            parts@.len() == i,
            table == rows@.map_values(|row: KeybindRow| row_texts(row)),
            table == keybind_table(),
            jsons == keybind_table().map_values(
                |row: (Seq<char>, Seq<char>, Seq<char>, Seq<char>)| row_json(row),
            ),
            forall|k: int| 0 <= k < i ==> (#[trigger] parts@[k])@ == jsons[k],
        decreases rows@.len() - i,
    {
        let part = row_to_json(&rows[i]);
        assert(table[i as int] == row_texts(rows@[i as int]));
        parts.push(part);
        i = i + 1;
    }
    assert(strings(parts@) =~= jsons);
    let mut out = String::new();
    out.push_str("{\"keybinds\":[");
    let body = join(&parts, ",");
    out.push_str(body.as_str());
    out.push_str("]}");
    out
}

/// What a key event is to a page.
#[derive(Debug, Clone, Copy, PartialEq, Eq, Structural)]
pub enum KeyAction {
    Down,
    Up,
    /// A unit of typed text.
    Char,
}

/// A key event for a page.
#[derive(Debug, Clone, Copy, PartialEq, Eq, Structural)]
pub struct KeyInput {
    pub action: KeyAction,
    pub windows_key_code: i32,
    /// The unit of UTF-16 text that was typed; zero for a bare key.
    pub character: u16,
}

/// `c` in UTF-16.
pub open spec fn utf16_units(c: char) -> Seq<u16> {
    let v = c as u32;
    if v < 0x1_0000 {
        seq![v as u16]
    } else {
        seq![
            (0xd800 + (v - 0x1_0000) / 0x400) as u16,
            (0xdc00 + (v - 0x1_0000) % 0x400) as u16,
        ]
    }
}

/// `s` in UTF-16.
pub open spec fn utf16(s: Seq<char>) -> Seq<u16>
    decreases s.len(),
{
    if s.len() == 0 {
        Seq::empty()
    } else {
        utf16(s.drop_last()) + utf16_units(s.last())
    }
}

fn encode_utf16(s: &str) -> (r: Vec<u16>)
    ensures
        r@ == utf16(s@),
{
    let v = chars_of(s);
    let mut out: Vec<u16> = Vec::new();
    let mut i: usize = 0;
    assert(v@.subrange(0, 0) =~= Seq::<char>::empty());
    while i < v.len()
        invariant
            i <= v@.len(),
            out@ == utf16(v@.subrange(0, i as int)),
        decreases v@.len() - i,
    {
        let ghost next = v@.subrange(0, i + 1);
        let ghost before = out@;
        assert(next.drop_last() =~= v@.subrange(0, i as int));
        let c = v[i];
        let code: u32 = c as u32;
        if code < 0x1_0000 {
            out.push(code as u16);
        } else {
            let rest: u32 = code - 0x1_0000;
            proof {
                vstd::utf8::char_is_scalar(c);
            }
            out.push((0xd800 + rest / 0x400) as u16);
            out.push((0xdc00 + rest % 0x400) as u16);
        }
        assert(out@ =~= before + utf16_units(c));
        i = i + 1;
    }
    assert(v@.subrange(0, v@.len() as int) =~= v@);
    out
}

/// The units of typed text, as key events with the code `code`.
pub open spec fn char_inputs(units: Seq<u16>, code: i32) -> Seq<KeyInput> {
    units.map_values(
        |u: u16| KeyInput { action: KeyAction::Char, windows_key_code: code, character: u },
    )
}

/// The key events that a key makes in the page that has the focus: the key
/// itself and, where it was pressed, the text that it types.
pub open spec fn key_events(pressed: bool, code: i32, text: Option<Seq<char>>) -> Seq<KeyInput> {
    let key = KeyInput {
        action: if pressed {
            KeyAction::Down
        } else {
            KeyAction::Up
        },
        windows_key_code: code,
        character: 0,
    };
    seq![key] + match text {
        Some(t) => if pressed {
            char_inputs(utf16(t), code)
        } else {
            Seq::empty()
        },
        None => Seq::empty(),
    }
}

/// The key events that a key makes in the page that has the focus.
pub fn key_inputs(pressed: bool, key: &Key, text: &Option<String>) -> (r: Vec<KeyInput>)
    ensures
        r@ == key_events(pressed, key_code(*key) as i32, opt_text(*text)),
{
    let code: i32 = windows_key_code(key);
    let mut out: Vec<KeyInput> = Vec::new();
    let action = if pressed {
        KeyAction::Down
    } else {
        KeyAction::Up
    };
    out.push(KeyInput { action, windows_key_code: code, character: 0 });
    if pressed {
        if let Some(t) = text {
            let units = encode_utf16(t.as_str());
            let ghost front = out@;
            let mut i: usize = 0;
            assert(front + char_inputs(units@.subrange(0, 0), code) =~= front);
            while i < units.len()
                invariant
                    i <= units@.len(),
                    out@ == front + char_inputs(units@.subrange(0, i as int), code),
                decreases units@.len() - i,
            {
                out.push(
                    KeyInput {
                        action: KeyAction::Char,
                        windows_key_code: code,
                        character: units[i],
                    },
                );
                i = i + 1;
                assert(out@ =~= front + char_inputs(units@.subrange(0, i as int), code));
            }
            assert(units@.subrange(0, units@.len() as int) =~= units@);
        }
    }
    assert(out@ =~= key_events(pressed, code, opt_text(*text)));
    out
}

} // verus!
