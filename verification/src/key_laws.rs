//! What each key does, from the key to its effect, whatever the state of the
//! shell.

use crate::chrome::op_script;
use crate::command::{CommandView, ShellCommand};
use crate::dispatch::{nothing, typed_all, KeyView};
use crate::effect::{Effect, EffectView};
use crate::json::json_quoted;
use crate::keybinds::{
    key_code, key_events, keybind_table, row_json, utf16, utf16_units, Key, KeyAction, Modifiers,
    NamedKey,
};
use crate::picker::PickerView;
use crate::shell::{lemma_place_of, place_of, ShellView};
use vstd::prelude::*;

verus! {

/// Whether the key types the one character `c`.
pub open spec fn types(key: Key, c: char) -> bool {
    key matches Key::Character(s) && s@ == seq![c]
}

/// A key press that was taken, left the shell as it was, and had these effects.
pub open spec fn only_effects(r: KeyView, v: ShellView, effects: Seq<EffectView>) -> bool {
    r.shell == v && r.consumed && r.effects == effects && r.command is None
}

/// A key press that was taken, had no effect yet, and gave a command.
pub open spec fn only_command(r: KeyView, v: ShellView, command: CommandView) -> bool {
    r.shell == v && r.consumed && r.effects.len() == 0 && r.command == Some(command)
}

/// Ctrl with a character acts on the active page just as the command for it
/// does: `[` goes back, `]` forward, and `r` loads again. Without a page nothing
/// happens, and the key is taken all the same.
pub proof fn navigation_chords_move_the_active_page(v: ShellView, m: Modifiers, key: Key, s: Seq<char>)
    requires
        !v.picker.open,
        m.control,
        !m.shift,
    ensures
        types(key, '[') ==> {
            let r = v.key_result(true, m, key);
            &&& r.consumed && r.shell == v && r.command is None
            &&& r.effects == v.command_effects(ShellCommand::NavGoBack, s)
            &&& v.active_live() ==> r.effects == seq![Effect::<Seq<char>>::GoBack]
            &&& !v.active_live() ==> r.effects == nothing()
        },
        types(key, ']') ==> {
            let r = v.key_result(true, m, key);
            &&& r.consumed && r.shell == v && r.command is None
            &&& r.effects == v.command_effects(ShellCommand::NavGoForward, s)
            &&& v.active_live() ==> r.effects == seq![Effect::<Seq<char>>::GoForward]
            &&& !v.active_live() ==> r.effects == nothing()
        },
        types(key, 'r') || types(key, 'R') ==> {
            let r = v.key_result(true, m, key);
            &&& r.consumed && r.shell == v && r.command is None
            &&& r.effects == v.command_effects(ShellCommand::NavReload, s)
            &&& v.active_live() ==> r.effects == seq![Effect::<Seq<char>>::Reload]
            &&& !v.active_live() ==> r.effects == nothing()
        },
{
}

/// Ctrl+T opens a tab at the start page in front, just as the command without a
/// URL does.
pub proof fn the_new_tab_chord_opens_the_start_page(v: ShellView, m: Modifiers, key: Key, s: Seq<char>)
    requires
        !v.picker.open,
        m.control,
        !m.shift,
        types(key, 't') || types(key, 'T'),
    ensures
        only_effects(
            v.key_result(true, m, key),
            v,
            seq![
                Effect::OpenTab {
                    url: "mote://chrome/newtab.html"@,
                    title: None,
                    foreground: true,
                },
            ],
        ),
        v.key_result(true, m, key).effects == v.command_effects(ShellCommand::NewTab(None), s),
{
}

/// Ctrl+W closes the active tab, just as the command for that tab does, where
/// there is another; with one tab or none it closes the window and no tab. With
/// Shift, and by Ctrl+Q, the window closes however many tabs there are.
pub proof fn closing_chords_close_a_tab_or_the_window(
    v: ShellView,
    m: Modifiers,
    key: Key,
    s: Seq<char>,
)
    requires
        !v.picker.open,
        v.wf(),
        m.control,
    ensures
        !m.shift && types(key, 'w') && v.tabs.len() >= 2 ==> {
            let r = v.key_result(true, m, key);
            let id = v.tabs[v.active].id;
            &&& r.consumed && r.command is None
            &&& r.shell == v.applied(ShellCommand::CloseTab(id), s)
            &&& r.effects == v.command_effects(ShellCommand::CloseTab(id), s)
            &&& r.shell.tabs.len() == v.tabs.len() - 1
            &&& r.shell.should_exit == v.should_exit
        },
        !m.shift && types(key, 'w') && v.tabs.len() <= 1 ==> only_effects(
            v.key_result(true, m, key),
            ShellView { should_exit: true, ..v },
            nothing(),
        ),
        !m.shift && (types(key, 'q') || types(key, 'Q')) ==> only_effects(
            v.key_result(true, m, key),
            ShellView { should_exit: true, ..v },
            nothing(),
        ),
        m.shift && (types(key, 'w') || types(key, 'W')) ==> only_effects(
            v.key_result(true, m, key),
            ShellView { should_exit: true, ..v },
            nothing(),
        ),
{
    if v.has_active() {
        lemma_place_of(v.tabs, v.tabs[v.active].id);
        let at = place_of(v.tabs, v.tabs[v.active].id);
        if at == v.tabs.len() {
            assert(v.tabs[v.active].id != v.tabs[v.active].id);
        }
    }
}

/// Ctrl with one of the digits 1 to 8 asks for the workspace at that place, and
/// with 9 for the last, whatever their number.
pub proof fn digit_chords_switch_the_workspace(v: ShellView, m: Modifiers, key: Key, c: char)
    requires
        !v.picker.open,
        m.control,
        !m.shift,
        types(key, c),
    ensures
        '1' <= c <= '8' ==> only_effects(
            v.key_result(true, m, key),
            v,
            seq![Effect::<Seq<char>>::SwitchWorkspaceAt((c as u32 - '0' as u32) as u8)],
        ),
        c == '9' ==> only_effects(
            v.key_result(true, m, key),
            v,
            seq![Effect::<Seq<char>>::SwitchWorkspaceLast],
        ),
        c == 'l' || c == 'L' ==> only_effects(
            v.key_result(true, m, key),
            v,
            seq![Effect::EvalChrome(op_script("focus_omnibox"@, "null"@))],
        ),
{
}

/// The chords for finding, zooming and reopening wait as commands, and the
/// command does what the chord is for.
pub proof fn command_chords_wait_as_commands(v: ShellView, m: Modifiers, key: Key, s: Seq<char>)
    requires
        !v.picker.open,
        m.control,
    ensures
        !m.shift && (types(key, 'f') || types(key, 'F')) ==> only_command(
            v.key_result(true, m, key),
            v,
            ShellCommand::FindInPage,
        ),
        !m.shift && (types(key, 'g') || types(key, 'G')) ==> only_command(
            v.key_result(true, m, key),
            v,
            ShellCommand::FindNext,
        ),
        m.shift && (types(key, 'g') || types(key, 'G')) ==> only_command(
            v.key_result(true, m, key),
            v,
            ShellCommand::FindPrev,
        ),
        types(key, '=') || types(key, '+') ==> {
            let r = v.key_result(true, m, key);
            &&& only_command(r, v, ShellCommand::ZoomIn)
            &&& v.command_effects(r.command->0, s) == seq![Effect::<Seq<char>>::ZoomIn]
        },
        !m.shift && types(key, '-') ==> {
            let r = v.key_result(true, m, key);
            &&& only_command(r, v, ShellCommand::ZoomOut)
            &&& v.command_effects(r.command->0, s) == seq![Effect::<Seq<char>>::ZoomOut]
        },
        !m.shift && types(key, '0') ==> {
            let r = v.key_result(true, m, key);
            &&& only_command(r, v, ShellCommand::ZoomReset)
            &&& v.command_effects(r.command->0, s) == seq![Effect::<Seq<char>>::ZoomReset]
        },
        m.shift && (types(key, 't') || types(key, 'T')) ==> {
            let r = v.key_result(true, m, key);
            &&& only_command(r, v, ShellCommand::ReopenClosedTab)
            &&& v.closed.len() > 0 ==> v.command_effects(r.command->0, s) == seq![
                Effect::OpenTab {
                    url: v.closed[0].url,
                    title: v.closed[0].title,
                    foreground: true,
                },
            ]
        },
{
}

/// Ctrl or the command key with the space bar opens the picker, and Ctrl+Tab
/// goes on to the next tab, from the last to the first.
pub proof fn named_chords_open_the_picker_and_cycle(v: ShellView, m: Modifiers, key: Key)
    requires
        !v.picker.open,
        v.wf(),
    ensures
        key == Key::Named(NamedKey::Space) && (m.control || m.command) ==> only_effects(
            v.key_result(true, m, key),
            v,
            seq![Effect::<Seq<char>>::OpenPicker],
        ),
        key == Key::Named(NamedKey::Tab) && m.control && !m.shift && v.tabs.len() >= 2
            ==> only_effects(
            v.key_result(true, m, key),
            v,
            seq![
                Effect::<Seq<char>>::SelectTab(
                    if v.active == v.tabs.len() - 1 {
                        v.tabs[0].id
                    } else {
                        v.tabs[v.active + 1].id
                    },
                ),
            ],
        ),
        key == Key::Named(NamedKey::Tab) && m.control && !m.shift && v.tabs.len() < 2
            ==> only_effects(v.key_result(true, m, key), v, nothing()),
{
    let n = v.tabs.len() as int;
    if n >= 2 {
        if v.active == n - 1 {
            assert((v.active + 1) % n == 0) by (nonlinear_arith)
                requires
                    v.active + 1 == n,
                    n > 0,
            ;
        } else {
            assert((v.active + 1) % n == v.active + 1) by (nonlinear_arith)
                requires
                    0 <= v.active,
                    v.active + 1 < n,
            ;
        }
    }
}

/// Escape closes whatever of the integrity panel and its overlay is open, and
/// is taken just where something was; the open state does not outlive it.
pub proof fn escape_closes_what_is_open(v: ShellView, m: Modifiers)
    requires
        !v.picker.open,
    ensures
        ({
            let r = v.key_result(true, m, Key::Named(NamedKey::Escape));
            &&& r.consumed == (v.integrity_open || v.integrity_chrome_open)
            &&& r.shell == (ShellView { integrity_open: false, integrity_chrome_open: false, ..v })
            &&& r.command is None
            &&& v.integrity_open && !v.integrity_chrome_open ==> r.effects == seq![
                Effect::<Seq<char>>::RedrawChrome,
                Effect::RedrawContent,
            ]
            &&& !v.integrity_open && v.integrity_chrome_open && v.chrome_ready ==> r.effects
                == seq![Effect::EvalChrome(op_script("hide_integrity_panel"@, "null"@))]
            &&& v.integrity_open && v.integrity_chrome_open && v.chrome_ready ==> r.effects == seq![
                Effect::<Seq<char>>::RedrawChrome,
                Effect::RedrawContent,
                Effect::EvalChrome(op_script("hide_integrity_panel"@, "null"@)),
            ]
            &&& v.integrity_open && !v.chrome_ready ==> r.effects == seq![
                Effect::<Seq<char>>::RedrawChrome,
                Effect::RedrawContent,
            ]
            &&& !v.integrity_open && (!v.integrity_chrome_open || !v.chrome_ready) ==> r.effects
                == nothing()
        }),
{
    let r = v.key_result(true, m, Key::Named(NamedKey::Escape));
    if v.integrity_open && v.integrity_chrome_open && v.chrome_ready {
        assert(r.effects =~= seq![
            Effect::<Seq<char>>::RedrawChrome,
            Effect::RedrawContent,
            Effect::EvalChrome(op_script("hide_integrity_panel"@, "null"@)),
        ]);
    }
    if v.integrity_open && !v.chrome_ready {
        assert(r.effects =~= seq![Effect::<Seq<char>>::RedrawChrome, Effect::RedrawContent]);
    }
    if !v.integrity_open && (!v.integrity_chrome_open || !v.chrome_ready) {
        assert(r.effects =~= nothing());
    }
    if v.integrity_open && !v.integrity_chrome_open {
        assert(r.effects =~= seq![Effect::<Seq<char>>::RedrawChrome, Effect::RedrawContent]);
    } else if !v.integrity_open && v.integrity_chrome_open && v.chrome_ready {
        assert(r.effects =~= seq![
            Effect::EvalChrome(op_script("hide_integrity_panel"@, "null"@)),
        ]);
    }
}

/// The integrity chord turns the panel on and off: once the chrome can be told
/// the panel in it, and before that the overlay.
pub proof fn the_integrity_chord_turns_on_and_off(v: ShellView, m: Modifiers, key: Key)
    requires
        !v.picker.open,
        m.control,
        m.shift,
        types(key, 'i') || types(key, 'I'),
    ensures
        ({
            let r = v.key_result(true, m, key);
            &&& r.consumed && r.command is None
            &&& v.chrome_ready && v.integrity_chrome_open ==> r.shell == (ShellView {
                integrity_chrome_open: false,
                ..v
            }) && r.effects == seq![
                Effect::EvalChrome(op_script("hide_integrity_panel"@, "null"@)),
            ]
            &&& v.chrome_ready && !v.integrity_chrome_open ==> r.shell == v && r.effects == seq![
                Effect::<Seq<char>>::ShowIntegrity,
            ]
            &&& !v.chrome_ready && v.integrity_open ==> r.shell == (ShellView {
                integrity_open: false,
                ..v
            }) && r.effects == seq![Effect::<Seq<char>>::RedrawChrome, Effect::RedrawContent]
            &&& !v.chrome_ready && !v.integrity_open ==> r.shell == v && r.effects == seq![
                Effect::<Seq<char>>::OpenIntegrityOverlay,
            ]
        }),
{
}

/// What is no chord goes to whoever has the focus: releases, and characters
/// without Ctrl or that no chord has.
pub proof fn other_keys_pass(v: ShellView, m: Modifiers, key: Key, c: char)
    requires
        !v.picker.open,
        types(key, c),
    ensures
        !v.key_result(false, m, key).consumed,
        !m.control ==> !v.key_result(true, m, key).consumed,
        m.control && !m.shift && c != 't' && c != 'T' && c != 'w' && c != 'q' && c != 'Q' && c
            != 'l' && c != 'L' && c != 'r' && c != 'R' && c != '[' && c != ']' && !('0' <= c
            <= '9') && c != 'f' && c != 'F' && c != 'g' && c != 'G' && c != '=' && c != '+' && c
            != '-' ==> !v.key_result(true, m, key).consumed,
        m.control && m.shift && c != 'i' && c != 'I' && c != 'w' && c != 'W' && c != 'g' && c
            != 'G' && c != '=' && c != '+' && c != 't' && c != 'T' && c != 'a' && c != 'A' && c
            != 'x' && c != 'X' ==> !v.key_result(true, m, key).consumed,
{
}

/// The made-up dialogs come with Ctrl, Shift and their letter, once the chrome
/// can show one.
pub proof fn sample_chords_show_a_dialog(v: ShellView, m: Modifiers, key: Key)
    requires
        !v.picker.open,
        m.control,
        m.shift,
        v.chrome_ready,
    ensures
        types(key, 'a') || types(key, 'A') ==> only_effects(
            v.key_result(true, m, key),
            v,
            seq![Effect::<Seq<char>>::ShowSampleApproval { hostile: false }],
        ),
        types(key, 'x') || types(key, 'X') ==> only_effects(
            v.key_result(true, m, key),
            v,
            seq![Effect::<Seq<char>>::ShowSampleApproval { hostile: true }],
        ),
{
}

/// In the open picker the arrows and Ctrl with `j` or `k` move the selection, a
/// character without Ctrl is typed, the space bar types a space, and Backspace
/// takes a character back; each shows the rows anew.
pub proof fn picker_keys_move_and_type(v: ShellView, m: Modifiers, key: Key, c: char)
    requires
        v.picker.open,
    ensures
        key == Key::Named(NamedKey::ArrowDown) || (m.control && (types(key, 'j') || types(key, 'J')))
            ==> only_effects(
            v.key_result(true, m, key),
            ShellView { picker: v.picker.moved_down(), ..v },
            seq![Effect::<Seq<char>>::RenderPicker],
        ),
        key == Key::Named(NamedKey::ArrowUp) || (m.control && (types(key, 'k') || types(key, 'K')))
            ==> only_effects(
            v.key_result(true, m, key),
            ShellView { picker: v.picker.moved_up(), ..v },
            seq![Effect::<Seq<char>>::RenderPicker],
        ),
        !m.control && types(key, c) ==> {
            let r = v.key_result(true, m, key);
            &&& r.shell == (ShellView { picker: r.shell.picker, ..v })
            &&& r.shell.picker.query == v.picker.query.push(c)
            &&& r.shell.picker.base == v.picker.base
            &&& r.effects == seq![Effect::<Seq<char>>::RenderPicker]
        },
        key == Key::Named(NamedKey::Space) ==> only_effects(
            v.key_result(true, m, key),
            ShellView { picker: v.picker.typed(' '), ..v },
            seq![Effect::<Seq<char>>::RenderPicker],
        ) && v.key_result(true, m, key).shell.picker.query == v.picker.query.push(' '),
        key == Key::Named(NamedKey::Backspace) ==> only_effects(
            v.key_result(true, m, key),
            ShellView { picker: v.picker.erased(), ..v },
            seq![Effect::<Seq<char>>::RenderPicker],
        ),
        key == Key::Named(NamedKey::Backspace) && v.picker.query.len() > 0 ==> v.key_result(
            true,
            m,
            key,
        ).shell.picker.query == v.picker.query.drop_last(),
        key == Key::Named(NamedKey::Backspace) && v.picker.query.len() == 0 ==> v.key_result(
            true,
            m,
            key,
        ).shell.picker.query == v.picker.query,
{
    if types(key, c) {
        assert(seq![c].drop_last() =~= Seq::<char>::empty());
        assert(typed_all(v.picker, Seq::<char>::empty()) == v.picker);
        assert(typed_all(v.picker, seq![c]) == v.picker.typed(c));
    }
}

/// Enter takes the selected row: the picker closes, the window is drawn again,
/// and a tab of the window is selected, be it live or idle, while a hidden one
/// is revealed. Escape closes the picker and takes nothing; in neither case does
/// the picker keep its rows.
pub proof fn enter_takes_the_selected_row(v: ShellView, m: Modifiers)
    requires
        v.picker.open,
        v.picker.wf(),
    ensures
        ({
            let r = v.key_result(true, m, Key::Named(NamedKey::Enter));
            &&& r.consumed && r.command is None
            &&& r.shell.tabs == v.tabs && r.shell.active == v.active
            &&& !r.shell.picker.open && r.shell.picker.base.len() == 0
                && r.shell.picker.query.len() == 0
            &&& v.picker.rows().len() == 0 ==> r.effects == seq![
                Effect::<Seq<char>>::RedrawChrome,
                Effect::RedrawContent,
            ]
            &&& v.picker.rows().len() > 0 ==> {
                let row = v.picker.base[v.picker.rows()[v.picker.selected].0];
                &&& r.effects.len() == 3
                &&& r.effects[0] is RedrawChrome && r.effects[1] is RedrawContent
                &&& row.kind.switches() ==> r.effects[2] == Effect::<Seq<char>>::SelectTab(row.id)
                &&& !row.kind.switches() && place_of(v.tabs, row.id) >= v.tabs.len()
                    ==> r.effects[2] == Effect::<Seq<char>>::RevealTab(row.id)
                &&& !row.kind.switches() && place_of(v.tabs, row.id) < v.tabs.len()
                    ==> r.effects[2] == Effect::<Seq<char>>::SelectTab(row.id)
            }
        }),
        ({
            let r = v.key_result(true, m, Key::Named(NamedKey::Escape));
            &&& r.consumed
            &&& r.shell == (ShellView { picker: r.shell.picker, ..v })
            &&& !r.shell.picker.open && r.shell.picker.base.len() == 0
            &&& r.effects == seq![Effect::<Seq<char>>::RedrawChrome, Effect::RedrawContent]
        }),
{
}

/// The key codes that pages know of the named keys; no two keys share one.
pub proof fn named_keys_have_their_codes(a: NamedKey, b: NamedKey)
    ensures
        key_code(Key::Named(a)) == key_code(Key::Named(b)) ==> a == b,
        key_code(Key::Named(NamedKey::Backspace)) == 8,
        key_code(Key::Named(NamedKey::Tab)) == 9,
        key_code(Key::Named(NamedKey::Enter)) == 13,
        key_code(Key::Named(NamedKey::Escape)) == 27,
        key_code(Key::Named(NamedKey::Space)) == 32,
        key_code(Key::Named(NamedKey::End)) == 35,
        key_code(Key::Named(NamedKey::Home)) == 36,
        key_code(Key::Named(NamedKey::ArrowLeft)) == 37,
        key_code(Key::Named(NamedKey::ArrowUp)) == 38,
        key_code(Key::Named(NamedKey::ArrowRight)) == 39,
        key_code(Key::Named(NamedKey::ArrowDown)) == 40,
        key_code(Key::Named(NamedKey::Delete)) == 46,
{
}

/// A letter has the code of its upper case, in either case, and a digit its
/// own; only the first character counts. Any other character has none.
pub proof fn letters_and_digits_have_their_codes(key: Key, s: Seq<char>)
    requires
        key matches Key::Character(t) && t@ == s,
        s.len() > 0,
    ensures
        'A' <= s[0] <= 'Z' ==> key_code(key) == s[0] as u32,
        'a' <= s[0] <= 'z' ==> key_code(key) == s[0] as u32 - 'a' as u32 + 'A' as u32,
        '0' <= s[0] <= '9' ==> key_code(key) == s[0] as u32,
        !('A' <= s[0] <= 'Z') && !('a' <= s[0] <= 'z') && !('0' <= s[0] <= '9') ==> key_code(key)
            == 0,
{
}

/// A page sees a press as the key going down and then the typed text, unit by
/// unit under the same code; it sees a release as the key going up and nothing
/// more.
pub proof fn presses_type_and_releases_do_not(code: i32, text: Seq<char>, k: int)
    ensures
        ({
            let r = key_events(true, code, Some(text));
            &&& r.len() == 1 + utf16(text).len()
            &&& r[0].action == KeyAction::Down && r[0].windows_key_code == code && r[0].character
                == 0
            &&& 0 <= k < utf16(text).len() ==> r[k + 1].action == KeyAction::Char
                && r[k + 1].windows_key_code == code && r[k + 1].character == utf16(text)[k]
        }),
        ({
            let r = key_events(false, code, Some(text));
            &&& r.len() == 1
            &&& r[0].action == KeyAction::Up && r[0].windows_key_code == code && r[0].character
                == 0
        }),
        key_events(true, code, None).len() == 1,
        key_events(true, code, None)[0].action == KeyAction::Down,
{
}

/// The units of a text are those of its characters in order, and the units of a
/// character spell it: one unit is its code, two are a high and a low half.
pub proof fn typed_text_can_be_read_back(s: Seq<char>, c: char)
    ensures
        utf16(s.push(c)) == utf16(s) + utf16_units(c),
        utf16(Seq::empty()).len() == 0,
        ({
            let u = utf16_units(c);
            &&& u.len() == 1 ==> u[0] as u32 == c as u32
            &&& u.len() == 2 ==> {
                &&& 0xd800 <= u[0] < 0xdc00
                &&& 0xdc00 <= u[1] < 0xe000
                &&& (u[0] - 0xd800) * 0x400 + (u[1] - 0xdc00) + 0x10000 == c as u32
            }
            &&& u.len() == 1 || u.len() == 2
        }),
{
    assert(s.push(c).drop_last() =~= s);
    vstd::utf8::char_is_scalar(c);
    let v = c as u32;
    if v >= 0x1_0000 {
        let rest = (v - 0x1_0000) as int;
        assert(rest / 0x400 < 0x400);
        assert(rest / 0x400 * 0x400 + rest % 0x400 == rest);
    }
}

/// The table of chords lists every chord with what it does; all but the one that
/// dismisses work everywhere.
pub proof fn the_table_lists_every_chord()
    ensures
        keybind_table().len() == 28,
        keybind_table().contains(("dismiss modal"@, "Esc"@, "captured-modal"@, "built-in"@)),
        keybind_table().contains(("new tab"@, "Ctrl+T"@, "global"@, "built-in"@)),
        keybind_table().contains(("close tab / window"@, "Ctrl+W"@, "global"@, "built-in"@)),
        keybind_table().contains(("close window"@, "Ctrl+Shift+W"@, "global"@, "built-in"@)),
        keybind_table().contains(("quit mote"@, "Ctrl+Q"@, "global"@, "built-in"@)),
        keybind_table().contains(("focus omnibox"@, "Ctrl+L"@, "global"@, "built-in"@)),
        keybind_table().contains(("reload page"@, "Ctrl+R"@, "global"@, "built-in"@)),
        keybind_table().contains(("go back"@, "Ctrl+["@, "global"@, "built-in"@)),
        keybind_table().contains(("go forward"@, "Ctrl+]"@, "global"@, "built-in"@)),
        keybind_table().contains(("cycle tab"@, "Ctrl+Tab"@, "global"@, "built-in"@)),
        keybind_table().contains(("toggle integrity panel"@, "Ctrl+Shift+I"@, "global"@, "built-in"@)),
        keybind_table().contains(("open workspace picker"@, "Ctrl+Space"@, "global"@, "built-in"@)),
        keybind_table().contains(("switch workspace 1"@, "Ctrl+1"@, "global"@, "built-in"@)),
        keybind_table().contains(("switch workspace 2"@, "Ctrl+2"@, "global"@, "built-in"@)),
        keybind_table().contains(("switch workspace 3"@, "Ctrl+3"@, "global"@, "built-in"@)),
        keybind_table().contains(("switch workspace 4"@, "Ctrl+4"@, "global"@, "built-in"@)),
        keybind_table().contains(("switch workspace 5"@, "Ctrl+5"@, "global"@, "built-in"@)),
        keybind_table().contains(("switch workspace 6"@, "Ctrl+6"@, "global"@, "built-in"@)),
        keybind_table().contains(("switch workspace 7"@, "Ctrl+7"@, "global"@, "built-in"@)),
        keybind_table().contains(("switch workspace 8"@, "Ctrl+8"@, "global"@, "built-in"@)),
        keybind_table().contains(("switch to last workspace"@, "Ctrl+9"@, "global"@, "built-in"@)),
        keybind_table().contains(("find in page"@, "Ctrl+F"@, "global"@, "built-in"@)),
        keybind_table().contains(("find next match"@, "Ctrl+G"@, "global"@, "built-in"@)),
        keybind_table().contains(("find previous match"@, "Ctrl+Shift+G"@, "global"@, "built-in"@)),
        keybind_table().contains(("zoom in"@, "Ctrl+="@, "global"@, "built-in"@)),
        keybind_table().contains(("zoom out"@, "Ctrl+-"@, "global"@, "built-in"@)),
        keybind_table().contains(("reset zoom"@, "Ctrl+0"@, "global"@, "built-in"@)),
        keybind_table().contains(("reopen closed tab"@, "Ctrl+Shift+T"@, "global"@, "built-in"@)),
{
    let t = keybind_table();
    assert(t[0] == ("dismiss modal"@, "Esc"@, "captured-modal"@, "built-in"@));
    assert(t[1] == ("new tab"@, "Ctrl+T"@, "global"@, "built-in"@));
    assert(t[2] == ("close tab / window"@, "Ctrl+W"@, "global"@, "built-in"@));
    assert(t[3] == ("close window"@, "Ctrl+Shift+W"@, "global"@, "built-in"@));
    assert(t[4] == ("quit mote"@, "Ctrl+Q"@, "global"@, "built-in"@));
    assert(t[5] == ("focus omnibox"@, "Ctrl+L"@, "global"@, "built-in"@));
    assert(t[6] == ("reload page"@, "Ctrl+R"@, "global"@, "built-in"@));
    assert(t[7] == ("go back"@, "Ctrl+["@, "global"@, "built-in"@));
    assert(t[8] == ("go forward"@, "Ctrl+]"@, "global"@, "built-in"@));
    assert(t[9] == ("cycle tab"@, "Ctrl+Tab"@, "global"@, "built-in"@));
    assert(t[10] == ("toggle integrity panel"@, "Ctrl+Shift+I"@, "global"@, "built-in"@));
    assert(t[11] == ("open workspace picker"@, "Ctrl+Space"@, "global"@, "built-in"@));
    assert(t[12] == ("switch workspace 1"@, "Ctrl+1"@, "global"@, "built-in"@));
    assert(t[13] == ("switch workspace 2"@, "Ctrl+2"@, "global"@, "built-in"@));
    assert(t[14] == ("switch workspace 3"@, "Ctrl+3"@, "global"@, "built-in"@));
    assert(t[15] == ("switch workspace 4"@, "Ctrl+4"@, "global"@, "built-in"@));
    assert(t[16] == ("switch workspace 5"@, "Ctrl+5"@, "global"@, "built-in"@));
    assert(t[17] == ("switch workspace 6"@, "Ctrl+6"@, "global"@, "built-in"@));
    assert(t[18] == ("switch workspace 7"@, "Ctrl+7"@, "global"@, "built-in"@));
    assert(t[19] == ("switch workspace 8"@, "Ctrl+8"@, "global"@, "built-in"@));
    assert(t[20] == ("switch to last workspace"@, "Ctrl+9"@, "global"@, "built-in"@));
    assert(t[21] == ("find in page"@, "Ctrl+F"@, "global"@, "built-in"@));
    assert(t[22] == ("find next match"@, "Ctrl+G"@, "global"@, "built-in"@));
    assert(t[23] == ("find previous match"@, "Ctrl+Shift+G"@, "global"@, "built-in"@));
    assert(t[24] == ("zoom in"@, "Ctrl+="@, "global"@, "built-in"@));
    assert(t[25] == ("zoom out"@, "Ctrl+-"@, "global"@, "built-in"@));
    assert(t[26] == ("reset zoom"@, "Ctrl+0"@, "global"@, "built-in"@));
    assert(t[27] == ("reopen closed tab"@, "Ctrl+Shift+T"@, "global"@, "built-in"@));
}

/// A row of the table is told field by field.
pub proof fn rows_of_the_table_are_told(row: (Seq<char>, Seq<char>, Seq<char>, Seq<char>))
    ensures
        ("{\"action\":"@ + json_quoted(row.0) + ",\"chord\":"@ + json_quoted(row.1)
            + ",\"scope\":"@).is_prefix_of(row_json(row)),
        (json_quoted(row.2) + ",\"source\":"@ + json_quoted(row.3) + "}"@).is_suffix_of(
            row_json(row),
        ),
{
    let o = row_json(row);
    let head = "{\"action\":"@ + json_quoted(row.0) + ",\"chord\":"@ + json_quoted(row.1)
        + ",\"scope\":"@;
    let tail = json_quoted(row.2) + ",\"source\":"@ + json_quoted(row.3) + "}"@;
    assert(o =~= head + tail);
    assert(o.subrange(0, head.len() as int) =~= head);
    assert(o.subrange(o.len() - tail.len(), o.len() as int) =~= tail);
}

/// Keys with a name pass but for Escape and the two chords that they are part of:
/// the space bar without Ctrl or the command key, and Tab without Ctrl or with
/// Shift. So does a key that types several characters or none.
pub proof fn named_keys_pass_without_their_chord(v: ShellView, m: Modifiers, key: Key)
    requires
        !v.picker.open,
    ensures
        key == Key::Named(NamedKey::Tab) && (!m.control || m.shift) ==> !v.key_result(
            true,
            m,
            key,
        ).consumed,
        key == Key::Named(NamedKey::Space) && !m.control && !m.command ==> !v.key_result(
            true,
            m,
            key,
        ).consumed,
        key is Named && key != Key::Named(NamedKey::Escape) && key != Key::Named(NamedKey::Space)
            && key != Key::Named(NamedKey::Tab) ==> !v.key_result(true, m, key).consumed,
        key == Key::Other ==> !v.key_result(true, m, key).consumed,
        key matches Key::Character(s) && s@.len() != 1 ==> !v.key_result(true, m, key).consumed,
{
}

/// Alt makes no difference to what a key does, and the command key only to the
/// space bar.
pub proof fn other_modifiers_make_no_difference(
    v: ShellView,
    m: Modifiers,
    key: Key,
    pressed: bool,
    alt: bool,
    command: bool,
)
    ensures
        v.key_result(pressed, Modifiers { alt, ..m }, key) == v.key_result(pressed, m, key),
        key != Key::Named(NamedKey::Space) ==> v.key_result(
            pressed,
            Modifiers { command, ..m },
            key,
        ) == v.key_result(pressed, m, key),
{
}

/// In the open picker every other key is taken and does nothing: releases, Ctrl
/// with another character, and keys that neither move nor type.
pub proof fn other_keys_do_nothing_in_the_picker(v: ShellView, m: Modifiers, key: Key, c: char)
    requires
        v.picker.open,
    ensures
        only_effects(v.key_result(false, m, key), v, nothing()),
        types(key, c) && m.control && c != 'j' && c != 'J' && c != 'k' && c != 'K'
            ==> only_effects(v.key_result(true, m, key), v, nothing()),
        key == Key::Named(NamedKey::Tab) || key == Key::Named(NamedKey::ArrowLeft) || key
            == Key::Named(NamedKey::ArrowRight) || key == Key::Named(NamedKey::Delete) || key
            == Key::Named(NamedKey::Home) || key == Key::Named(NamedKey::End) || key == Key::Other
            ==> only_effects(v.key_result(true, m, key), v, nothing()),
{
}

/// A key that types several characters types them one after the other.
pub proof fn characters_are_typed_in_order(p: PickerView, s: Seq<char>, c: char)
    ensures
        typed_all(p, s.push(c)) == typed_all(p, s).typed(c),
        typed_all(p, Seq::empty()) == p,
{
    assert(s.push(c).drop_last() =~= s);
}

/// Before the chrome can show a dialog the chords of the made-up ones pass.
pub proof fn sample_chords_pass_before_the_chrome_is_ready(v: ShellView, m: Modifiers, key: Key)
    requires
        !v.picker.open,
        !v.chrome_ready,
        types(key, 'a') || types(key, 'A') || types(key, 'x') || types(key, 'X'),
    ensures
        !v.key_result(true, m, key).consumed,
{
}

} // verus!
