use mote_shell::picker::{
    fuzzy_score, EntryKind, PickerEntry, PickerState, SessionTab, TabState,
};

fn entry(id: u64, title: &str, url: &str, active: bool) -> PickerEntry {
    PickerEntry {
        id,
        title: title.to_owned(),
        url: url.to_owned(),
        kind: if active { EntryKind::Active } else { EntryKind::Hidden },
        is_pinned: false,
    }
}

#[test]
fn fuzzy_non_subsequence_is_none() {
    assert!(fuzzy_score("github", "xyz").is_none());
    assert!(fuzzy_score("github", "ghz").is_none());
}

#[test]
fn fuzzy_subsequence_matches() {
    assert!(fuzzy_score("github.com", "ghb").is_some());
    assert!(fuzzy_score("GitHub", "git").is_some());
}

#[test]
fn fuzzy_consecutive_outscores_scattered() {
    let consec = fuzzy_score("github", "git").unwrap();
    let scattered = fuzzy_score("graphite", "git").unwrap();
    assert!(
        consec > scattered,
        "consecutive {consec} should beat scattered {scattered}"
    );
}

#[test]
fn fuzzy_start_match_bonus() {
    let at_start = fuzzy_score("rust-lang", "rust").unwrap();
    let mid = fuzzy_score("trust-rust", "rust").unwrap();
    assert!(at_start > mid, "start {at_start} should beat mid {mid}");
}

#[test]
fn empty_query_preserves_base_ranking() {
    let mut p = PickerState::default();
    p.open(vec![
        entry(1, "Active", "https://a.com", true),
        entry(2, "Hidden", "https://b.com", false),
    ]);
    let titles: Vec<_> = p.filtered().iter().map(|m| m.entry.title.clone()).collect();
    assert_eq!(titles, vec!["Active", "Hidden"]);
}

#[test]
fn query_filters_to_matches_only() {
    let mut p = PickerState::default();
    p.open(vec![
        entry(1, "GitHub", "https://github.com", true),
        entry(2, "GitLab", "https://gitlab.com", false),
        entry(3, "Reddit", "https://reddit.com", false),
    ]);
    for c in "git".chars() {
        p.push_char(c);
    }
    let ids: Vec<u64> = p.filtered().iter().map(|m| m.entry.id).collect();
    assert_eq!(ids.len(), 2);
    assert!(ids.contains(&1));
    assert!(ids.contains(&2));
    assert!(!ids.contains(&3));
}

#[test]
fn query_matches_url_not_just_title() {
    let mut p = PickerState::default();
    p.open(vec![entry(1, "Untitled", "https://rust-lang.org", true)]);
    for c in "rust".chars() {
        p.push_char(c);
    }
    assert_eq!(p.filtered().len(), 1);
}

#[test]
fn ranking_breaks_score_ties_by_base_rank() {
    let mut p = PickerState::default();
    p.open(vec![
        entry(1, "docs", "https://a.com", true),
        entry(2, "docs", "https://b.com", false),
    ]);
    for c in "docs".chars() {
        p.push_char(c);
    }
    let first = p.filtered();
    assert_eq!(first[0].entry.id, 1);
}

#[test]
fn selection_moves_and_wraps() {
    let mut p = PickerState::default();
    p.open(vec![
        entry(1, "a", "https://a.com", true),
        entry(2, "b", "https://b.com", true),
    ]);
    assert_eq!(p.selected_entry().unwrap().id, 1);
    p.move_down();
    assert_eq!(p.selected_entry().unwrap().id, 2);
    p.move_down();
    assert_eq!(p.selected_entry().unwrap().id, 1);
    p.move_up();
    assert_eq!(p.selected_entry().unwrap().id, 2);
}

#[test]
fn selection_clamps_when_filter_shrinks() {
    let mut p = PickerState::default();
    p.open(vec![
        entry(1, "alpha", "https://a.com", true),
        entry(2, "beta", "https://b.com", true),
    ]);
    p.move_down();
    assert_eq!(p.selected_entry().unwrap().id, 2);
    for c in "alp".chars() {
        p.push_char(c);
    }
    assert_eq!(p.filtered().len(), 1);
    assert_eq!(p.selected_entry().unwrap().id, 1);
}

#[test]
fn backspace_widens_filter() {
    let mut p = PickerState::default();
    p.open(vec![
        entry(1, "alpha", "https://a.com", true),
        entry(2, "beta", "https://b.com", true),
    ]);
    for c in "alp".chars() {
        p.push_char(c);
    }
    assert_eq!(p.filtered().len(), 1);
    p.backspace();
    p.backspace();
    p.backspace();
    assert_eq!(p.query(), "");
    assert_eq!(p.filtered().len(), 2);
}

#[test]
fn close_resets_state() {
    let mut p = PickerState::default();
    p.open(vec![entry(1, "a", "https://a.com", true)]);
    for c in "a".chars() {
        p.push_char(c);
    }
    p.close();
    assert!(!p.is_open());
    assert_eq!(p.query(), "");
    assert!(p.selected_entry().is_none());
}

#[test]
fn no_match_yields_empty_and_no_selection() {
    let mut p = PickerState::default();
    p.open(vec![entry(1, "github", "https://github.com", true)]);
    for c in "zzz".chars() {
        p.push_char(c);
    }
    assert_eq!(p.filtered().len(), 0);
    assert!(p.selected_entry().is_none());
}

#[test]
fn rows_json_marks_selection_and_active() {
    let mut p = PickerState::default();
    p.open(vec![
        entry(1, "Alpha", "https://a.com", true),
        entry(2, "Beta", "https://b.com", false),
    ]);
    let json = p.rows_json();
    assert!(json.contains("\"title\":\"Alpha\""));
    assert!(json.contains("\"sel\":true"));
    assert!(json.contains("\"active\":false"));
    assert!(json.contains("\"cat\":\"active\""));
    assert!(json.contains("\"cat\":\"hidden\""));
}

fn session_tab(id: u64, url: &str) -> SessionTab {
    SessionTab {
        id,
        url: url.to_owned(),
        title: None,
        state: TabState::Active,
        is_discarded: false,
        hold: false,
        is_pinned: false,
    }
}

#[test]
fn from_tab_classifies_states() {
    let mut active = session_tab(1, "https://a.com");
    active.title = Some("A".into());
    let a = PickerEntry::from_tab(&active);
    assert_eq!(a.kind, EntryKind::Active);
    assert!(a.is_active());
    assert_eq!(a.title, "A");

    let mut hidden = session_tab(2, "https://b.com");
    hidden.state = TabState::Hidden;
    hidden.hold = true;
    let h = PickerEntry::from_tab(&hidden);
    assert!(!h.is_active());
    assert_eq!(h.kind, EntryKind::Held);
    assert_eq!(h.title, "https://b.com");

    hidden.hold = false;
    assert_eq!(PickerEntry::from_tab(&hidden).kind, EntryKind::Hidden);
    hidden.state = TabState::Closed;
    assert_eq!(PickerEntry::from_tab(&hidden).kind, EntryKind::Hidden);
    active.is_discarded = true;
    active.title = Some(String::new());
    active.is_pinned = true;
    let idle = PickerEntry::from_tab(&active);
    assert_eq!(idle.kind, EntryKind::Idle);
    assert!(idle.is_active());
    assert!(idle.is_pinned);
    assert_eq!(idle.title, "https://a.com");
}

#[test]
fn scores_add_up() {
    assert_eq!(fuzzy_score("anything", ""), Some(0));
    assert_eq!(fuzzy_score("git", "git"), Some(1 + 5 + 1 + 4 + 1 + 4));
    assert_eq!(fuzzy_score("a git", "g"), Some(1 + 3));
    assert_eq!(fuzzy_score("xgit", "g"), Some(1));
    assert_eq!(fuzzy_score("GITHUB", "Hub"), Some(1 + 1 + 4 + 1 + 4));
    assert_eq!(fuzzy_score("\u{130}x", "\u{130}"), Some(1 + 5 + 1 + 4));
    assert_eq!(fuzzy_score("", "a"), None);
}

#[test]
fn labels_name_the_category() {
    let all = [
        (EntryKind::Active, "active"),
        (EntryKind::Idle, "idle"),
        (EntryKind::Hidden, "hidden"),
        (EntryKind::Held, "held"),
    ];
    for (kind, label) in all {
        assert_eq!(kind.label(), label);
    }
}

#[test]
fn better_matches_come_first() {
    let mut p = PickerState::default();
    p.open(vec![
        entry(1, "a x b", "https://one.test", true),
        entry(2, "ab", "https://two.test", true),
        entry(3, "none", "https://three.test/ab", false),
    ]);
    p.push_char('a');
    p.push_char('b');
    let ids: Vec<u64> = p.filtered().iter().map(|m| m.entry.id).collect();
    assert_eq!(ids, vec![2, 1, 3]);
    assert_eq!(p.filtered()[0].score, 11);
    assert_eq!(p.filtered()[0].rank, 1);
}

#[test]
fn rows_are_escaped() {
    let mut p = PickerState::default();
    p.open(vec![entry(1, "</script>\"", "https://a.com", true)]);
    assert_eq!(
        p.rows_json(),
        "[{\"cat\":\"active\",\"title\":\"\\u003c/script>\\\"\",\"url\":\"https://a.com\",\
         \"sel\":true,\"active\":true}]"
    );
}
