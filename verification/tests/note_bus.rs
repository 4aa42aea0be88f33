use lifekit::note::bus::{history_line, note_from_call, parse_ctl, read_history, CtlCmd, IdSource};
use lifekit::note::state::{new_history, HistoryEntry, Urgency};

fn args(v: &[&str]) -> Vec<String> {
    v.iter().map(|s| s.to_string()).collect()
}

#[test]
fn ids_count_from_one_and_replacements_keep_theirs() {
    let mut ids = IdSource::new();
    assert_eq!(ids.assign(0), 1);
    assert_eq!(ids.assign(0), 2);
    assert_eq!(ids.assign(7), 7);
    assert_eq!(ids.assign(0), 3);
    ids.next = u32::MAX;
    assert_eq!(ids.assign(0), u32::MAX);
    assert_eq!(ids.next, 0);
}

#[test]
fn a_call_becomes_a_notification() {
    let d = note_from_call(5, "mail", "Hi", "body", Some(2), -1);
    assert_eq!(d.id, 5);
    assert_eq!(d.app, "mail");
    assert_eq!(d.urgency, Urgency::Critical);
    assert_eq!(d.timeout_ms, -1);
    assert_eq!(note_from_call(1, "a", "b", "", None, 0).urgency, Urgency::Normal);
    assert_eq!(note_from_call(1, "a", "b", "", Some(0), 0).urgency, Urgency::Low);
}

#[test]
fn reading_history_clears_unseen() {
    let mut h = new_history();
    h.entries.push_back(HistoryEntry { app: "a".into(), summary: "s".into(), body: "b".into() });
    h.unseen = 3;
    let (v, had) = read_history(&mut h);
    assert!(had);
    assert_eq!(v, vec![("a".to_string(), "s".to_string(), "b".to_string())]);
    assert_eq!(h.unseen, 0);
    let (_, again) = read_history(&mut h);
    assert!(!again);
}

#[test]
fn ctl_commands() {
    assert_eq!(parse_ctl(&args(&["dnd", "toggle"])), CtlCmd::DndToggle);
    assert_eq!(parse_ctl(&args(&["dnd", "on"])), CtlCmd::DndSet(true));
    assert_eq!(parse_ctl(&args(&["dnd", "off"])), CtlCmd::DndSet(false));
    assert_eq!(parse_ctl(&args(&["dnd", "get"])), CtlCmd::DndGet);
    assert_eq!(parse_ctl(&args(&["dnd", "maybe"])), CtlCmd::Usage);
    assert_eq!(parse_ctl(&args(&["dismiss-all"])), CtlCmd::DismissAll);
    assert_eq!(parse_ctl(&args(&["reload"])), CtlCmd::Reload);
    assert_eq!(parse_ctl(&args(&["history"])), CtlCmd::History);
    assert_eq!(parse_ctl(&args(&["unseen"])), CtlCmd::Unseen);
    assert_eq!(parse_ctl(&args(&[])), CtlCmd::Usage);
    assert_eq!(parse_ctl(&args(&["history", "x"])), CtlCmd::Usage);
}

#[test]
fn history_lines() {
    assert_eq!(history_line("mail", "Hi", ""), "[mail] Hi");
    assert_eq!(history_line("mail", "Hi", "there"), "[mail] Hi — there");
}
