use lifekit::note::cfg::Cfg;
use lifekit::note::state::{
    compose_note, effective_timeout, new_history, NoteData, Queue, Urgency, HISTORY_CAP,
};

fn note(id: u32) -> NoteData {
    NoteData {
        id,
        app: "t".into(),
        summary: "s".into(),
        body: String::new(),
        urgency: Urgency::Normal,
        timeout_ms: -1,
    }
}

#[test]
fn upsert_replaces_in_place() {
    let cfg = Cfg::new();
    let mut q = Queue::new(new_history());
    for id in [1, 2, 3] {
        let d = note(id);
        let g = compose_note(&cfg, &d);
        q.upsert(d, g);
    }
    let mut d = note(2);
    d.summary = "updated".into();
    let g = compose_note(&cfg, &d);
    assert!(q.upsert(d, g));
    let ids: Vec<u32> = q.notes.iter().map(|n| n.data.id).collect();
    assert_eq!(ids, vec![3, 2, 1]);
    assert_eq!(q.notes[1].data.summary, "updated");
}

#[test]
fn remove_records_history() {
    let cfg = Cfg::new();
    let mut q = Queue::new(new_history());
    let d = note(7);
    let g = compose_note(&cfg, &d);
    q.upsert(d, g);
    assert!(q.remove(7, true));
    assert!(!q.remove(7, true));
    assert_eq!(q.history.entries.len(), 1);
}

#[test]
fn history_is_one_line_and_counts_unseen() {
    let cfg = Cfg::new();
    let mut q = Queue::new(new_history());
    let mut d = note(1);
    d.summary = "From: bob\nSubject: hi".into();
    d.body = "<b>line1</b>\nline2".into();
    let g = compose_note(&cfg, &d);
    q.upsert(d, g);
    q.remove(1, false);
    assert_eq!(q.history.entries[0].summary, "From: bob Subject: hi");
    assert_eq!(q.history.entries[0].body, "line1 line2");
    assert_eq!(q.history.unseen, 1);
    let d = note(2);
    let g = compose_note(&cfg, &d);
    q.upsert(d, g);
    q.remove(2, true);
    assert_eq!(q.history.entries.len(), 2);
    assert_eq!(q.history.unseen, 1);
}

#[test]
fn timeouts() {
    let cfg = Cfg::new();
    let mut d = note(1);
    assert_eq!(effective_timeout(&cfg, &d), Some(3000));
    d.timeout_ms = 2000;
    assert_eq!(effective_timeout(&cfg, &d), Some(2000));
    d.timeout_ms = 0;
    assert_eq!(effective_timeout(&cfg, &d), None);
    d.urgency = Urgency::Critical;
    d.timeout_ms = 2000;
    assert_eq!(effective_timeout(&cfg, &d), None);
}

#[test]
fn history_ring_keeps_newest_up_to_cap() {
    let cfg = Cfg::new();
    let mut q = Queue::new(new_history());
    for id in 0..(HISTORY_CAP as u32 + 5) {
        let mut d = note(id);
        d.summary = format!("n{}", id);
        let g = compose_note(&cfg, &d);
        q.upsert(d, g);
        assert!(q.remove(id, false));
    }
    assert_eq!(q.history.entries.len(), HISTORY_CAP);
    assert_eq!(q.history.entries[0].summary, format!("n{}", HISTORY_CAP + 4));
    assert_eq!(q.history.unseen, HISTORY_CAP as u32 + 5);
}

#[test]
fn visible_takes_newest_prefix() {
    let cfg = Cfg::new();
    let mut q = Queue::new(new_history());
    for id in [1, 2, 3, 4] {
        let d = note(id);
        let g = compose_note(&cfg, &d);
        q.upsert(d, g);
    }
    let ids: Vec<u32> = q.visible(2).iter().map(|n| n.data.id).collect();
    assert_eq!(ids, vec![4, 3]);
    assert_eq!(q.visible(10).len(), 4);
}

#[test]
fn urgency_hint_bytes() {
    assert_eq!(Urgency::from_hint(0), Urgency::Low);
    assert_eq!(Urgency::from_hint(1), Urgency::Normal);
    assert_eq!(Urgency::from_hint(2), Urgency::Critical);
    assert_eq!(Urgency::from_hint(7), Urgency::Normal);
}

#[test]
fn critical_uses_critical_frame_style() {
    let mut cfg = Cfg::new();
    assert!(cfg.set("critical-border-style", "heavy"));
    let mut d = note(1);
    d.urgency = Urgency::Critical;
    let g = compose_note(&cfg, &d);
    assert_eq!(g[0][0].0, '┏');
    d.urgency = Urgency::Normal;
    assert_eq!(compose_note(&cfg, &d)[0][0].0, '┌');
}
