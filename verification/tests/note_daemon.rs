use lifekit::note::cfg::{AnchorCorner, Cfg};
use lifekit::note::daemon::{hit_test, Band, NoteEffect, Notifier, INTER_GAP};
use lifekit::note::state::{new_history, AppEvent, NoteData, Urgency, REASON_CLOSED, REASON_DISMISSED, REASON_EXPIRED};

fn note(id: u32) -> NoteData {
    NoteData {
        id,
        app: "t".into(),
        summary: "s".into(),
        body: String::new(),
        urgency: Urgency::Normal,
        timeout_ms: -1,
    }
}

fn daemon(max_visible: usize) -> Notifier {
    let mut cfg = Cfg::new();
    cfg.max_visible = max_visible;
    Notifier::new(cfg, new_history())
}

fn arms(fx: &[NoteEffect]) -> Vec<(u32, u64, u64)> {
    fx.iter()
        .filter_map(|e| match e {
            NoteEffect::ArmTimer { id, gen, ms } => Some((*id, *gen, *ms)),
            _ => None,
        })
        .collect()
}

fn closes(fx: &[NoteEffect]) -> Vec<(u32, u32)> {
    fx.iter()
        .filter_map(|e| match e {
            NoteEffect::Closed { id, reason } => Some((*id, *reason)),
            _ => None,
        })
        .collect()
}

#[test]
fn a_shown_note_gets_a_timer_and_a_refresh() {
    let mut n = daemon(5);
    let fx = n.on_event(AppEvent::Notify(note(1)));
    assert_eq!(arms(&fx), vec![(1, 1, 3000)]);
    assert!(matches!(fx.last(), Some(NoteEffect::Refresh)));
    assert_eq!(n.queue.notes[0].deadline_gen, 1);
}

#[test]
fn hidden_notes_do_not_burn_their_timeout() {
    let mut n = daemon(2);
    for id in 1..=3 {
        n.on_event(AppEvent::Notify(note(id)));
    }
    // Newest first: 3 and 2 on screen, 1 displaced off screen.
    let ids: Vec<u32> = n.queue.notes.iter().map(|m| m.data.id).collect();
    assert_eq!(ids, vec![3, 2, 1]);
    assert_ne!(n.queue.notes[0].deadline_gen, 0);
    assert_ne!(n.queue.notes[1].deadline_gen, 0);
    assert_eq!(n.queue.notes[2].deadline_gen, 0);
    // The stale timer of note 1 (generation 1) no longer expires it.
    let fx = n.on_expiry(1, 1);
    assert!(fx.is_empty());
    assert_eq!(n.queue.notes.len(), 3);
}

#[test]
fn expiry_of_the_current_timer_closes_and_surfaces_the_next() {
    let mut n = daemon(1);
    n.on_event(AppEvent::Notify(note(1)));
    n.on_event(AppEvent::Notify(note(2)));
    let gen = n.queue.notes[0].deadline_gen;
    let fx = n.on_expiry(2, gen);
    assert_eq!(closes(&fx), vec![(2, REASON_EXPIRED)]);
    // Note 1 comes on screen and only now starts its clock.
    assert_eq!(arms(&fx).len(), 1);
    assert_eq!(arms(&fx)[0].0, 1);
    assert_eq!(n.queue.history.unseen, 1);
    assert!(matches!(fx[0], NoteEffect::PingBadge));
}

#[test]
fn a_replaced_visible_note_restarts_its_clock() {
    let mut n = daemon(5);
    n.on_event(AppEvent::Notify(note(4)));
    let first = n.queue.notes[0].deadline_gen;
    let mut d = note(4);
    d.summary = "progress".into();
    let fx = n.on_event(AppEvent::Notify(d));
    assert_eq!(n.queue.notes.len(), 1);
    assert_eq!(n.queue.notes[0].data.summary, "progress");
    let a = arms(&fx);
    assert_eq!(a.len(), 1);
    assert!(a[0].1 > first);
    assert_eq!(n.queue.notes[0].deadline_gen, a[0].1);
}

#[test]
fn do_not_disturb_goes_straight_to_history() {
    let mut n = daemon(5);
    assert!(n.on_event(AppEvent::DndChanged(true)).is_empty());
    let fx = n.on_event(AppEvent::Notify(note(9)));
    assert!(matches!(fx.as_slice(), [NoteEffect::PingBadge]));
    assert!(n.queue.notes.is_empty());
    assert_eq!(n.queue.history.entries.len(), 1);
    assert_eq!(n.queue.history.unseen, 1);
}

#[test]
fn close_reports_and_unknown_close_is_silent() {
    let mut n = daemon(5);
    n.on_event(AppEvent::Notify(note(1)));
    assert!(n.on_event(AppEvent::Close(77)).is_empty());
    let fx = n.on_event(AppEvent::Close(1));
    assert_eq!(closes(&fx), vec![(1, REASON_CLOSED)]);
    // Closed unseen: the badge is pinged first.
    assert!(matches!(fx[0], NoteEffect::PingBadge));
    assert_eq!(fx.iter().filter(|e| matches!(e, NoteEffect::PingBadge)).count(), 1);
    assert!(n.queue.notes.is_empty());
}

#[test]
fn dismiss_all_reports_every_note_newest_first() {
    let mut n = daemon(5);
    for id in 1..=3 {
        n.on_event(AppEvent::Notify(note(id)));
    }
    let fx = n.on_event(AppEvent::DismissAll);
    assert_eq!(closes(&fx), vec![(3, REASON_DISMISSED), (2, REASON_DISMISSED), (1, REASON_DISMISSED)]);
    assert!(n.queue.notes.is_empty());
    assert_eq!(n.queue.history.entries.len(), 3);
    assert_eq!(n.queue.history.unseen, 0);
}

#[test]
fn reload_is_handed_to_the_caller() {
    let mut n = daemon(5);
    let fx = n.on_event(AppEvent::Reload);
    assert!(matches!(fx.as_slice(), [NoteEffect::Reload]));
}

#[test]
fn bands_stack_against_the_right_edge() {
    let mut n = daemon(5);
    n.on_event(AppEvent::Notify(note(1)));
    n.on_event(AppEvent::Notify(note(2)));
    let (w, h) = n.surface_size(10, 20).unwrap();
    let ph = n.queue.notes[0].grid.len() * 20;
    assert_eq!(h, 2 * ph + INTER_GAP);
    let bands = n.bands(w + 30, 10, 20);
    assert_eq!(bands.len(), 2);
    assert_eq!(bands[0].id, 2);
    assert_eq!(bands[0].x1, w + 30);
    assert_eq!(bands[1].y0, ph + INTER_GAP);
    n.cfg.anchor = AnchorCorner::TopLeft;
    let left = n.bands(w + 30, 10, 20);
    assert_eq!(left[0].x0, 0);
}

#[test]
fn nothing_on_screen_means_no_surface() {
    let n = daemon(5);
    assert!(n.surface_size(10, 20).is_none());
}

#[test]
fn click_dismisses_the_popup_under_the_pointer() {
    let mut n = daemon(5);
    n.on_event(AppEvent::Notify(note(1)));
    n.on_event(AppEvent::Notify(note(2)));
    let bands = n.bands(400, 10, 20);
    assert_eq!(hit_test(&bands, 399, bands[1].y0), Some(1));
    assert_eq!(hit_test(&bands, 0, 0), None);
    let fx = n.click(&bands, 399, bands[1].y0 + 1);
    assert_eq!(closes(&fx), vec![(1, REASON_DISMISSED)]);
    // Dismissed by hand counts as seen: no badge ping.
    assert!(!fx.iter().any(|e| matches!(e, NoteEffect::PingBadge)));
    assert_eq!(n.queue.notes.len(), 1);
    let miss = n.click(&vec![Band { id: 2, x0: 0, y0: 0, x1: 1, y1: 1 }], 5, 5);
    assert!(miss.is_empty());
}

#[test]
fn restyle_reframes_and_follows_the_new_visible_count() {
    let mut n = daemon(5);
    for id in 1..=3 {
        n.on_event(AppEvent::Notify(note(id)));
    }
    let mut cfg = Cfg::new();
    cfg.max_visible = 1;
    cfg.max_width = 10;
    n.restyle(cfg);
    assert_eq!(n.queue.notes[0].grid[0].len(), n.queue.notes[1].grid[0].len());
    assert_ne!(n.queue.notes[0].deadline_gen, 0);
    assert_eq!(n.queue.notes[1].deadline_gen, 0);
    assert_eq!(n.queue.notes[2].deadline_gen, 0);
}
