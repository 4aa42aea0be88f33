use lifekit::conf::edit::ThemeText;
use lifekit::conf::editor::{Editor, EditorEffect, SaveOutcome};
use lifekit::conf::keys::{Command, EditCommand};
use lifekit::conf::model::Focus;
use lifekit::conf::theme::{Cursor, Font, Idle, Meta, Palette, Screen};

fn theme() -> ThemeText {
    ThemeText {
        meta: Meta { schema_version: 1, active_preset: "olive".into() },
        palette: Palette {
            bg: "#121412".into(),
            surface: "#171a14".into(),
            border: "#39412b".into(),
            text: "#7b8c5a".into(),
            accent: "#a4c94b".into(),
            warn: "#c7d17a".into(),
            urgent: "#8a3b2e".into(),
        },
        wall_fps: 30,
        wall_glyph_mode: "custom".into(),
        wall_char: "#".into(),
        wall_mature: "#66744c".into(),
        wall_newborn: "#87a540".into(),
        note_border_style: "single".into(),
        note_critical_border_style: "double".into(),
        note_position: "top-right".into(),
        idle: Idle { lock_minutes: 10, screen_off_minutes: 15 },
        cursor: Cursor { theme: "phinger-cursors-light".into(), size: 24 },
        font: Font { family: "ShureTechMono Nerd Font".into(), size: 12 },
        lifelock: Screen::default(),
        lifegreet: Screen::default(),
    }
}

/// The editor with the cursor on the lock screen's accent (Lifelock, field 3).
fn at_lock_accent() -> Editor {
    let mut e = Editor::new(theme());
    for _ in 0..4 {
        assert!(e.on_command(Command::MoveDown).is_empty());
    }
    e.on_command(Command::FocusFields);
    for _ in 0..3 {
        e.on_command(Command::MoveDown);
    }
    assert_eq!((e.sel.cat, e.sel.field, e.sel.focus), (4, 3, Focus::Fields));
    e
}

fn type_value(e: &mut Editor, text: &str) -> Vec<EditorEffect> {
    assert!(e.on_command(Command::BeginEdit).is_empty());
    while e.editing.as_deref().map_or(false, |b| !b.is_empty()) {
        e.on_edit(EditCommand::Erase, "");
    }
    e.on_edit(EditCommand::Type, text);
    e.on_edit(EditCommand::Commit, "")
}

#[test]
fn new_editor_is_clean() {
    let mut t = theme();
    t.meta.active_preset = String::new();
    let e = Editor::new(t);
    assert!(!e.dirty);
    assert!(e.editing.is_none());
    assert_eq!(e.theme.meta.active_preset, "custom");
    assert_eq!(e.saved.meta.active_preset, "custom");
    assert_eq!((e.sel.cat, e.sel.field, e.sel.focus), (0, 0, Focus::Cats));
}

#[test]
fn committed_value_is_unsaved() {
    let mut e = at_lock_accent();
    assert_eq!(e.on_command(Command::BeginEdit), vec![]);
    assert_eq!(e.editing.as_deref(), Some("#a4c94b"));
    assert_eq!(e.status, "type a value · Enter commit · Esc cancel");
    e.on_edit(EditCommand::Cancel, "");
    let fx = type_value(&mut e, " #FF0000 ");
    assert_eq!(fx, vec![EditorEffect::Preview]);
    assert_eq!(e.theme.lifelock.accent, "#ff0000");
    assert!(!e.theme.lifelock.link);
    assert_eq!(e.theme.lifelock.mature, "#66744c");
    assert!(e.theme.lifegreet.link);
    assert_eq!(e.theme.lifegreet.accent, "#a4c94b");
    assert_eq!(e.theme.palette.accent, "#a4c94b");
    assert_eq!(e.theme.meta.active_preset, "olive");
    assert!(e.dirty);
    assert_eq!(e.saved.lifelock.accent, "#a4c94b");
    assert!(e.editing.is_none());
}

#[test]
fn abort_restores_the_saved_theme() {
    let mut e = at_lock_accent();
    type_value(&mut e, "#ff0000");
    assert_eq!(e.on_command(Command::Abort), vec![EditorEffect::Preview, EditorEffect::Quit]);
    assert_eq!(e.theme.lifelock.accent, "#a4c94b");
    assert!(e.theme.lifelock.link);
    let mut clean = at_lock_accent();
    assert_eq!(clean.on_command(Command::Abort), vec![EditorEffect::Quit]);
}

#[test]
fn quit_commits_only_unsaved_changes() {
    let mut e = at_lock_accent();
    assert_eq!(e.on_command(Command::SaveAndQuit), vec![EditorEffect::Quit]);
    type_value(&mut e, "#ff0000");
    assert_eq!(e.on_command(Command::SaveAndQuit), vec![EditorEffect::Commit, EditorEffect::Quit]);
}

#[test]
fn save_makes_the_theme_the_reference() {
    let mut e = at_lock_accent();
    type_value(&mut e, "#ff0000");
    assert_eq!(e.on_command(Command::Save), vec![EditorEffect::Commit]);
    e.save_done(SaveOutcome::Saved(None));
    assert!(!e.dirty);
    assert_eq!(e.status, "saved + applied");
    assert_eq!(e.saved.lifelock.accent, "#ff0000");
    e.save_done(SaveOutcome::Saved(Some("greeter: unchanged".into())));
    assert_eq!(e.status, "greeter: unchanged");
    e.save_done(SaveOutcome::Failed("disk full".into()));
    assert_eq!(e.status, "save failed: disk full");
}

#[test]
fn fractional_fields_go_to_the_caller() {
    let mut e = Editor::new(theme());
    e.on_command(Command::MoveDown);
    e.on_command(Command::MoveDown);
    e.on_command(Command::FocusFields);
    assert_eq!(e.on_command(Command::Nudge(1)), vec![EditorEffect::StepFraction(1), EditorEffect::Preview]);
    assert!(e.dirty);
    assert_eq!(e.on_command(Command::BeginEdit), vec![EditorEffect::SeedFraction]);
    e.seed("0.4".into());
    assert_eq!(e.editing.as_deref(), Some("0.4"));
    e.on_edit(EditCommand::Type, "5");
    assert_eq!(e.on_edit(EditCommand::Commit, ""), vec![EditorEffect::SetFraction("0.45".into()), EditorEffect::Preview]);
}

#[test]
fn preset_step_is_applied_by_the_caller() {
    let mut e = Editor::new(theme());
    e.on_command(Command::FocusFields);
    let fx = e.on_command(Command::Nudge(1));
    assert!(matches!(fx[0], EditorEffect::ApplyPreset(_)));
    assert_eq!(fx[1], EditorEffect::Preview);
    assert!(e.dirty);
}

#[test]
fn cancelled_edit_changes_nothing() {
    let mut e = at_lock_accent();
    e.on_command(Command::BeginEdit);
    e.on_edit(EditCommand::Type, "zz");
    assert!(e.on_edit(EditCommand::Cancel, "").is_empty());
    assert_eq!(e.status, "edit cancelled");
    assert!(!e.dirty);
    assert_eq!(e.theme.lifelock.accent, "#a4c94b");
}

#[test]
fn palette_edit_marks_custom_and_linked_screens_follow() {
    let mut e = Editor::new(theme());
    e.on_command(Command::MoveDown); // Palette
    e.on_command(Command::FocusFields);
    for _ in 0..4 {
        e.on_command(Command::MoveDown); // accent
    }
    assert_eq!((e.sel.cat, e.sel.field), (1, 4));
    assert_eq!(type_value(&mut e, "#112233"), vec![EditorEffect::Preview]);
    assert_eq!(e.theme.palette.accent, "#112233");
    assert_eq!(e.theme.meta.active_preset, "custom");
    assert_eq!(e.theme.lifelock.accent, "#112233");
    assert_eq!(e.theme.lifegreet.accent, "#112233");
    assert_eq!(e.saved.lifelock.accent, "#a4c94b");
}
