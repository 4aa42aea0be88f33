//! The settings editor's state, shared by the terminal and graphical
//! front-ends: the theme being edited and the last saved one, the cursor,
//! the value being typed, whether there are unsaved changes, and the status
//! line. Each command changes that state and says what the front-end does
//! next: preview the theme live, commit it (regenerate, apply, save), hand
//! a fractional value or a preset to the caller, or quit.
use vstd::prelude::*;
use crate::chars::{chars_of, extend_chars, string_of};
use crate::conf::edit::{edit_spec, nudge_spec, outcome_spec, touches_palette, value_spec, Committed, Nudged, Shown, ThemeText};
use crate::conf::keys::{Command, EditCommand};
use crate::conf::model::{n_fields, Focus, Selection, N_CATS};
use crate::conf::theme::{follows, Cursor, Font, Meta, Palette, Screen};

verus! {

/// What the front-end does after a command, in order.
#[derive(Debug, PartialEq, Eq)]
pub enum EditorEffect {
    /// Regenerate the fast consumers from the theme and push colours live.
    Preview,
    /// Regenerate everything from the theme, apply it and save it; report
    /// how the save went with `save_done`.
    Commit,
    /// Leave the editor.
    Quit,
    /// Apply the preset at this index of the preset names to the theme.
    ApplyPreset(usize),
    /// Step the selected fractional field by this direction.
    StepFraction(i32),
    /// Set the selected fractional field from this typed text.
    SetFraction(String),
    /// Put the selected fractional field's text into the typing buffer
    /// with `seed`.
    SeedFraction,
}

/// How saving the theme went.
pub enum SaveOutcome {
    /// Saved; with the greeter's note, if applying touched it.
    Saved(Option<String>),
    /// Saving failed with this message.
    Failed(String),
}

pub struct Editor {
    pub theme: ThemeText,
    pub saved: ThemeText,
    pub sel: Selection,
    pub editing: Option<String>,
    pub dirty: bool,
    pub status: String,
}

/// `b` is `a` with its linked screens following the palette and the
/// wallpaper tints, nothing else changed.
pub open spec fn synced(a: ThemeText, b: ThemeText) -> bool {
    &&& b.lifelock.link == a.lifelock.link
    &&& b.lifegreet.link == a.lifegreet.link
    &&& a.lifelock.link ==> follows(b.lifelock, a.palette, a.wall_mature@, a.wall_newborn@)
    &&& !a.lifelock.link ==> b.lifelock == a.lifelock
    &&& a.lifegreet.link ==> follows(b.lifegreet, a.palette, a.wall_mature@, a.wall_newborn@)
    &&& !a.lifegreet.link ==> b.lifegreet == a.lifegreet
    &&& b == (ThemeText { lifelock: b.lifelock, lifegreet: b.lifegreet, ..a })
}

/// The cursor after moving down.
pub open spec fn moved_down(s: Selection) -> Selection {
    if s.focus == Focus::Cats {
        Selection { cat: ((s.cat + 1) % (N_CATS as int)) as usize, field: 0, focus: s.focus }
    } else {
        Selection { field: ((s.field + 1) % n_fields(s.cat as int)) as usize, ..s }
    }
}

/// The cursor after moving up.
pub open spec fn moved_up(s: Selection) -> Selection {
    if s.focus == Focus::Cats {
        Selection { cat: ((s.cat + N_CATS - 1) % (N_CATS as int)) as usize, field: 0, focus: s.focus }
    } else {
        Selection { field: ((s.field + n_fields(s.cat as int) - 1) % n_fields(s.cat as int)) as usize, ..s }
    }
}

/// What a step of the selected field asks of the front-end.
pub open spec fn nudge_fx(r: Nudged, dir: i32) -> Seq<EditorEffect> {
    match r {
        Nudged::Applied => seq![EditorEffect::Preview],
        Nudged::Preset(i) => seq![EditorEffect::ApplyPreset(i), EditorEffect::Preview],
        Nudged::Fractional => seq![EditorEffect::StepFraction(dir), EditorEffect::Preview],
        Nudged::Ignored => Seq::empty(),
    }
}

pub open spec fn greeting() -> Seq<char> {
    "j/k move · Tab pane · Enter edit · +/- adjust · s save · q quit"@
}

pub open spec fn typing_hint() -> Seq<char> {
    "type a value · Enter commit · Esc cancel"@
}

fn copy_screen(s: &Screen) -> (r: Screen)
    ensures
        r == *s,
{
    Screen {
        link: s.link,
        mature: s.mature.clone(),
        newborn: s.newborn.clone(),
        accent: s.accent.clone(),
        urgent: s.urgent.clone(),
        text: s.text.clone(),
    }
}

fn copy_palette(p: &Palette) -> (r: Palette)
    ensures
        r == *p,
{
    Palette {
        bg: p.bg.clone(),
        surface: p.surface.clone(),
        border: p.border.clone(),
        text: p.text.clone(),
        accent: p.accent.clone(),
        warn: p.warn.clone(),
        urgent: p.urgent.clone(),
    }
}

/// A copy of `t`.
fn copy_theme(t: &ThemeText) -> (r: ThemeText)
    ensures
        r == *t,
{
    ThemeText {
        meta: Meta { schema_version: t.meta.schema_version, active_preset: t.meta.active_preset.clone() },
        palette: copy_palette(&t.palette),
        wall_fps: t.wall_fps,
        wall_glyph_mode: t.wall_glyph_mode.clone(),
        wall_char: t.wall_char.clone(),
        wall_mature: t.wall_mature.clone(),
        wall_newborn: t.wall_newborn.clone(),
        note_border_style: t.note_border_style.clone(),
        note_critical_border_style: t.note_critical_border_style.clone(),
        note_position: t.note_position.clone(),
        idle: t.idle,
        cursor: Cursor { theme: t.cursor.theme.clone(), size: t.cursor.size },
        font: Font { family: t.font.family.clone(), size: t.font.size },
        lifelock: copy_screen(&t.lifelock),
        lifegreet: copy_screen(&t.lifegreet),
    }
}

impl Editor {
    pub open spec fn wf(&self) -> bool {
        self.sel.wf()
    }

    /// Start editing `theme`: a theme without a preset name is `custom`,
    /// linked screens follow the palette, and that is what counts as saved.
    pub fn new(theme: ThemeText) -> (e: Editor)
        ensures
            e.wf(),
            e.sel.cat == 0 && e.sel.field == 0 && e.sel.focus == Focus::Cats,
            e.saved == e.theme,
            e.editing is None,
            !e.dirty,
            e.status@ == greeting(),
            e.theme.meta.active_preset@ == (if theme.meta.active_preset@.len() == 0 {
                "custom"@
            } else {
                theme.meta.active_preset@
            }),
            synced(
                ThemeText { meta: e.theme.meta, ..theme },
                e.theme,
            ),
            e.theme.meta.schema_version == theme.meta.schema_version,
    {
        let mut theme = theme;
        if chars_of(theme.meta.active_preset.as_str()).len() == 0 {
            theme.meta.active_preset = String::from_str("custom");
        }
        theme.sync_linked();
        let saved = copy_theme(&theme);
        Editor {
            theme,
            saved,
            sel: Selection::new(),
            editing: None,
            dirty: false,
            status: String::from_str("j/k move · Tab pane · Enter edit · +/- adjust · s save · q quit"),
        }
    }

    /// Carry out a command given outside typing.
    pub fn on_command(&mut self, c: Command) -> (fx: Vec<EditorEffect>)
        requires
            old(self).wf(),
        ensures
            final(self).wf(),
            final(self).saved == old(self).saved,
            match c {
                Command::Abort => {
                    &&& *final(self) == (Editor { theme: final(self).theme, ..*old(self) })
                    &&& if old(self).dirty {
                        synced(old(self).saved, final(self).theme)
                    } else {
                        final(self).theme == old(self).theme
                    }
                    &&& fx@ == (if old(self).dirty {
                        seq![EditorEffect::Preview, EditorEffect::Quit]
                    } else {
                        seq![EditorEffect::Quit]
                    })
                },
                Command::SaveAndQuit => {
                    &&& *final(self) == (Editor { theme: final(self).theme, ..*old(self) })
                    &&& if old(self).dirty {
                        synced(old(self).theme, final(self).theme) && fx@ == seq![
                            EditorEffect::Commit,
                            EditorEffect::Quit,
                        ]
                    } else {
                        final(self).theme == old(self).theme && fx@ == seq![EditorEffect::Quit]
                    }
                },
                Command::Save => {
                    &&& *final(self) == (Editor { theme: final(self).theme, ..*old(self) })
                    &&& synced(old(self).theme, final(self).theme)
                    &&& fx@ == seq![EditorEffect::Commit]
                },
                Command::ToggleFocus => {
                    &&& *final(self) == (Editor {
                        sel: Selection {
                            focus: if old(self).sel.focus == Focus::Cats {
                                Focus::Fields
                            } else {
                                Focus::Cats
                            },
                            ..old(self).sel
                        },
                        ..*old(self)
                    })
                    &&& fx@.len() == 0
                },
                Command::MoveDown => *final(self) == (Editor { sel: moved_down(old(self).sel), ..*old(self) })
                    && fx@.len() == 0,
                Command::MoveUp => *final(self) == (Editor { sel: moved_up(old(self).sel), ..*old(self) })
                    && fx@.len() == 0,
                Command::FocusFields => *final(self) == (Editor {
                    sel: Selection { focus: Focus::Fields, ..old(self).sel },
                    ..*old(self)
                }) && fx@.len() == 0,
                Command::FocusCats => *final(self) == (Editor {
                    sel: Selection { focus: Focus::Cats, ..old(self).sel },
                    ..*old(self)
                }) && fx@.len() == 0,
                Command::Nudge(dir) => exists|r: Nudged, mid: ThemeText|
                    {
                        &&& nudge_spec(
                            old(self).theme,
                            mid,
                            old(self).sel.cat as int,
                            old(self).sel.field as int,
                            dir as int,
                            r,
                        )
                        &&& if r is Ignored {
                            final(self).theme == mid
                        } else {
                            synced(mid, final(self).theme)
                        }
                        &&& fx@ == nudge_fx(r, dir)
                        &&& *final(self) == (Editor {
                            theme: final(self).theme,
                            dirty: old(self).dirty || !(r is Ignored),
                            ..*old(self)
                        })
                    },
                Command::BeginEdit => {
                    &&& final(self).theme == old(self).theme
                    &&& final(self).sel == old(self).sel
                    &&& final(self).dirty == old(self).dirty
                    &&& final(self).status@ == typing_hint()
                    &&& match value_spec(old(self).theme, old(self).sel.cat as int, old(self).sel.field as int) {
                        None => final(self).editing matches Some(e) && e@.len() == 0 && fx@ == seq![
                            EditorEffect::SeedFraction,
                        ],
                        Some(v) => final(self).editing matches Some(e) && e@ == v && fx@.len() == 0,
                    }
                },
                Command::Nothing => *final(self) == *old(self) && fx@.len() == 0,
            },
    {
        let mut fx: Vec<EditorEffect> = Vec::new();
        match c {
            Command::Abort => {
                if self.dirty {
                    self.theme = copy_theme(&self.saved);
                    self.theme.sync_linked();
                    fx.push(EditorEffect::Preview);
                }
                fx.push(EditorEffect::Quit);
            },
            Command::SaveAndQuit => {
                if self.dirty {
                    self.theme.sync_linked();
                    fx.push(EditorEffect::Commit);
                }
                fx.push(EditorEffect::Quit);
            },
            Command::Save => {
                self.theme.sync_linked();
                fx.push(EditorEffect::Commit);
            },
            Command::ToggleFocus => {
                self.sel.toggle_focus();
            },
            Command::MoveDown => {
                self.sel.move_down();
            },
            Command::MoveUp => {
                self.sel.move_up();
            },
            Command::FocusFields => {
                self.sel.focus = Focus::Fields;
            },
            Command::FocusCats => {
                self.sel.focus = Focus::Cats;
            },
            Command::Nudge(dir) => {
                let r = self.theme.nudge(self.sel.cat, self.sel.field, dir);
                let ghost mid = self.theme;
                match r {
                    Nudged::Ignored => {},
                    _ => {
                        self.theme.sync_linked();
                    },
                }
                match r {
                    Nudged::Applied => {
                        self.dirty = true;
                        fx.push(EditorEffect::Preview);
                    },
                    Nudged::Preset(i) => {
                        self.dirty = true;
                        fx.push(EditorEffect::ApplyPreset(i));
                        fx.push(EditorEffect::Preview);
                    },
                    Nudged::Fractional => {
                        self.dirty = true;
                        fx.push(EditorEffect::StepFraction(dir));
                        fx.push(EditorEffect::Preview);
                    },
                    Nudged::Ignored => {},
                }
                assert(fx@ =~= nudge_fx(r, dir));
                assert(nudge_spec(
                    old(self).theme,
                    mid,
                    old(self).sel.cat as int,
                    old(self).sel.field as int,
                    dir as int,
                    r,
                ));
            },
            Command::BeginEdit => {
                match self.theme.value(self.sel.cat, self.sel.field) {
                    Shown::Text(s) => {
                        self.editing = Some(s);
                    },
                    Shown::Fraction => {
                        self.editing = Some(String::new());
                        fx.push(EditorEffect::SeedFraction);
                    },
                }
                self.status = String::from_str("type a value · Enter commit · Esc cancel");
            },
            Command::Nothing => {},
        }
        fx
    }

    /// Put the text of a fractional value into the typing buffer, once
    /// typing has begun.
    pub fn seed(&mut self, text: String)
        ensures
            old(self).editing is Some ==> *final(self) == (Editor { editing: Some(text), ..*old(self) }),
            old(self).editing is None ==> *final(self) == *old(self),
    {
        if self.editing.is_some() {
            self.editing = Some(text);
        }
    }

    /// Carry out a command given while typing a value (`text` is the
    /// typed key's text). Committing applies the text to the selected field
    /// and counts as an unsaved change; cancelling drops it.
    pub fn on_edit(&mut self, c: EditCommand, text: &str) -> (fx: Vec<EditorEffect>)
        requires
            old(self).wf(),
        ensures
            final(self).wf(),
            final(self).saved == old(self).saved,
            final(self).sel == old(self).sel,
            match old(self).editing {
                None => *final(self) == *old(self) && fx@.len() == 0,
                Some(buf) => match c {
                    EditCommand::Commit => {
                        let (cat, field) = (old(self).sel.cat as int, old(self).sel.field as int);
                        &&& exists|mid: ThemeText|
                            {
                                &&& edit_spec(old(self).theme, mid, cat, field, crate::chars::trim(buf@))
                                &&& touches_palette(cat, field) ==> mid.meta.active_preset@ == "custom"@
                                    && mid.meta.schema_version == old(self).theme.meta.schema_version
                                &&& !touches_palette(cat, field) ==> mid.meta == old(self).theme.meta
                                &&& synced(mid, final(self).theme)
                            }
                        &&& final(self).editing is None
                        &&& final(self).dirty
                        &&& final(self).status == old(self).status
                        &&& fx@ == (if outcome_spec(cat, field) == Committed::Fractional {
                            seq![EditorEffect::SetFraction(buf), EditorEffect::Preview]
                        } else {
                            seq![EditorEffect::Preview]
                        })
                    },
                    EditCommand::Cancel => {
                        &&& *final(self) == (Editor { editing: None, status: final(self).status, ..*old(self) })
                        &&& final(self).status@ == "edit cancelled"@
                        &&& fx@.len() == 0
                    },
                    EditCommand::Erase => {
                        &&& *final(self) == (Editor { editing: final(self).editing, ..*old(self) })
                        &&& final(self).editing matches Some(e) && e@ == (if buf@.len() == 0 {
                            buf@
                        } else {
                            buf@.drop_last()
                        })
                        &&& fx@.len() == 0
                    },
                    EditCommand::Type => {
                        &&& *final(self) == (Editor { editing: final(self).editing, ..*old(self) })
                        &&& final(self).editing matches Some(e) && e@ == buf@ + text@
                        &&& fx@.len() == 0
                    },
                },
            },
    {
        let mut fx: Vec<EditorEffect> = Vec::new();
        let buf = match &self.editing {
            None => {
                return fx;
            },
            Some(b) => b.clone(),
        };
        match c {
            EditCommand::Commit => {
                self.editing = None;
                let r = self.theme.set_text(self.sel.cat, self.sel.field, buf.as_str());
                let ghost mid = self.theme;
                self.theme.sync_linked();
                self.dirty = true;
                proof {
                    let (cat, field) = (self.sel.cat as int, self.sel.field as int);
                    assert({
                        &&& edit_spec(old(self).theme, mid, cat, field, crate::chars::trim(buf@))
                        &&& touches_palette(cat, field) ==> mid.meta.active_preset@ == "custom"@
                            && mid.meta.schema_version == old(self).theme.meta.schema_version
                        &&& !touches_palette(cat, field) ==> mid.meta == old(self).theme.meta
                        &&& synced(mid, self.theme)
                    });
                }
                match r {
                    Committed::Fractional => {
                        fx.push(EditorEffect::SetFraction(buf));
                    },
                    _ => {},
                }
                fx.push(EditorEffect::Preview);
            },
            EditCommand::Cancel => {
                self.editing = None;
                self.status = String::from_str("edit cancelled");
            },
            EditCommand::Erase => {
                let mut v = chars_of(buf.as_str());
                if v.len() > 0 {
                    v.pop();
                }
                self.editing = Some(string_of(&v));
            },
            EditCommand::Type => {
                let mut v = chars_of(buf.as_str());
                let t = chars_of(text);
                extend_chars(&mut v, &t);
                self.editing = Some(string_of(&v));
            },
        }
        fx
    }

    /// The preset at a step's index was applied to the theme by the caller:
    /// an unsaved change, with the linked screens following.
    pub fn preset_applied(&mut self)
        ensures
            *final(self) == (Editor { theme: final(self).theme, dirty: true, ..*old(self) }),
            synced(old(self).theme, final(self).theme),
    {
        self.theme.sync_linked();
        self.dirty = true;
    }

    /// How the save asked for by `Commit` went: a saved theme is the new
    /// reference and leaves no unsaved changes; the status line reports
    /// the greeter's note, or that all was saved, or the failure.
    pub fn save_done(&mut self, outcome: SaveOutcome)
        ensures
            match outcome {
                SaveOutcome::Saved(note) => {
                    &&& *final(self) == (Editor {
                        saved: old(self).theme,
                        dirty: false,
                        status: final(self).status,
                        ..*old(self)
                    })
                    &&& final(self).status@ == match note {
                        Some(n) => n@,
                        None => "saved + applied"@,
                    }
                },
                SaveOutcome::Failed(e) => {
                    &&& *final(self) == (Editor { status: final(self).status, ..*old(self) })
                    &&& final(self).status@ == "save failed: "@ + e@
                },
            },
    {
        match outcome {
            SaveOutcome::Saved(note) => {
                self.saved = copy_theme(&self.theme);
                self.dirty = false;
                self.status = match note {
                    Some(n) => n,
                    None => String::from_str("saved + applied"),
                };
            },
            SaveOutcome::Failed(e) => {
                let mut v = chars_of("save failed: ");
                let w = chars_of(e.as_str());
                extend_chars(&mut v, &w);
                self.status = string_of(&v);
            },
        }
    }
}

} // verus!
