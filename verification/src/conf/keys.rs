//! What a key does in the editor, shared by the terminal and graphical
//! front-ends: the kind of each field, and the command a key stands for
//! given the focused pane and that kind. The front-ends turn their
//! key events into `Key` and carry the command out.
use vstd::prelude::*;
use crate::conf::model::{Focus, N_CATS};

verus! {

/// How input drives a field.
#[derive(Clone, Copy, Debug, PartialEq, Eq, Structural)]
pub enum FieldKind {
    /// The preset name: cycles through the presets.
    Preset,
    /// A `#rrggbb` colour, typed.
    Hex,
    /// One of a list of values: cycles.
    Choice,
    /// A fractional number: typed, or stepped by its own step.
    Fraction,
    /// A whole number stepped by this much.
    Whole(u32),
    /// On or off: toggles.
    Toggle,
    /// Free text, typed.
    Text,
}

pub open spec fn kind_spec(cat: int, field: int) -> FieldKind {
    if cat == 0 {
        FieldKind::Preset
    } else if cat == 1 {
        FieldKind::Hex
    } else if cat == 2 {
        if field == 0 || field == 2 || field == 3 || field == 8 {
            FieldKind::Fraction
        } else if field == 1 {
            FieldKind::Whole(5)
        } else if field == 4 {
            FieldKind::Choice
        } else if field == 5 {
            FieldKind::Text
        } else {
            FieldKind::Hex
        }
    } else if cat == 3 {
        if field == 2 {
            FieldKind::Fraction
        } else {
            FieldKind::Choice
        }
    } else if cat == 4 || cat == 5 {
        if field == 0 {
            FieldKind::Toggle
        } else {
            FieldKind::Hex
        }
    } else if cat == 6 {
        FieldKind::Whole(1)
    } else if cat == 7 {
        FieldKind::Fraction
    } else if cat == 8 {
        if field == 0 {
            FieldKind::Text
        } else {
            FieldKind::Whole(2)
        }
    } else {
        if field == 0 {
            FieldKind::Text
        } else {
            FieldKind::Whole(1)
        }
    }
}

/// The kind of field `field` of category `cat`.
pub fn field_kind(cat: usize, field: usize) -> (k: FieldKind)
    requires
        cat < N_CATS,
    ensures
        k == kind_spec(cat as int, field as int),
{
    if cat == 0 {
        FieldKind::Preset
    } else if cat == 1 {
        FieldKind::Hex
    } else if cat == 2 {
        if field == 0 || field == 2 || field == 3 || field == 8 {
            FieldKind::Fraction
        } else if field == 1 {
            FieldKind::Whole(5)
        } else if field == 4 {
            FieldKind::Choice
        } else if field == 5 {
            FieldKind::Text
        } else {
            FieldKind::Hex
        }
    } else if cat == 3 {
        if field == 2 {
            FieldKind::Fraction
        } else {
            FieldKind::Choice
        }
    } else if cat == 4 || cat == 5 {
        if field == 0 {
            FieldKind::Toggle
        } else {
            FieldKind::Hex
        }
    } else if cat == 6 {
        FieldKind::Whole(1)
    } else if cat == 7 {
        FieldKind::Fraction
    } else if cat == 8 {
        if field == 0 {
            FieldKind::Text
        } else {
            FieldKind::Whole(2)
        }
    } else {
        if field == 0 {
            FieldKind::Text
        } else {
            FieldKind::Whole(1)
        }
    }
}

/// A key as the editor sees it.
#[derive(Clone, Copy, Debug, PartialEq, Eq, Structural)]
pub enum Key {
    Char(char),
    Enter,
    Escape,
    Backspace,
    Tab,
    Up,
    Down,
    Left,
    Right,
    Other,
}

/// What a key asks of the editor outside of typing a value.
#[derive(Clone, Copy, Debug, PartialEq, Eq, Structural)]
pub enum Command {
    /// Ctrl+C: revert unsaved changes and quit.
    Abort,
    /// Save unsaved changes and quit.
    SaveAndQuit,
    Save,
    ToggleFocus,
    MoveDown,
    MoveUp,
    FocusFields,
    FocusCats,
    /// Step the field by +1 or -1.
    Nudge(i32),
    /// Start typing a value into the field.
    BeginEdit,
    Nothing,
}

/// The field is edited by typing rather than stepped.
pub open spec fn typed(k: FieldKind) -> bool {
    k is Hex || k is Text || k is Fraction || k is Whole
}

pub open spec fn command_spec(key: Key, ctrl: bool, focus: Focus, kind: FieldKind) -> Command {
    let fields = focus == Focus::Fields;
    if ctrl && key == Key::Char('c') {
        Command::Abort
    } else {
        match key {
            Key::Char('q') => Command::SaveAndQuit,
            Key::Char('s') => Command::Save,
            Key::Tab => Command::ToggleFocus,
            Key::Down | Key::Char('j') => Command::MoveDown,
            Key::Up | Key::Char('k') => Command::MoveUp,
            Key::Right | Key::Char('l') => if fields {
                Command::Nudge(1i32)
            } else {
                Command::FocusFields
            },
            Key::Left | Key::Char('h') => if !fields {
                Command::Nothing
            } else if kind is Hex || kind is Text {
                Command::FocusCats
            } else {
                Command::Nudge(-1i32)
            },
            Key::Char('+') | Key::Char('=') => if fields {
                Command::Nudge(1i32)
            } else {
                Command::Nothing
            },
            Key::Char('-') | Key::Char('_') => if fields {
                Command::Nudge(-1i32)
            } else {
                Command::Nothing
            },
            Key::Enter | Key::Char(' ') => if !fields {
                Command::FocusFields
            } else if typed(kind) {
                Command::BeginEdit
            } else {
                Command::Nudge(1i32)
            },
            _ => Command::Nothing,
        }
    }
}

/// The command for `key` (with Ctrl held or not) when `focus` has the
/// cursor and the selected field is of kind `kind`: q saves and quits, s
/// saves, Ctrl+C abandons, Tab switches panes, j/k or the arrows move,
/// l/h or the arrows step values (or switch panes), +/- step, Enter or
/// space edits or steps.
pub fn command_for(key: Key, ctrl: bool, focus: Focus, kind: FieldKind) -> (c: Command)
    ensures
        c == command_spec(key, ctrl, focus, kind),
{
    let fields = match focus {
        Focus::Fields => true,
        Focus::Cats => false,
    };
    let is_c = match key {
        Key::Char(ch) => ch == 'c',
        _ => false,
    };
    if ctrl && is_c {
        return Command::Abort;
    }
    let typed_kind = match kind {
        FieldKind::Hex | FieldKind::Text | FieldKind::Fraction | FieldKind::Whole(_) => true,
        _ => false,
    };
    let text_kind = match kind {
        FieldKind::Hex | FieldKind::Text => true,
        _ => false,
    };
    match key {
        Key::Char('q') => Command::SaveAndQuit,
        Key::Char('s') => Command::Save,
        Key::Tab => Command::ToggleFocus,
        Key::Down | Key::Char('j') => Command::MoveDown,
        Key::Up | Key::Char('k') => Command::MoveUp,
        Key::Right | Key::Char('l') => if fields {
            Command::Nudge(1)
        } else {
            Command::FocusFields
        },
        Key::Left | Key::Char('h') => if !fields {
            Command::Nothing
        } else if text_kind {
            Command::FocusCats
        } else {
            Command::Nudge(-1)
        },
        Key::Char('+') | Key::Char('=') => if fields {
            Command::Nudge(1)
        } else {
            Command::Nothing
        },
        Key::Char('-') | Key::Char('_') => if fields {
            Command::Nudge(-1)
        } else {
            Command::Nothing
        },
        Key::Enter | Key::Char(' ') => if !fields {
            Command::FocusFields
        } else if typed_kind {
            Command::BeginEdit
        } else {
            Command::Nudge(1)
        },
        _ => Command::Nothing,
    }
}

/// What a key does while a value is being typed.
#[derive(Clone, Copy, Debug, PartialEq, Eq, Structural)]
pub enum EditCommand {
    /// Commit the typed value to the field.
    Commit,
    /// Drop the typed value.
    Cancel,
    /// Delete the last typed character.
    Erase,
    /// Append the key's text.
    Type,
}

pub open spec fn edit_spec(key: Key) -> EditCommand {
    match key {
        Key::Enter => EditCommand::Commit,
        Key::Escape => EditCommand::Cancel,
        Key::Backspace => EditCommand::Erase,
        _ => EditCommand::Type,
    }
}

/// While typing: Enter commits, Escape cancels, Backspace erases, any
/// other key types its text (if it has any).
pub fn edit_command(key: Key) -> (c: EditCommand)
    ensures
        c == edit_spec(key),
{
    match key {
        Key::Enter => EditCommand::Commit,
        Key::Escape => EditCommand::Cancel,
        Key::Backspace => EditCommand::Erase,
        _ => EditCommand::Type,
    }
}

/// Keys in the categories pane never change a value: neither a step nor
/// an edit comes from there.
pub proof fn category_pane_changes_no_value(key: Key, ctrl: bool, kind: FieldKind)
    ensures
        !(command_spec(key, ctrl, Focus::Cats, kind) is Nudge),
        command_spec(key, ctrl, Focus::Cats, kind) != Command::BeginEdit,
{
}

} // verus!
