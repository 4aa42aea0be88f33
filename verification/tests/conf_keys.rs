use lifekit::conf::keys::{command_for, edit_command, field_kind, Command, EditCommand, FieldKind, Key};
use lifekit::conf::model::Focus;

#[test]
fn field_kinds_follow_the_categories() {
    assert_eq!(field_kind(0, 0), FieldKind::Preset);
    assert_eq!(field_kind(1, 3), FieldKind::Hex);
    assert_eq!(field_kind(2, 0), FieldKind::Fraction);
    assert_eq!(field_kind(2, 1), FieldKind::Whole(5));
    assert_eq!(field_kind(2, 4), FieldKind::Choice);
    assert_eq!(field_kind(2, 5), FieldKind::Text);
    assert_eq!(field_kind(2, 6), FieldKind::Hex);
    assert_eq!(field_kind(3, 3), FieldKind::Choice);
    assert_eq!(field_kind(4, 0), FieldKind::Toggle);
    assert_eq!(field_kind(5, 2), FieldKind::Hex);
    assert_eq!(field_kind(6, 1), FieldKind::Whole(1));
    assert_eq!(field_kind(8, 1), FieldKind::Whole(2));
    assert_eq!(field_kind(9, 0), FieldKind::Text);
}

#[test]
fn navigation_keys() {
    let k = FieldKind::Choice;
    assert_eq!(command_for(Key::Char('c'), true, Focus::Fields, k), Command::Abort);
    assert_eq!(command_for(Key::Char('q'), false, Focus::Cats, k), Command::SaveAndQuit);
    assert_eq!(command_for(Key::Char('s'), false, Focus::Cats, k), Command::Save);
    assert_eq!(command_for(Key::Tab, false, Focus::Cats, k), Command::ToggleFocus);
    assert_eq!(command_for(Key::Char('j'), false, Focus::Cats, k), Command::MoveDown);
    assert_eq!(command_for(Key::Up, false, Focus::Fields, k), Command::MoveUp);
    assert_eq!(command_for(Key::Right, false, Focus::Cats, k), Command::FocusFields);
    assert_eq!(command_for(Key::Char('l'), false, Focus::Fields, k), Command::Nudge(1));
    assert_eq!(command_for(Key::Left, false, Focus::Cats, k), Command::Nothing);
    assert_eq!(command_for(Key::Left, false, Focus::Fields, k), Command::Nudge(-1));
    assert_eq!(command_for(Key::Char('h'), false, Focus::Fields, FieldKind::Hex), Command::FocusCats);
    assert_eq!(command_for(Key::Char('-'), false, Focus::Cats, k), Command::Nothing);
    assert_eq!(command_for(Key::Char('_'), false, Focus::Fields, k), Command::Nudge(-1));
    assert_eq!(command_for(Key::Char('='), false, Focus::Fields, k), Command::Nudge(1));
    assert_eq!(command_for(Key::Other, false, Focus::Fields, k), Command::Nothing);
}

#[test]
fn enter_edits_typed_fields_and_steps_the_others() {
    assert_eq!(command_for(Key::Enter, false, Focus::Cats, FieldKind::Hex), Command::FocusFields);
    assert_eq!(command_for(Key::Enter, false, Focus::Fields, FieldKind::Whole(1)), Command::BeginEdit);
    assert_eq!(command_for(Key::Char(' '), false, Focus::Fields, FieldKind::Fraction), Command::BeginEdit);
    assert_eq!(command_for(Key::Enter, false, Focus::Fields, FieldKind::Toggle), Command::Nudge(1));
    assert_eq!(command_for(Key::Enter, false, Focus::Fields, FieldKind::Preset), Command::Nudge(1));
}

#[test]
fn typing_keys() {
    assert_eq!(edit_command(Key::Enter), EditCommand::Commit);
    assert_eq!(edit_command(Key::Escape), EditCommand::Cancel);
    assert_eq!(edit_command(Key::Backspace), EditCommand::Erase);
    assert_eq!(edit_command(Key::Char('x')), EditCommand::Type);
}
