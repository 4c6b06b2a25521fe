//! How a buffer reacts to input: which edit a key press or mouse gesture asks
//! for, and carrying it out.

use vstd::prelude::*;
use crate::buffer::{
    backward_word_result, can_delete, can_edit_at_cursor, delete_result, forward_word_result,
    highlights_current, insert_character_result, insert_newline_result, insert_string_result, move_down_result,
    move_left_target, move_right_target, move_up_target, moved_to, same_setting, Buffer,
    BufferState, Position,
};
use crate::event::{Key, Modifiers};
use crate::utf8_lines::bytes;

verus! {

/// An input event as the buffer sees it; mouse positions are already buffer positions.
#[derive(Clone, Copy)]
pub enum BufferEvent {
    KeyPress(Key, Modifiers),
    /// A left click at a buffer position.
    Click(Position),
    /// A left drag from one buffer position to another.
    Drag(Position, Position),
}

/// An edit or motion a buffer carries out.
#[derive(Debug, Clone, Copy)]
pub enum BufferCommand {
    InsertCharacter(char),
    Delete,
    InsertNewline,
    /// Four spaces, for the tab key.
    Indent,
    MoveLeft(bool),
    MoveRight(bool),
    MoveUp(bool),
    MoveDown(bool),
    MoveForwardWord(bool),
    MoveBackwardWord(bool),
    /// Write the buffer to its file.
    Save,
    /// Put the cursor at a position and drop the selection.
    PlaceCursor(Position),
    /// Select from one position to another, the cursor at the second.
    Select(Position, Position),
}

/// The character a key press types: the shifted character with shift held,
/// the plain one without.
pub open spec fn typed_char(key: Key, shift: bool) -> Option<char> {
    match key {
        Key::Char(lower, upper) => if shift {
            upper
        } else {
            Some(lower)
        },
        _ => None,
    }
}

/// The command an event asks of a buffer. Plain key presses (shift allowed)
/// type or edit or move; the logo key with `s` saves; alt with left or right
/// moves by words; clicks place the cursor and drags select.
pub open spec fn command_for_event(e: BufferEvent) -> Option<BufferCommand> {
    match e {
        BufferEvent::KeyPress(key, m) => if !m.logo && !m.alt && !m.ctrl {
            match typed_char(key, m.shift) {
                Some(c) => Some(BufferCommand::InsertCharacter(c)),
                None => match key {
                    Key::Backspace => Some(BufferCommand::Delete),
                    Key::Return => Some(BufferCommand::InsertNewline),
                    Key::Tab => Some(BufferCommand::Indent),
                    Key::Left => Some(BufferCommand::MoveLeft(m.shift)),
                    Key::Right => Some(BufferCommand::MoveRight(m.shift)),
                    Key::Up => Some(BufferCommand::MoveUp(m.shift)),
                    Key::Down => Some(BufferCommand::MoveDown(m.shift)),
                    _ => None,
                },
            }
        } else if m.logo && !m.shift && !m.alt && !m.ctrl {
            match key {
                Key::Char(c, _) => if c == 's' {
                    Some(BufferCommand::Save)
                } else {
                    None
                },
                _ => None,
            }
        } else if m.alt && !m.ctrl && !m.logo {
            match key {
                Key::Right => Some(BufferCommand::MoveForwardWord(m.shift)),
                Key::Left => Some(BufferCommand::MoveBackwardWord(m.shift)),
                _ => None,
            }
        } else {
            None
        },
        BufferEvent::Click(p) => Some(BufferCommand::PlaceCursor(p)),
        BufferEvent::Drag(a, b) => Some(BufferCommand::Select(a, b)),
    }
}

/// The command an event asks of a buffer, if any.
pub fn buffer_command(event: &BufferEvent) -> (r: Option<BufferCommand>)
    ensures
        r == command_for_event(*event),
{
    match event {
        BufferEvent::KeyPress(key, m) => {
            if !m.logo && !m.alt && !m.ctrl {
                let character = match key {
                    Key::Char(_, uppercase) if m.shift => *uppercase,
                    Key::Char(lowercase, _) => Some(*lowercase),
                    _ => None,
                };
                if let Some(c) = character {
                    Some(BufferCommand::InsertCharacter(c))
                } else {
                    match key {
                        Key::Backspace => Some(BufferCommand::Delete),
                        Key::Return => Some(BufferCommand::InsertNewline),
                        Key::Tab => Some(BufferCommand::Indent),
                        Key::Left => Some(BufferCommand::MoveLeft(m.shift)),
                        Key::Right => Some(BufferCommand::MoveRight(m.shift)),
                        Key::Up => Some(BufferCommand::MoveUp(m.shift)),
                        Key::Down => Some(BufferCommand::MoveDown(m.shift)),
                        _ => None,
                    }
                }
            } else if m.logo && !m.shift && !m.alt && !m.ctrl {
                match key {
                    Key::Char(c, _) => if *c == 's' {
                        Some(BufferCommand::Save)
                    } else {
                        None
                    },
                    _ => None,
                }
            } else if m.alt && !m.ctrl && !m.logo {
                match key {
                    Key::Right => Some(BufferCommand::MoveForwardWord(m.shift)),
                    Key::Left => Some(BufferCommand::MoveBackwardWord(m.shift)),
                    _ => None,
                }
            } else {
                None
            }
        },
        BufferEvent::Click(p) => Some(BufferCommand::PlaceCursor(*p)),
        BufferEvent::Drag(a, b) => Some(BufferCommand::Select(*a, *b)),
    }
}

/// The buffer can carry out the command without failing.
pub open spec fn can_apply(s: BufferState, c: BufferCommand) -> bool {
    match c {
        BufferCommand::InsertCharacter(_) => can_edit_at_cursor(s),
        BufferCommand::Delete => can_delete(s),
        BufferCommand::InsertNewline => can_edit_at_cursor(s),
        BufferCommand::Indent => can_edit_at_cursor(s),
        BufferCommand::MoveLeft(_) => s.cursor.0 < s.lines.len(),
        BufferCommand::MoveRight(_) => s.cursor.0 < s.lines.len(),
        BufferCommand::MoveUp(h) => h ==> s.cursor.0 < s.lines.len(),
        BufferCommand::MoveDown(_) => s.lines.len() > 0,
        BufferCommand::MoveForwardWord(_) => s.cursor.0 < s.lines.len(),
        BufferCommand::MoveBackwardWord(_) => s.cursor.0 < s.lines.len(),
        BufferCommand::Save => true,
        BufferCommand::PlaceCursor(_) => true,
        BufferCommand::Select(_, _) => true,
    }
}

/// The command changes the text, and the highlights are taken again.
pub open spec fn edits_text(c: BufferCommand) -> bool {
    match c {
        BufferCommand::InsertCharacter(_) => true,
        BufferCommand::Delete => true,
        BufferCommand::InsertNewline => true,
        BufferCommand::Indent => true,
        _ => false,
    }
}

/// The buffer after the command.
pub open spec fn apply_result(s: BufferState, c: BufferCommand) -> BufferState {
    match c {
        BufferCommand::InsertCharacter(ch) => insert_character_result(s, ch),
        BufferCommand::Delete => delete_result(s),
        BufferCommand::InsertNewline => insert_newline_result(s),
        BufferCommand::Indent => insert_string_result(s, bytes("    "@)),
        BufferCommand::MoveLeft(h) => moved_to(s, move_left_target(s), h),
        BufferCommand::MoveRight(h) => moved_to(s, move_right_target(s), h),
        BufferCommand::MoveUp(h) => moved_to(s, move_up_target(s), h),
        BufferCommand::MoveDown(h) => move_down_result(s, h),
        BufferCommand::MoveForwardWord(h) => forward_word_result(s, h),
        BufferCommand::MoveBackwardWord(h) => backward_word_result(s, h),
        BufferCommand::Save => s,
        BufferCommand::PlaceCursor(p) => BufferState { cursor: p, selection: None, ..s },
        BufferCommand::Select(a, b) => BufferState { cursor: b, selection: Some((a, b)), ..s },
    }
}

/// An arrow key pressed without ctrl, alt or logo asks for a motion in its
/// direction that selects exactly when shift is held.
pub proof fn law_arrows_move_and_shift_selects(m: Modifiers)
    requires
        !m.ctrl,
        !m.alt,
        !m.logo,
    ensures
        command_for_event(BufferEvent::KeyPress(Key::Left, m)) == Some(BufferCommand::MoveLeft(m.shift)),
        command_for_event(BufferEvent::KeyPress(Key::Right, m)) == Some(BufferCommand::MoveRight(m.shift)),
        command_for_event(BufferEvent::KeyPress(Key::Up, m)) == Some(BufferCommand::MoveUp(m.shift)),
        command_for_event(BufferEvent::KeyPress(Key::Down, m)) == Some(BufferCommand::MoveDown(m.shift)),
{
}

/// A character key pressed without ctrl, alt or logo types its character, or
/// with shift its shifted character (nothing where it has none); backspace,
/// return and tab delete, split the line and indent.
pub proof fn law_plain_keys_type_and_edit(m: Modifiers, c: char, shifted: Option<char>)
    requires
        !m.ctrl,
        !m.alt,
        !m.logo,
    ensures
        !m.shift ==> command_for_event(BufferEvent::KeyPress(Key::Char(c, shifted), m)) == Some(
            BufferCommand::InsertCharacter(c),
        ),
        m.shift ==> command_for_event(BufferEvent::KeyPress(Key::Char(c, shifted), m)) == match shifted {
            Some(u) => Some(BufferCommand::InsertCharacter(u)),
            None => None::<BufferCommand>,
        },
        command_for_event(BufferEvent::KeyPress(Key::Backspace, m)) == Some(BufferCommand::Delete),
        command_for_event(BufferEvent::KeyPress(Key::Return, m)) == Some(BufferCommand::InsertNewline),
        command_for_event(BufferEvent::KeyPress(Key::Tab, m)) == Some(BufferCommand::Indent),
        command_for_event(BufferEvent::KeyPress(Key::Escape, m)) is None,
{
}

/// The logo key with `s` (and nothing else held) saves; clicks place the cursor
/// and drags select from where they began to where they end.
pub proof fn law_save_click_and_drag(m: Modifiers, up: Option<char>, a: Position, b: Position)
    requires
        m.logo,
        !m.shift,
        !m.ctrl,
        !m.alt,
    ensures
        command_for_event(BufferEvent::KeyPress(Key::Char('s', up), m)) == Some(BufferCommand::Save),
        command_for_event(BufferEvent::Click(a)) == Some(BufferCommand::PlaceCursor(a)),
        command_for_event(BufferEvent::Drag(a, b)) == Some(BufferCommand::Select(a, b)),
{
}

/// With alt held (and neither ctrl nor logo), left and right move by words,
/// selecting exactly when shift is held.
pub proof fn law_alt_arrows_move_by_words(m: Modifiers)
    requires
        m.alt,
        !m.ctrl,
        !m.logo,
    ensures
        command_for_event(BufferEvent::KeyPress(Key::Left, m)) == Some(BufferCommand::MoveBackwardWord(m.shift)),
        command_for_event(BufferEvent::KeyPress(Key::Right, m)) == Some(BufferCommand::MoveForwardWord(m.shift)),
{
}

impl Buffer {
    /// `true` when the buffer can carry out the command without failing.
    pub fn allows(&self, command: &BufferCommand) -> (r: bool)
        ensures
            r == can_apply(self@, *command),
    {
        let rows = self.lines().len();
        let row = self.cursor().0;
        match command {
            BufferCommand::InsertCharacter(_) => self.can_edit_at_cursor(),
            BufferCommand::Delete => self.can_delete(),
            BufferCommand::InsertNewline => self.can_edit_at_cursor(),
            BufferCommand::Indent => self.can_edit_at_cursor(),
            BufferCommand::MoveLeft(_) => row < rows,
            BufferCommand::MoveRight(_) => row < rows,
            BufferCommand::MoveUp(h) => !*h || row < rows,
            BufferCommand::MoveDown(_) => rows > 0,
            BufferCommand::MoveForwardWord(_) => row < rows,
            BufferCommand::MoveBackwardWord(_) => row < rows,
            BufferCommand::Save => true,
            BufferCommand::PlaceCursor(_) => true,
            BufferCommand::Select(_, _) => true,
        }
    }

    /// Carries out a command. Saving is left to the caller, who writes the
    /// buffer's contents to its file: the result is `true` for `Save`.
    pub fn apply(&mut self, command: &BufferCommand) -> (save: bool)
        requires
            can_apply(old(self)@, *command),
        ensures
            final(self)@ == apply_result(old(self)@, *command),
            save == (*command is Save),
            final(self).file_name() == old(self).file_name(),
            final(self).language() == old(self).language(),
            !old(self).highlighted() ==> final(self).highlights() == old(self).highlights(),
            edits_text(*command) ==> highlights_current(final(self)),
            highlights_current(old(self)) ==> highlights_current(final(self)),
    {
        match command {
            BufferCommand::InsertCharacter(c) => self.insert_character(*c),
            BufferCommand::Delete => self.delete(),
            BufferCommand::InsertNewline => self.insert_newline(),
            BufferCommand::Indent => self.insert_string("    "),
            BufferCommand::MoveLeft(h) => self.move_left(*h),
            BufferCommand::MoveRight(h) => self.move_right(*h),
            BufferCommand::MoveUp(h) => self.move_up(*h),
            BufferCommand::MoveDown(h) => self.move_down(*h),
            BufferCommand::MoveForwardWord(h) => self.move_forward_word(*h),
            BufferCommand::MoveBackwardWord(h) => self.move_backward_word(*h),
            BufferCommand::Save => {
                return true;
            },
            BufferCommand::PlaceCursor(p) => self.place_cursor(*p),
            BufferCommand::Select(a, b) => self.select(*a, *b),
        }
        false
    }

    /// The reaction to one input event: the command it asks for is carried out.
    /// The result is `true` when the event asks for the buffer to be saved.
    pub fn on_event(&mut self, event: &BufferEvent) -> (save: bool)
        requires
            match command_for_event(*event) {
                Some(c) => can_apply(old(self)@, c),
                None => true,
            },
        ensures
            final(self)@ == match command_for_event(*event) {
                Some(c) => apply_result(old(self)@, c),
                None => old(self)@,
            },
            save == (command_for_event(*event) == Some(BufferCommand::Save)),
            final(self).file_name() == old(self).file_name(),
            final(self).language() == old(self).language(),
            !old(self).highlighted() ==> final(self).highlights() == old(self).highlights(),
            match command_for_event(*event) {
                Some(c) => edits_text(c) ==> highlights_current(final(self)),
                None => true,
            },
            highlights_current(old(self)) ==> highlights_current(final(self)),
    {
        match buffer_command(event) {
            Some(c) => self.apply(&c),
            None => false,
        }
    }
}

} // verus!
