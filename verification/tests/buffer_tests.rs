use editor::buffer::{Buffer, BufferRange};
use editor::buffer_system::{buffer_command, BufferCommand, BufferEvent};
use editor::event::{Key, Modifiers};
use editor::highlight::{highlights_from_steps, HighlightStep};
use editor::utf8_lines::{join_with_newlines, split_newlines, text_lines};

fn lines(buffer: &Buffer) -> Vec<String> {
    buffer.lines().to_vec()
}

fn cursor(buffer: &Buffer) -> (usize, usize) {
    let c = buffer.cursor();
    (c.0, c.1)
}

const NO_MODIFIERS: Modifiers = Modifiers { shift: false, ctrl: false, alt: false, logo: false };

#[test]
fn start_end_orders_positions() {
    assert_eq!(BufferRange::new((2, 1), (1, 5)).start_end(), ((1, 5), (2, 1)));
    assert_eq!(BufferRange::new((1, 5), (2, 1)).start_end(), ((1, 5), (2, 1)));
    assert_eq!(BufferRange::new((1, 7), (1, 3)).start_end(), ((1, 3), (1, 7)));
    assert_eq!(BufferRange::new((1, 3), (1, 3)).start_end(), ((1, 3), (1, 3)));
}

#[test]
fn text_is_split_into_lines() {
    let b = Buffer::from_source("notes.txt", "hello world\r\nsecond line\n\nlast");
    assert_eq!(lines(&b), vec!["hello world", "second line", "", "last"]);
    assert_eq!(cursor(&b), (0, 0));
    assert!(b.selection().is_none());
    assert_eq!(b.file(), "notes.txt");
    assert!(b.highlight_ranges().is_empty());
    assert_eq!(text_lines("a\nb\n"), vec!["a", "b"]);
    assert!(text_lines("").is_empty());
    assert_eq!(text_lines("x\r"), vec!["x\r"]);
}

#[test]
fn split_and_join_newlines() {
    assert_eq!(split_newlines("a\n\nb"), vec!["a", "", "b"]);
    assert_eq!(split_newlines(""), vec![""]);
    assert_eq!(split_newlines("é\n"), vec!["é", ""]);
    let v = vec!["one".to_string(), "".to_string(), "three".to_string()];
    assert_eq!(join_with_newlines(&v), "one\n\nthree");
}

#[test]
fn save_then_load_gives_the_lines_back() {
    let b = Buffer::from_source("a.txt", "alpha\nbeta\ngamma");
    let saved = b.contents();
    assert_eq!(saved, "alpha\nbeta\ngamma");
    let again = Buffer::from_source("a.txt", &saved);
    assert_eq!(lines(&again), lines(&b));
}

#[test]
fn typing_and_backspace() {
    let mut b = Buffer::from_source("a.txt", "hello");
    b.move_right(false);
    b.move_right(false);
    b.insert_character('X');
    assert_eq!(lines(&b), vec!["heXllo"]);
    assert_eq!(cursor(&b), (0, 3));
    b.delete();
    assert_eq!(lines(&b), vec!["hello"]);
    assert_eq!(cursor(&b), (0, 2));
}

#[test]
fn typing_a_wide_character_and_backspace() {
    let mut b = Buffer::from_source("a.txt", "ab");
    b.move_right(false);
    b.insert_character('é');
    assert_eq!(lines(&b), vec!["aéb"]);
    assert_eq!(cursor(&b), (0, 2));
    b.delete();
    assert_eq!(lines(&b), vec!["ab"]);
    assert_eq!(cursor(&b), (0, 1));
}

#[test]
fn newline_and_backspace_join_lines() {
    let mut b = Buffer::from_source("a.txt", "hello world");
    for _ in 0..5 {
        b.move_right(false);
    }
    b.insert_newline();
    assert_eq!(lines(&b), vec!["hello", " world"]);
    assert_eq!(cursor(&b), (1, 0));
    b.delete();
    assert_eq!(lines(&b), vec!["hello world"]);
    assert_eq!(cursor(&b), (0, 5));
}

#[test]
fn backspace_at_buffer_start_does_nothing() {
    let mut b = Buffer::from_source("a.txt", "abc\ndef");
    b.delete();
    assert_eq!(lines(&b), vec!["abc", "def"]);
    assert_eq!(cursor(&b), (0, 0));
}

#[test]
fn paste_several_lines() {
    let mut b = Buffer::from_source("a.txt", "startend");
    for _ in 0..5 {
        b.move_right(false);
    }
    b.insert_string("one\ntwo\nthree");
    assert_eq!(lines(&b), vec!["startone", "two", "threeend"]);
    assert_eq!(cursor(&b), (2, 5));
    b.insert_string("!");
    assert_eq!(lines(&b), vec!["startone", "two", "three!end"]);
    assert_eq!(cursor(&b), (2, 6));
}

#[test]
fn selection_is_replaced_by_typing() {
    let mut b = Buffer::from_source("a.txt", "abcdef\nghij");
    b.move_right(false);
    b.move_right(true);
    b.move_right(true);
    b.move_down(true);
    assert_eq!(b.selection(), Some(((0, 1), (1, 3))));
    b.insert_character('Z');
    assert_eq!(lines(&b), vec!["aZj"]);
    assert_eq!(cursor(&b), (0, 2));
    assert!(b.selection().is_none());
}

#[test]
fn backwards_selection_is_deleted() {
    let mut b = Buffer::from_source("a.txt", "abcdef");
    b.select((0, 4), (0, 1));
    assert_eq!(cursor(&b), (0, 1));
    b.delete();
    assert_eq!(lines(&b), vec!["aef"]);
    assert_eq!(cursor(&b), (0, 1));
    b.place_cursor((0, 2));
    assert_eq!(cursor(&b), (0, 2));
}

#[test]
fn cursor_moves_and_wraps() {
    let mut b = Buffer::from_source("a.txt", "ab\ncd");
    b.move_left(false);
    assert_eq!(cursor(&b), (0, 0));
    b.move_right(false);
    b.move_right(false);
    b.move_right(false);
    assert_eq!(cursor(&b), (1, 0));
    b.move_left(false);
    assert_eq!(cursor(&b), (0, 2));
    b.move_down(false);
    assert_eq!(cursor(&b), (1, 2));
    b.move_down(true);
    assert_eq!(cursor(&b), (1, 2));
    assert!(b.selection().is_none());
    b.move_up(false);
    b.move_up(false);
    assert_eq!(cursor(&b), (0, 2));
    b.move_right(false);
    b.move_right(false);
    b.move_right(false);
    assert_eq!(cursor(&b), (1, 2));
}

#[test]
fn column_past_the_line_end_is_clamped_for_edits() {
    let mut b = Buffer::from_source("a.txt", "abcdef\nxy");
    for _ in 0..5 {
        b.move_right(false);
    }
    b.move_down(false);
    assert_eq!(cursor(&b), (1, 5));
    assert_eq!(b.editing_position(b.cursor()), (1, 2));
    b.insert_character('!');
    assert_eq!(lines(&b), vec!["abcdef", "xy!"]);
    assert_eq!(cursor(&b), (1, 3));
}

#[test]
fn word_motions() {
    let mut b = Buffer::from_source("a.txt", "hello world\nnext");
    b.move_forward_word(false);
    assert_eq!(cursor(&b), (0, 5));
    b.move_forward_word(false);
    assert_eq!(cursor(&b), (0, 6));
    b.move_forward_word(true);
    assert_eq!(cursor(&b), (0, 11));
    assert_eq!(b.selection(), Some(((0, 6), (0, 11))));
    b.move_forward_word(false);
    assert_eq!(cursor(&b), (1, 0));
    b.move_backward_word(false);
    assert_eq!(cursor(&b), (0, 11));
    b.move_backward_word(false);
    assert_eq!(cursor(&b), (0, 6));
    b.move_backward_word(false);
    assert_eq!(cursor(&b), (0, 5));
}

#[test]
fn forward_word_onto_an_empty_line() {
    let mut b = Buffer::from_source("a.txt", "ab\n\ncd");
    b.move_forward_word(false);
    assert_eq!(cursor(&b), (0, 2));
    b.move_forward_word(false);
    assert_eq!(cursor(&b), (1, 0));
}

#[test]
fn rust_files_are_highlighted() {
    let b = Buffer::from_source("main.rs", "fn main() {}");
    assert!(!b.highlight_ranges().is_empty());
    assert!(b.highlight_ranges().iter().any(|h| h.code_type == Some(6)));
    let p = Buffer::from_source("script.py", "def f():\n    return 1\n");
    assert!(!p.highlight_ranges().is_empty());
}

#[test]
fn highlight_events_fold_into_ranges() {
    let steps = vec![
        HighlightStep::Source { start: 0, end: 2 },
        HighlightStep::Start(3),
        HighlightStep::Source { start: 2, end: 5 },
        HighlightStep::End,
        HighlightStep::Source { start: 5, end: 6 },
    ];
    let hs = highlights_from_steps(&steps);
    let got: Vec<(Option<usize>, usize, usize)> = hs.iter().map(|h| (h.code_type, h.start_byte, h.end_byte)).collect();
    assert_eq!(got, vec![(None, 0, 2), (Some(3), 2, 5), (None, 5, 6)]);
}

#[test]
fn key_presses_become_commands() {
    let shift = Modifiers { shift: true, ..NO_MODIFIERS };
    let alt = Modifiers { alt: true, ..NO_MODIFIERS };
    let logo = Modifiers { logo: true, ..NO_MODIFIERS };
    let ctrl = Modifiers { ctrl: true, ..NO_MODIFIERS };
    let a = Key::char('a');
    assert!(matches!(buffer_command(&BufferEvent::KeyPress(a, NO_MODIFIERS)), Some(BufferCommand::InsertCharacter('a'))));
    assert!(matches!(buffer_command(&BufferEvent::KeyPress(a, shift)), Some(BufferCommand::InsertCharacter('A'))));
    assert!(matches!(buffer_command(&BufferEvent::KeyPress(Key::Char(' ', None), shift)), None));
    assert!(matches!(buffer_command(&BufferEvent::KeyPress(Key::Backspace, NO_MODIFIERS)), Some(BufferCommand::Delete)));
    assert!(matches!(buffer_command(&BufferEvent::KeyPress(Key::Return, NO_MODIFIERS)), Some(BufferCommand::InsertNewline)));
    assert!(matches!(buffer_command(&BufferEvent::KeyPress(Key::Tab, NO_MODIFIERS)), Some(BufferCommand::Indent)));
    assert!(matches!(buffer_command(&BufferEvent::KeyPress(Key::Left, shift)), Some(BufferCommand::MoveLeft(true))));
    assert!(matches!(buffer_command(&BufferEvent::KeyPress(Key::Down, NO_MODIFIERS)), Some(BufferCommand::MoveDown(false))));
    assert!(matches!(buffer_command(&BufferEvent::KeyPress(Key::char('s'), logo)), Some(BufferCommand::Save)));
    assert!(matches!(buffer_command(&BufferEvent::KeyPress(Key::char('p'), logo)), None));
    assert!(matches!(buffer_command(&BufferEvent::KeyPress(Key::Right, alt)), Some(BufferCommand::MoveForwardWord(false))));
    assert!(matches!(buffer_command(&BufferEvent::KeyPress(Key::Left, Modifiers { shift: true, ..alt })), Some(BufferCommand::MoveBackwardWord(true))));
    assert!(matches!(buffer_command(&BufferEvent::KeyPress(a, ctrl)), None));
    assert!(matches!(buffer_command(&BufferEvent::Click((3, 4))), Some(BufferCommand::PlaceCursor((3, 4)))));
    assert!(matches!(buffer_command(&BufferEvent::Drag((0, 1), (2, 3))), Some(BufferCommand::Select((0, 1), (2, 3)))));
}

#[test]
fn events_edit_the_buffer() {
    let mut b = Buffer::from_source("a.txt", "x");
    let shift = Modifiers { shift: true, ..NO_MODIFIERS };
    assert!(!b.on_event(&BufferEvent::KeyPress(Key::char('h'), shift)));
    assert!(!b.on_event(&BufferEvent::KeyPress(Key::char('1'), shift)));
    assert!(!b.on_event(&BufferEvent::KeyPress(Key::Tab, NO_MODIFIERS)));
    assert_eq!(lines(&b), vec!["H!    x"]);
    assert!(b.on_event(&BufferEvent::KeyPress(Key::char('s'), Modifiers { logo: true, ..NO_MODIFIERS })));
    assert!(!b.on_event(&BufferEvent::Drag((0, 0), (0, 2))));
    assert!(!b.on_event(&BufferEvent::KeyPress(Key::Backspace, NO_MODIFIERS)));
    assert_eq!(lines(&b), vec!["    x"]);
    assert!(!b.apply(&BufferCommand::MoveRight(false)));
    assert_eq!(cursor(&b), (0, 1));
}

#[test]
fn edits_that_would_split_a_character_are_refused() {
    let mut b = Buffer::from_source("a.txt", "é\nab");
    b.move_down(false);
    b.move_right(false);
    b.move_up(false);
    assert_eq!(cursor(&b), (0, 1));
    assert!(!b.can_edit_at_cursor());
    assert!(!b.allows(&BufferCommand::InsertCharacter('x')));
    assert!(b.can_delete());
    assert!(b.allows(&BufferCommand::MoveLeft(false)));
    b.move_right(false);
    assert_eq!(cursor(&b), (0, 2));
    assert!(b.can_edit_at_cursor());
    assert!(!b.can_delete());
    b.move_left(false);
    b.delete();
    assert_eq!(lines(&b), vec!["", "ab"]);
    assert_eq!(cursor(&b), (0, 0));
}

#[test]
fn empty_text_allows_only_safe_commands() {
    let b = Buffer::from_source("empty.txt", "");
    assert!(b.lines().is_empty());
    assert!(!b.allows(&BufferCommand::InsertCharacter('a')));
    assert!(!b.allows(&BufferCommand::MoveDown(false)));
    assert!(b.allows(&BufferCommand::MoveUp(false)));
    assert!(!b.allows(&BufferCommand::MoveUp(true)));
    assert!(b.allows(&BufferCommand::Save));
}

#[test]
fn selection_boundaries_are_checked() {
    let mut b = Buffer::from_source("a.txt", "aé");
    b.select((0, 0), (0, 2));
    assert!(!b.can_delete_selection());
    assert!(!b.can_edit_at_cursor());
    b.select((0, 3), (0, 1));
    assert!(b.can_delete_selection());
    assert!(b.is_boundary((0, 3)));
    assert!(!b.is_boundary((1, 0)));
    b.insert_string("\n");
    assert_eq!(lines(&b), vec!["a", ""]);
    assert_eq!(cursor(&b), (1, 0));
}

#[test]
fn highlight_names_are_listed_in_index_order() {
    let names = editor::highlight::recognized_highlight_names();
    assert_eq!(names.len(), 14);
    assert_eq!(names[0], "function");
    assert_eq!(names[1], "function.method");
    assert_eq!(names[6], "keyword");
    assert_eq!(names[11], "comment");
    assert_eq!(names[13], "punctuation");
}

#[test]
fn other_files_are_not_highlighted() {
    let b = Buffer::from_source("notes.txt", "fn main() {}");
    assert!(b.highlight_ranges().is_empty());
    let c = Buffer::from_source("Makefile", "all:");
    assert!(c.highlight_ranges().is_empty());
}

#[test]
fn edits_highlight_the_new_text() {
    let mut b = Buffer::from_source("main.rs", "fn main() {}");
    let before = b.highlight_ranges().last().unwrap().end_byte;
    assert_eq!(before, 12);
    b.move_down(false);
    for _ in 0..12 {
        b.move_right(false);
    }
    b.insert_newline();
    for c in "let x = 1;".chars() {
        b.insert_character(c);
    }
    let text = b.contents();
    assert_eq!(b.highlight_ranges().last().unwrap().end_byte, text.len());
    assert!(b.highlight_ranges().iter().any(|h| h.code_type == Some(6) && &text[h.start_byte..h.end_byte] == "let"));
}

#[test]
fn word_motions_stop_on_character_boundaries() {
    let mut b = Buffer::from_source("a.txt", "héllo wörld");
    b.move_forward_word(false);
    assert_eq!(cursor(&b), (0, 6));
    assert!(b.is_boundary((0, 6)));
    b.move_forward_word(false);
    assert_eq!(cursor(&b), (0, 7));
    b.move_forward_word(false);
    assert_eq!(cursor(&b), (0, 13));
    b.move_backward_word(false);
    assert_eq!(cursor(&b), (0, 7));
    assert!(b.is_boundary(cursor(&b)));
}

#[test]
fn backspace_in_an_empty_file_does_nothing() {
    let mut b = Buffer::from_source("empty.txt", "");
    assert!(b.allows(&BufferCommand::Delete));
    let event = BufferEvent::KeyPress(Key::Backspace, NO_MODIFIERS);
    assert!(!b.on_event(&event));
    assert!(b.lines().is_empty());
    assert_eq!(cursor(&b), (0, 0));
    b.place_cursor((0, 1));
    assert!(!b.allows(&BufferCommand::Delete));
}

#[test]
fn right_then_left_comes_back() {
    let mut b = Buffer::from_source("a.txt", "ab\ncd");
    b.place_cursor((0, 7));
    b.move_right(false);
    assert_eq!(cursor(&b), (1, 0));
    b.move_left(false);
    assert_eq!(cursor(&b), (0, 2));
    assert_eq!(b.selection(), None);
    b.place_cursor((1, 1));
    b.move_right(false);
    b.move_left(false);
    assert_eq!(cursor(&b), (1, 1));
    assert_eq!(lines(&b), vec!["ab", "cd"]);
}
