use edcore::{Command, Direction, Document, Editor, EditorMode, Position};

const WIDTH: usize = 80;
const HEIGHT: usize = 24;

fn editor(lines: &[&str]) -> Editor {
    let source: Vec<String> = lines.iter().map(|s| s.to_string()).collect();
    Editor::new(Document::from_lines(&source, None))
}

fn line(ed: &Editor, y: usize) -> String {
    ed.document().row(y).expect("line missing").contents()
}

fn go(ed: &mut Editor, command: Command) {
    ed.process_command(command, WIDTH, HEIGHT);
}

#[test]
fn insert_at_end_of_line_advances_cursor() {
    // Buffer ["abc"], cursor (3,0), InsertChar('d') -> ["abcd"], cursor (4,0).
    let mut ed = editor(&["abc"]);
    go(&mut ed, Command::Move(Direction::End));
    assert_eq!(ed.cursor_position(), Position { x: 3, y: 0 });
    go(&mut ed, Command::InsertChar('d'));
    assert_eq!(line(&ed, 0), "abcd");
    assert_eq!(ed.cursor_position(), Position { x: 4, y: 0 });
}

#[test]
fn delete_backward_at_line_start_merges_lines() {
    // Buffer ["ab","cd"], cursor (0,1), DeleteBackward -> ["abcd"], cursor (2,0).
    let mut ed = editor(&["ab", "cd"]);
    go(&mut ed, Command::Move(Direction::Down));
    assert_eq!(ed.cursor_position(), Position { x: 0, y: 1 });
    go(&mut ed, Command::DeleteBackward);
    assert_eq!(ed.document().len(), 1);
    assert_eq!(line(&ed, 0), "abcd");
    assert_eq!(ed.cursor_position(), Position { x: 2, y: 0 });
}

#[test]
fn delete_backward_at_origin_does_nothing() {
    let mut ed = editor(&["ab"]);
    go(&mut ed, Command::DeleteBackward);
    assert_eq!(line(&ed, 0), "ab");
    assert_eq!(ed.cursor_position(), Position { x: 0, y: 0 });
}

#[test]
fn cursor_wraps_at_line_boundaries() {
    // Right at the end of a non-last line lands on (0, y+1); Left at the
    // start of a non-first line lands on the end of the line above.
    let mut ed = editor(&["ab", "cd"]);
    go(&mut ed, Command::Move(Direction::End));
    go(&mut ed, Command::Move(Direction::Right));
    assert_eq!(ed.cursor_position(), Position { x: 0, y: 1 });
    go(&mut ed, Command::Move(Direction::Left));
    assert_eq!(ed.cursor_position(), Position { x: 2, y: 0 });
}

#[test]
fn vertical_moves_clamp_the_column() {
    let mut ed = editor(&["abcd", "x"]);
    go(&mut ed, Command::Move(Direction::End));
    assert_eq!(ed.cursor_position(), Position { x: 4, y: 0 });
    go(&mut ed, Command::Move(Direction::Down));
    assert_eq!(ed.cursor_position(), Position { x: 1, y: 1 });
    go(&mut ed, Command::Move(Direction::Down));
    // y may equal the line count; the column is then 0.
    assert_eq!(ed.cursor_position(), Position { x: 0, y: 2 });
    go(&mut ed, Command::Move(Direction::Down));
    assert_eq!(ed.cursor_position(), Position { x: 0, y: 2 });
}

#[test]
fn page_moves_jump_by_the_viewport_height() {
    let lines: Vec<String> = (0..100).map(|i| format!("line {i}")).collect();
    let mut ed = Editor::new(Document::from_lines(&lines, None));
    go(&mut ed, Command::Move(Direction::PageDown));
    assert_eq!(ed.cursor_position().y, HEIGHT);
    go(&mut ed, Command::Move(Direction::PageDown));
    assert_eq!(ed.cursor_position().y, 2 * HEIGHT);
    go(&mut ed, Command::Move(Direction::PageUp));
    assert_eq!(ed.cursor_position().y, HEIGHT);
    go(&mut ed, Command::Move(Direction::PageUp));
    assert_eq!(ed.cursor_position().y, 0);
    go(&mut ed, Command::Move(Direction::PageUp));
    assert_eq!(ed.cursor_position().y, 0);
}

#[test]
fn insert_newline_splits_and_moves_to_next_line() {
    let mut ed = editor(&["abcd"]);
    go(&mut ed, Command::Move(Direction::Right));
    go(&mut ed, Command::Move(Direction::Right));
    go(&mut ed, Command::InsertNewline);
    assert_eq!(ed.document().len(), 2);
    assert_eq!(line(&ed, 0), "ab");
    assert_eq!(line(&ed, 1), "cd");
    assert_eq!(ed.cursor_position(), Position { x: 0, y: 1 });
}

#[test]
fn typing_into_an_empty_buffer() {
    let mut ed = Editor::new(Document::default());
    assert_eq!(ed.document().len(), 0);
    go(&mut ed, Command::InsertChar('h'));
    go(&mut ed, Command::InsertChar('i'));
    assert_eq!(ed.document().len(), 1);
    assert_eq!(line(&ed, 0), "hi");
    assert_eq!(ed.cursor_position(), Position { x: 2, y: 0 });
}

#[test]
fn delete_forward_removes_under_the_cursor() {
    let mut ed = editor(&["abc"]);
    go(&mut ed, Command::Move(Direction::Right));
    go(&mut ed, Command::DeleteForward);
    assert_eq!(line(&ed, 0), "ac");
    assert_eq!(ed.cursor_position(), Position { x: 1, y: 0 });
}

#[test]
fn toggle_mode_makes_up_and_down_reorder_lines() {
    let mut ed = editor(&["a", "b", "c"]);
    assert_eq!(ed.mode(), EditorMode::Normal);
    go(&mut ed, Command::ToggleLineMoveMode);
    assert_eq!(ed.mode(), EditorMode::PendingLineMove);
    go(&mut ed, Command::Move(Direction::Down));
    assert_eq!(line(&ed, 0), "b");
    assert_eq!(line(&ed, 1), "a");
    assert_eq!(line(&ed, 2), "c");
    assert_eq!(ed.cursor_position(), Position { x: 0, y: 1 });
    // The mode stays until toggled back.
    assert_eq!(ed.mode(), EditorMode::PendingLineMove);
    go(&mut ed, Command::ToggleLineMoveMode);
    assert_eq!(ed.mode(), EditorMode::Normal);
    go(&mut ed, Command::Move(Direction::Down));
    assert_eq!(line(&ed, 1), "a");
    assert_eq!(ed.cursor_position(), Position { x: 0, y: 2 });
}

#[test]
fn move_line_up_follows_the_line() {
    let mut ed = editor(&["a", "b"]);
    go(&mut ed, Command::Move(Direction::Down));
    go(&mut ed, Command::MoveLine(Direction::Up));
    assert_eq!(line(&ed, 0), "b");
    assert_eq!(line(&ed, 1), "a");
    assert_eq!(ed.cursor_position(), Position { x: 0, y: 0 });
    assert!(ed.is_dirty());
}

#[test]
fn move_first_line_up_drops_it() {
    // At the boundary the raw container operations remove the line
    // without re-inserting it.
    let mut ed = editor(&["a", "b"]);
    go(&mut ed, Command::MoveLine(Direction::Up));
    assert_eq!(ed.document().len(), 1);
    assert_eq!(line(&ed, 0), "b");
}

#[test]
fn find_command_jumps_to_the_match() {
    let mut ed = editor(&["hello world", "foo bar"]);
    go(&mut ed, Command::Find("bar".to_string()));
    assert_eq!(ed.cursor_position(), Position { x: 4, y: 1 });
    go(&mut ed, Command::Find("zzz".to_string()));
    assert_eq!(ed.cursor_position(), Position { x: 4, y: 1 });
}

#[test]
fn search_reports_the_match_position() {
    let mut ed = editor(&["abc", "abc"]);
    let hit = ed.search("bc");
    assert_eq!(hit, Some(Position { x: 1, y: 0 }));
    assert_eq!(ed.cursor_position(), Position { x: 1, y: 0 });
    assert_eq!(ed.search("nowhere"), None);
}

#[test]
fn delete_line_removes_it_and_reclamps_the_cursor() {
    let mut ed = editor(&["abc", "d"]);
    go(&mut ed, Command::Move(Direction::End));
    assert_eq!(ed.cursor_position(), Position { x: 3, y: 0 });
    go(&mut ed, Command::DeleteLine);
    assert_eq!(ed.document().len(), 1);
    assert_eq!(line(&ed, 0), "d");
    assert_eq!(ed.cursor_position(), Position { x: 1, y: 0 });
}

#[test]
fn set_buffer_name_names_the_document() {
    let mut ed = editor(&["a"]);
    go(&mut ed, Command::SetBufferName("draft.txt".to_string()));
    assert_eq!(ed.document().file_name, Some("draft.txt".to_string()));
}

#[test]
fn viewport_follows_the_cursor_and_is_idempotent() {
    let lines: Vec<String> = (0..50).map(|i| format!("{i}")).collect();
    let mut ed = Editor::new(Document::from_lines(&lines, None));
    for _ in 0..30 {
        ed.process_command(Command::Move(Direction::Down), 10, 5);
    }
    let offset = ed.offset();
    let cursor = ed.cursor_position();
    // The cursor lies inside the visible window.
    assert!(offset.y <= cursor.y && cursor.y < offset.y + 5);
    assert!(offset.x <= cursor.x && cursor.x < offset.x + 10);
    // Adjusting again with the same cursor and dimensions changes nothing.
    ed.scroll(10, 5);
    assert_eq!(ed.offset(), offset);
    ed.scroll(10, 5);
    assert_eq!(ed.offset(), offset);
}

#[test]
fn scrolling_up_pulls_the_offset_back() {
    let lines: Vec<String> = (0..50).map(|i| format!("{i}")).collect();
    let mut ed = Editor::new(Document::from_lines(&lines, None));
    for _ in 0..20 {
        ed.process_command(Command::Move(Direction::Down), 10, 5);
    }
    assert_eq!(ed.offset().y, 16);
    for _ in 0..20 {
        ed.process_command(Command::Move(Direction::Up), 10, 5);
    }
    assert_eq!(ed.offset().y, 0);
    assert_eq!(ed.cursor_position().y, 0);
}

#[test]
fn editing_marks_the_buffer_dirty_and_saving_clears_it() {
    let mut ed = editor(&["ab"]);
    assert!(!ed.is_dirty());
    go(&mut ed, Command::InsertChar('c'));
    assert!(ed.is_dirty());
    let saved = ed.save_lines();
    assert_eq!(saved, vec!["cab".to_string()]);
    ed.finish_save(false);
    assert!(ed.is_dirty());
    ed.finish_save(true);
    assert!(!ed.is_dirty());
}
