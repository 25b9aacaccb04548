use hecto::Command;
use hecto::Document;
use hecto::Editor;
use hecto::NavKey;
use hecto::Position;
use hecto::StatusMessage;
use hecto::Terminal;
use hecto::startup_document;

fn editor_over(text: &str, colums: u16, raw_rows: u16) -> Editor {
    let terminal = Terminal::new(colums, raw_rows);
    let document = Document::from_text(text);
    let status = StatusMessage::from("HELP: Ctrl-Q = quit".to_string(), 0);
    Editor::new(terminal, document, status)
}

fn cursor(e: &Editor) -> (usize, usize) {
    (e.cursor_position.x, e.cursor_position.y)
}

#[test]
fn terminal_reserves_two_rows() {
    let t = Terminal::new(80, 24);
    assert_eq!(t.size().colums, 80);
    assert_eq!(t.size().rows, 22);
    let tiny = Terminal::new(5, 1);
    assert_eq!(tiny.size().rows, 0);
}

#[test]
fn new_editor_starts_at_origin() {
    let e = editor_over("abc", 80, 26);
    assert_eq!(cursor(&e), (0, 0));
    assert_eq!((e.offset.x, e.offset.y), (0, 0));
    assert!(!e.quit);
}

#[test]
fn right_at_end_of_line_wraps_to_next_row() {
    let mut e = editor_over("abc\nde", 80, 26);
    e.cursor_position = Position { x: 3, y: 0 };
    e.move_cursor(NavKey::Right);
    assert_eq!(cursor(&e), (0, 1));
}

#[test]
fn delete_at_end_of_last_row_is_noop_scenario() {
    let mut e = editor_over("abc\nde", 80, 26);
    e.cursor_position = Position { x: 2, y: 1 };
    e.process_key(Command::DeleteForward);
    assert_eq!(e.document.len(), 2);
    assert_eq!(e.document.row(0).unwrap().as_text(), "abc");
    assert_eq!(e.document.row(1).unwrap().as_text(), "de");
}

#[test]
fn line_break_splits_de_scenario() {
    let mut e = editor_over("abc\nde", 80, 26);
    e.document.insert_line_break(&Position { x: 1, y: 1 });
    assert_eq!(e.document.len(), 3);
    assert_eq!(e.document.row(0).unwrap().as_text(), "abc");
    assert_eq!(e.document.row(1).unwrap().as_text(), "d");
    assert_eq!(e.document.row(2).unwrap().as_text(), "e");
}

#[test]
fn left_at_column_zero_goes_to_previous_row_end() {
    let mut e = editor_over("abcd\nef", 80, 26);
    e.cursor_position = Position { x: 0, y: 1 };
    e.move_cursor(NavKey::Left);
    assert_eq!(cursor(&e), (4, 0));
}

#[test]
fn left_at_origin_stays() {
    let mut e = editor_over("ab", 80, 26);
    e.move_cursor(NavKey::Left);
    assert_eq!(cursor(&e), (0, 0));
}

#[test]
fn up_clamps_x_to_shorter_row() {
    let mut e = editor_over("ab\nlonger", 80, 26);
    e.cursor_position = Position { x: 6, y: 1 };
    e.move_cursor(NavKey::Up);
    assert_eq!(cursor(&e), (2, 0));
}

#[test]
fn down_stops_at_virtual_append_row() {
    let mut e = editor_over("ab\ncd", 80, 26);
    e.cursor_position = Position { x: 0, y: 1 };
    e.move_cursor(NavKey::Down);
    assert_eq!(cursor(&e), (0, 2));
    e.move_cursor(NavKey::Down);
    assert_eq!(cursor(&e), (0, 2));
}

#[test]
fn home_and_end() {
    let mut e = editor_over("abcdef", 80, 26);
    e.cursor_position = Position { x: 3, y: 0 };
    e.move_cursor(NavKey::End);
    assert_eq!(cursor(&e), (6, 0));
    e.move_cursor(NavKey::Home);
    assert_eq!(cursor(&e), (0, 0));
}

#[test]
fn cursor_never_past_row_end_after_any_moves() {
    let mut e = editor_over("ab\nlonger line\nx\n\nmore", 7, 5);
    let keys = [
        NavKey::Down,
        NavKey::End,
        NavKey::Up,
        NavKey::Right,
        NavKey::Right,
        NavKey::Down,
        NavKey::Down,
        NavKey::Left,
        NavKey::PageDown,
        NavKey::End,
        NavKey::PageUp,
        NavKey::Down,
    ];
    for k in keys {
        e.move_cursor(k);
        let row_len = e
            .document
            .row(e.cursor_position.y)
            .map(|r| r.len())
            .unwrap_or(0);
        assert!(e.cursor_position.x <= row_len);
    }
}

#[test]
fn viewport_follows_cursor() {
    let mut e = editor_over("a\nb\nc\nd\ne\nf\ng\nh", 80, 5);
    assert_eq!(e.terminal.size().rows, 3);
    for _ in 0..6 {
        e.move_cursor(NavKey::Down);
    }
    let h = e.terminal.size().rows as usize;
    assert!(e.offset.y <= e.cursor_position.y);
    assert!(e.cursor_position.y < e.offset.y + h);
    for _ in 0..6 {
        e.move_cursor(NavKey::Up);
    }
    assert!(e.offset.y <= e.cursor_position.y);
    assert!(e.cursor_position.y < e.offset.y + h);
}

#[test]
fn horizontal_scroll_follows_cursor() {
    let mut e = editor_over("abcdefghijklmnop", 6, 12);
    for _ in 0..10 {
        e.move_cursor(NavKey::Right);
    }
    let w = e.terminal.size().colums as usize;
    assert!(e.offset.x <= e.cursor_position.x);
    assert!(e.cursor_position.x < e.offset.x + w);
}

#[test]
fn page_down_jumps_a_viewport() {
    let mut e = editor_over("a\nb\nc\nd\ne\nf\ng\nh\ni\nj", 80, 5);
    e.move_cursor(NavKey::PageDown);
    assert_eq!(e.cursor_position.y, 3);
    e.move_cursor(NavKey::PageDown);
    assert_eq!(e.cursor_position.y, 6);
}

#[test]
fn page_up_jumps_back_and_saturates() {
    let mut e = editor_over("a\nb\nc\nd\ne\nf\ng\nh\ni\nj", 80, 5);
    for _ in 0..3 {
        e.move_cursor(NavKey::PageDown);
    }
    e.move_cursor(NavKey::PageUp);
    e.move_cursor(NavKey::PageUp);
    e.move_cursor(NavKey::PageUp);
    assert_eq!(e.cursor_position.y, 0);
    assert_eq!(e.offset.y, 0);
}

#[test]
fn insert_advances_cursor() {
    let mut e = editor_over("", 80, 26);
    e.process_key(Command::Insert('h'));
    e.process_key(Command::Insert('i'));
    assert_eq!(e.document.row(0).unwrap().as_text(), "hi");
    assert_eq!(cursor(&e), (2, 0));
}

#[test]
fn break_moves_cursor_to_next_line_start() {
    let mut e = editor_over("abcd", 80, 26);
    e.cursor_position = Position { x: 2, y: 0 };
    e.process_key(Command::Break);
    assert_eq!(e.document.row(0).unwrap().as_text(), "ab");
    assert_eq!(e.document.row(1).unwrap().as_text(), "cd");
    assert_eq!(cursor(&e), (0, 1));
}

#[test]
fn backspace_deletes_previous_scalar() {
    let mut e = editor_over("abc", 80, 26);
    e.cursor_position = Position { x: 2, y: 0 };
    e.process_key(Command::Backspace);
    assert_eq!(e.document.row(0).unwrap().as_text(), "ac");
    assert_eq!(cursor(&e), (1, 0));
}

#[test]
fn backspace_at_column_zero_merges_lines() {
    let mut e = editor_over("ab\ncd", 80, 26);
    e.cursor_position = Position { x: 0, y: 1 };
    e.process_key(Command::Backspace);
    assert_eq!(e.document.len(), 1);
    assert_eq!(e.document.row(0).unwrap().as_text(), "abcd");
    assert_eq!(cursor(&e), (2, 0));
}

#[test]
fn backspace_at_document_start_is_noop() {
    let mut e = editor_over("ab", 80, 26);
    e.process_key(Command::Backspace);
    assert_eq!(e.document.row(0).unwrap().as_text(), "ab");
    assert_eq!(cursor(&e), (0, 0));
}

#[test]
fn quit_command_sets_flag_and_touches_nothing_else() {
    let mut e = editor_over("ab", 80, 26);
    e.process_key(Command::Quit);
    assert!(e.quit);
    assert_eq!(e.document.len(), 1);
    assert_eq!(cursor(&e), (0, 0));
}

#[test]
fn screen_cursor_shifts_past_gutter() {
    let mut e = editor_over("abcdef", 80, 26);
    e.cursor_position = Position { x: 3, y: 0 };
    let p = e.screen_cursor();
    assert_eq!((p.x, p.y), (7, 0));
}

#[test]
fn startup_with_unreadable_path_names_it_in_status() {
    let (d, status) = startup_document(Some("no/such/file.txt".to_string()), None);
    assert!(d.is_empty());
    assert!(d.file_name().is_none());
    assert_eq!(status, "ERR: Could not open file: no/such/file.txt");
    assert!(status.contains("no/such/file.txt"));
}

#[test]
fn startup_without_path_is_help_hint() {
    let (d, status) = startup_document(None, None);
    assert!(d.is_empty());
    assert_eq!(status, "HELP: Ctrl-Q = quit");
}

#[test]
fn startup_with_contents_loads_and_names_document() {
    let (d, status) = startup_document(Some("a.txt".to_string()), Some("x\ny".to_string()));
    assert_eq!(d.len(), 2);
    assert_eq!(d.file_name().as_deref(), Some("a.txt"));
    assert_eq!(status, "HELP: Ctrl-Q = quit");
}

#[test]
fn message_bar_respects_expiry() {
    let e = editor_over("ab", 80, 26);
    let fresh = e.message_bar_text(4999);
    assert_eq!(fresh, "HELP: Ctrl-Q = quit");
    let stale = e.message_bar_text(5000);
    assert_eq!(stale, "");
}
