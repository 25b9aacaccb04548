use hecto::Document;
use hecto::Editor;
use hecto::Position;
use hecto::Row;
use hecto::StatusMessage;
use hecto::Terminal;

fn editor_over(text: &str, colums: u16, raw_rows: u16) -> Editor {
    let terminal = Terminal::new(colums, raw_rows);
    let document = Document::from_text(text);
    let status = StatusMessage::from("HELP: Ctrl-Q = quit".to_string(), 0);
    Editor::new(terminal, document, status)
}

#[test]
fn welcome_banner_renders_once_centered() {
    // Viewport height 24: the banner lands at terminal row 12 and nowhere
    // else.
    let e = editor_over("", 80, 26);
    assert_eq!(e.terminal.size().rows, 24);
    let rows = e.frame_rows();
    assert_eq!(rows.len(), 24);
    let banner_rows: Vec<usize> = rows
        .iter()
        .enumerate()
        .filter(|(_, line)| line.contains("Hecto editor"))
        .map(|(i, _)| i)
        .collect();
    assert_eq!(banner_rows, vec![12]);
    let expected = format!(" 13{}Hecto editor -- version 0.1.0", " ".repeat(24));
    assert_eq!(rows[12], expected);
}

#[test]
fn welcome_banner_cut_to_narrow_terminal() {
    let e = editor_over("", 20, 26);
    let w = e.welcome_messages();
    assert_eq!(w, "Hecto editor -- vers");
    assert_eq!(w.chars().count(), 20);
}

#[test]
fn frame_rows_show_document_and_filler() {
    let e = editor_over("abc\nde", 80, 6);
    let rows = e.frame_rows();
    assert_eq!(rows.len(), 4);
    assert_eq!(rows[0], "  1 abc");
    assert_eq!(rows[1], "  2 de");
    assert_eq!(rows[2], "  3 ");
    assert_eq!(rows[3], "  4 ");
}

#[test]
fn frame_rows_follow_vertical_offset() {
    let mut e = editor_over("a\nb\nc\nd\ne", 80, 4);
    e.offset = Position { x: 0, y: 2 };
    let rows = e.frame_rows();
    assert_eq!(rows.len(), 2);
    assert_eq!(rows[0], "  3 c");
    assert_eq!(rows[1], "  4 d");
}

#[test]
fn gutter_grows_past_three_digits() {
    let mut many = String::new();
    for _ in 0..1000 {
        many.push_str("x\n");
    }
    let mut e = editor_over(&many, 80, 4);
    e.offset = Position { x: 0, y: 999 };
    let rows = e.frame_rows();
    assert_eq!(rows[0], "1000 x");
}

#[test]
fn render_row_clips_to_viewport_window() {
    let e = editor_over("abcdefghij", 10, 26);
    let row = Row::from("abcdefghij");
    // Ten columns less the four-column gutter: six visible scalars.
    assert_eq!(e.render_row(&row), "abcdef");
}

#[test]
fn render_row_honours_horizontal_offset() {
    let mut e = editor_over("abcdefghij", 10, 26);
    e.offset = Position { x: 2, y: 0 };
    let row = Row::from("abcdefghij");
    assert_eq!(e.render_row(&row), "cdefgh");
}

#[test]
fn status_bar_untitled_layout() {
    let mut e = editor_over("abc\nde", 40, 26);
    e.cursor_position = Position { x: 0, y: 0 };
    let s = e.status_bar_text();
    let expected = format!("[Untitled] | 2 lines{}1/2", " ".repeat(17));
    assert_eq!(s, expected);
    assert_eq!(s.chars().count(), 40);
}

#[test]
fn status_bar_shows_file_name_tail() {
    let mut e = editor_over("x", 60, 26);
    e.document
        .set_file(Some("a-rather-long-directory/notes.txt".to_string()));
    let s = e.status_bar_text();
    assert!(s.starts_with("  irectory/notes.txt"));
    assert!(!s.contains("a-rather-long"));
}

#[test]
fn status_bar_short_file_name_kept_whole() {
    let mut e = editor_over("x", 40, 26);
    e.document.set_file(Some("notes.txt".to_string()));
    let s = e.status_bar_text();
    assert!(s.starts_with("  notes.txt | 1 lines"));
}

#[test]
fn status_bar_cut_to_narrow_terminal() {
    let e = editor_over("abc", 10, 26);
    let s = e.status_bar_text();
    assert_eq!(s, "[Untitled]");
}

#[test]
fn message_bar_cut_to_terminal_width() {
    let terminal = Terminal::new(10, 26);
    let document = Document::from_text("");
    let status = StatusMessage::from("a very long status message".to_string(), 0);
    let e = Editor::new(terminal, document, status);
    assert_eq!(e.message_bar_text(0), "a very lon");
}
