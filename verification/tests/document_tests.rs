use hecto::Document;
use hecto::Position;

fn doc_lines(d: &Document) -> Vec<String> {
    let mut v = Vec::new();
    let mut i = 0;
    while let Some(row) = d.row(i) {
        v.push(row.as_text());
        i += 1;
    }
    v
}

#[test]
fn from_text_splits_lines() {
    let d = Document::from_text("abc\nde");
    assert_eq!(d.len(), 2);
    assert_eq!(doc_lines(&d), vec!["abc".to_string(), "de".to_string()]);
    assert!(d.file_name().is_none());
}

#[test]
fn from_text_trailing_separator_opens_no_row() {
    let d = Document::from_text("abc\nde\n");
    assert_eq!(d.len(), 2);
    assert_eq!(doc_lines(&d), vec!["abc".to_string(), "de".to_string()]);
}

#[test]
fn from_text_empty_and_lone_separator() {
    let d = Document::from_text("");
    assert_eq!(d.len(), 0);
    assert!(d.is_empty());
    let d2 = Document::from_text("\n");
    assert_eq!(d2.len(), 1);
    assert_eq!(d2.row(0).unwrap().as_text(), "");
}

#[test]
fn to_text_appends_one_separator_per_row() {
    let d = Document::from_text("abc\nde");
    assert_eq!(d.to_text(), "abc\nde\n");
}

#[test]
fn save_round_trip_preserves_lines() {
    let original = "first line\nsecond\n\nlast\n";
    let d = Document::from_text(original);
    assert_eq!(d.to_text(), original);
}

#[test]
fn save_round_trip_normalizes_missing_final_separator() {
    let d = Document::from_text("a\nb");
    assert_eq!(d.to_text(), "a\nb\n");
}

#[test]
fn insert_into_row() {
    let mut d = Document::from_text("ac");
    d.insert(&Position { x: 1, y: 0 }, 'b');
    assert_eq!(doc_lines(&d), vec!["abc".to_string()]);
}

#[test]
fn insert_on_virtual_row_appends() {
    let mut d = Document::from_text("ab");
    d.insert(&Position { x: 0, y: 1 }, 'c');
    assert_eq!(doc_lines(&d), vec!["ab".to_string(), "c".to_string()]);
}

#[test]
fn insert_past_virtual_row_is_noop() {
    let mut d = Document::from_text("ab");
    d.insert(&Position { x: 0, y: 5 }, 'c');
    assert_eq!(doc_lines(&d), vec!["ab".to_string()]);
}

#[test]
fn insert_separator_breaks_line() {
    let mut d = Document::from_text("abcd");
    d.insert(&Position { x: 2, y: 0 }, '\n');
    assert_eq!(doc_lines(&d), vec!["ab".to_string(), "cd".to_string()]);
}

#[test]
fn line_break_splits_row() {
    let mut d = Document::from_text("abc\nde");
    d.insert_line_break(&Position { x: 1, y: 0 });
    assert_eq!(
        doc_lines(&d),
        vec!["a".to_string(), "bc".to_string(), "de".to_string()]
    );
}

#[test]
fn line_break_on_virtual_row_appends_empty() {
    let mut d = Document::from_text("ab");
    d.insert_line_break(&Position { x: 0, y: 1 });
    assert_eq!(doc_lines(&d), vec!["ab".to_string(), "".to_string()]);
}

#[test]
fn line_break_past_virtual_row_is_noop() {
    let mut d = Document::from_text("ab");
    d.insert_line_break(&Position { x: 0, y: 7 });
    assert_eq!(d.len(), 1);
}

#[test]
fn delete_scalar_in_row() {
    let mut d = Document::from_text("abc");
    d.delete(&Position { x: 1, y: 0 });
    assert_eq!(doc_lines(&d), vec!["ac".to_string()]);
}

#[test]
fn delete_at_row_end_merges_next() {
    let mut d = Document::from_text("ab\ncd");
    d.delete(&Position { x: 2, y: 0 });
    assert_eq!(doc_lines(&d), vec!["abcd".to_string()]);
}

#[test]
fn delete_at_end_of_last_row_is_noop() {
    let mut d = Document::from_text("ab\ncd");
    d.delete(&Position { x: 2, y: 1 });
    assert_eq!(doc_lines(&d), vec!["ab".to_string(), "cd".to_string()]);
}

#[test]
fn delete_past_document_is_noop() {
    let mut d = Document::from_text("ab");
    d.delete(&Position { x: 0, y: 3 });
    assert_eq!(d.len(), 1);
}

#[test]
fn insert_then_delete_restores_row() {
    let mut d = Document::from_text("hello\nworld");
    let pos = Position { x: 3, y: 1 };
    d.insert(&pos, 'z');
    assert_eq!(d.row(1).unwrap().as_text(), "worzld");
    d.delete(&pos);
    assert_eq!(doc_lines(&d), vec!["hello".to_string(), "world".to_string()]);
}

#[test]
fn break_then_delete_at_merge_point_restores() {
    let mut d = Document::from_text("hello\nworld");
    d.insert_line_break(&Position { x: 2, y: 0 });
    assert_eq!(
        doc_lines(&d),
        vec!["he".to_string(), "llo".to_string(), "world".to_string()]
    );
    let merge_x = d.row(0).unwrap().len();
    d.delete(&Position { x: merge_x, y: 0 });
    assert_eq!(doc_lines(&d), vec!["hello".to_string(), "world".to_string()]);
}

#[test]
fn set_file_records_path() {
    let mut d = Document::from_text("x");
    d.set_file(Some("notes.txt".to_string()));
    assert_eq!(d.file_name().as_deref(), Some("notes.txt"));
}
