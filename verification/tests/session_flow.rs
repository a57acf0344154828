use note_tui::buffer::TextBuffer;
use note_tui::note::Note;
use note_tui::session::{EditSession, FieldFocus};

#[test]
fn new_session_is_empty_and_focuses_tag() {
    let s = EditSession::new();
    assert_eq!(s.draft.tag, "");
    assert_eq!(s.draft.body, "");
    assert_eq!(s.focus, FieldFocus::Tag);
}

#[test]
fn begin_new_resets_a_used_session() {
    let mut s = EditSession::new();
    s.focus_next();
    s.commit_field("something".to_string());
    s.begin_new();
    assert_eq!(s.draft.body, "");
    assert_eq!(s.focus, FieldFocus::Tag);
}

#[test]
fn begin_editing_copies_the_note() {
    let mut s = EditSession::new();
    let n = Note { tag: "t".to_string(), body: "b".to_string() };
    s.begin_editing(&n);
    assert_eq!(s.draft.tag, "t");
    assert_eq!(s.draft.body, "b");
    assert_eq!(s.focus, FieldFocus::Tag);
}

#[test]
fn commit_field_writes_the_focused_field() {
    let mut s = EditSession::new();
    s.commit_field("work".to_string());
    assert_eq!(s.draft.tag, "work");
    assert_eq!(s.draft.body, "");
    s.focus_next();
    s.commit_field("buy milk".to_string());
    assert_eq!(s.draft.tag, "work");
    assert_eq!(s.draft.body, "buy milk");
}

#[test]
fn focus_toggles_without_wrapping() {
    let mut s = EditSession::new();
    s.focus_prev();
    assert_eq!(s.focus, FieldFocus::Tag);
    s.focus_next();
    s.focus_next();
    assert_eq!(s.focus, FieldFocus::Body);
    s.focus_prev();
    assert_eq!(s.focus, FieldFocus::Tag);
}

#[test]
fn load_field_into_buffer_loads_focused_text() {
    let mut s = EditSession::new();
    s.commit_field("tagtext".to_string());
    let mut b = TextBuffer::new();
    s.load_field_into_buffer(&mut b);
    assert_eq!(b.to_text(), "tagtext");
    assert_eq!(b.cursor, 7);
    s.focus_next();
    s.load_field_into_buffer(&mut b);
    assert_eq!(b.to_text(), "");
    assert_eq!(b.cursor, 0);
}

#[test]
fn finalize_returns_draft_and_resets_it() {
    let mut s = EditSession::new();
    s.commit_field("t".to_string());
    s.focus_next();
    s.commit_field("b".to_string());
    let n = s.finalize();
    assert_eq!(n.tag, "t");
    assert_eq!(n.body, "b");
    assert_eq!(s.draft.tag, "");
    assert_eq!(s.draft.body, "");
    assert_eq!(s.focus, FieldFocus::Body);
}
