use note_tui::note::Note;

#[test]
fn line_with_colon_splits_into_tag_and_body() {
    let n = Note::new("urgent: call bob".to_string());
    assert_eq!(n.tag, "urgent");
    assert_eq!(n.body, "call bob");
}

#[test]
fn line_without_colon_gets_empty_tag() {
    let n = Note::new("buy milk".to_string());
    assert_eq!(n.tag, "");
    assert_eq!(n.body, "buy milk");
}

#[test]
fn split_happens_at_first_colon_only() {
    let n = Note::new("a:b:c".to_string());
    assert_eq!(n.tag, "a");
    assert_eq!(n.body, "b:c");
}

#[test]
fn both_sides_are_trimmed() {
    let n = Note::new("  home  :  water plants  ".to_string());
    assert_eq!(n.tag, "home");
    assert_eq!(n.body, "water plants");
}

#[test]
fn line_without_colon_is_trimmed() {
    let n = Note::new("\t buy milk \r\n".to_string());
    assert_eq!(n.tag, "");
    assert_eq!(n.body, "buy milk");
}

#[test]
fn empty_line_gives_empty_note() {
    let n = Note::new("".to_string());
    assert_eq!(n.tag, "");
    assert_eq!(n.body, "");
}

#[test]
fn lone_colon_gives_empty_fields() {
    let n = Note::new(":".to_string());
    assert_eq!(n.tag, "");
    assert_eq!(n.body, "");
}

#[test]
fn duplicate_copies_both_fields() {
    let n = Note { tag: "t".to_string(), body: "b".to_string() };
    let c = n.duplicate();
    assert_eq!(c.tag, "t");
    assert_eq!(c.body, "b");
}
