use note_tui::note::Note;
use note_tui::store::NoteStore;

fn note(tag: &str, body: &str) -> Note {
    Note { tag: tag.to_string(), body: body.to_string() }
}

fn check_selection(s: &NoteStore) {
    match s.selection {
        Some(i) => assert!(i < s.notes.len()),
        None => assert!(s.notes.is_empty()),
    }
}

#[test]
fn empty_store_has_no_selection() {
    let s = NoteStore::new(Vec::new());
    assert_eq!(s.selection, None);
    assert_eq!(s.len(), 0);
}

#[test]
fn new_store_selects_first_note() {
    let s = NoteStore::new(vec![note("a", "x"), note("b", "y")]);
    assert_eq!(s.selection, Some(0));
}

#[test]
fn move_selection_stays_in_range() {
    // Selection stays within [0, N-1] over any sequence of moves.
    let mut s = NoteStore::new(vec![note("a", "x"), note("b", "y"), note("c", "z")]);
    for delta in [1, 1, 1, 1, 1, -1, -1, -1, -1, -1, 1, -1] {
        s.move_selection(delta);
        check_selection(&s);
    }
    assert_eq!(s.selection, Some(0));
    s.move_selection(1);
    assert_eq!(s.selection, Some(1));
    s.move_selection(1);
    s.move_selection(1);
    s.move_selection(1);
    assert_eq!(s.selection, Some(2));
}

#[test]
fn move_selection_on_empty_store_is_noop() {
    let mut s = NoteStore::new(Vec::new());
    s.move_selection(1);
    assert_eq!(s.selection, None);
    s.move_selection(-1);
    assert_eq!(s.selection, None);
}

#[test]
fn delete_selected_middle_keeps_index() {
    // Deleting index i of a longer store selects min(i, N-2).
    let mut s = NoteStore::new(vec![note("a", "x"), note("b", "y"), note("c", "z")]);
    s.move_selection(1);
    assert_eq!(s.selection, Some(1));
    assert!(s.delete_selected());
    assert_eq!(s.len(), 2);
    assert_eq!(s.selection, Some(1));
    assert_eq!(s.notes[0].tag, "a");
    assert_eq!(s.notes[1].tag, "c");
}

#[test]
fn delete_selected_last_clamps_down() {
    let mut s = NoteStore::new(vec![note("a", "x"), note("b", "y"), note("c", "z")]);
    s.move_selection(1);
    s.move_selection(1);
    assert_eq!(s.selection, Some(2));
    assert!(s.delete_selected());
    assert_eq!(s.len(), 2);
    assert_eq!(s.selection, Some(1));
}

#[test]
fn delete_last_remaining_note_clears_selection() {
    let mut s = NoteStore::new(vec![note("a", "x")]);
    assert!(s.delete_selected());
    assert_eq!(s.len(), 0);
    assert_eq!(s.selection, None);
}

#[test]
fn delete_on_empty_store_returns_false() {
    let mut s = NoteStore::new(Vec::new());
    assert!(!s.delete_selected());
    assert_eq!(s.len(), 0);
    assert_eq!(s.selection, None);
}

#[test]
fn append_does_not_move_selection() {
    let mut s = NoteStore::new(vec![note("a", "x"), note("b", "y")]);
    s.move_selection(1);
    s.append(note("c", "z"));
    assert_eq!(s.selection, Some(1));
    assert_eq!(s.len(), 3);
    assert_eq!(s.notes[2].tag, "c");
}

#[test]
fn append_to_empty_store_selects_the_note() {
    let mut s = NoteStore::new(Vec::new());
    s.append(note("a", "x"));
    assert_eq!(s.selection, Some(0));
    check_selection(&s);
}

#[test]
fn note_at_selection_follows_selection() {
    let mut s = NoteStore::new(vec![note("a", "x"), note("b", "y")]);
    assert_eq!(s.note_at_selection().unwrap().tag, "a");
    s.move_selection(1);
    assert_eq!(s.note_at_selection().unwrap().tag, "b");
    let empty = NoteStore::new(Vec::new());
    assert!(empty.note_at_selection().is_none());
}
