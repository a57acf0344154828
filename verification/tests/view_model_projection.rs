use note_tui::controller::{App, InputPopup, Key};
use note_tui::note::Note;
use note_tui::session::FieldFocus;
use note_tui::view_model::{usize_to_string, ViewModel};

fn note(tag: &str, body: &str) -> Note {
    Note { tag: tag.to_string(), body: body.to_string() }
}

#[test]
fn decimal_rendering_of_indices() {
    assert_eq!(usize_to_string(0), "0");
    assert_eq!(usize_to_string(7), "7");
    assert_eq!(usize_to_string(10), "10");
    assert_eq!(usize_to_string(305), "305");
}

#[test]
fn note_format_builds_the_display_line() {
    let n = note("work", "buy milk");
    assert_eq!(n.format(0), "0: work - buy milk");
    assert_eq!(n.format(12), "12: work - buy milk");
}

#[test]
fn projection_lists_all_notes_and_highlight() {
    let mut app = App::with_notes(vec![note("a", "1"), note("b", "2")]);
    app.handle_key(&Key::Char('j'));
    let vm = ViewModel::project(&app);
    assert_eq!(vm.lines, vec!["0: a - 1".to_string(), "1: b - 2".to_string()]);
    assert_eq!(vm.highlighted, Some(1));
    assert!(vm.popup.is_none());
}

#[test]
fn projection_of_empty_store() {
    let app = App::default();
    let vm = ViewModel::project(&app);
    assert!(vm.lines.is_empty());
    assert_eq!(vm.highlighted, None);
    assert!(vm.popup.is_none());
}

#[test]
fn popup_shows_draft_fields_in_direct_mode() {
    let mut app = App::default();
    app.handle_key(&Key::Char('a'));
    app.handle_key(&Key::Char('i'));
    for c in "work".chars() {
        app.handle_key(&Key::Char(c));
    }
    app.handle_key(&Key::Enter);
    let p = InputPopup::render(&app);
    assert_eq!(p.tag_text, "work");
    assert_eq!(p.body_text, "");
    assert!(!p.editing);
    assert_eq!(p.cursor, 0);
    let vm = ViewModel::project(&app);
    assert!(vm.popup.is_some());
}

#[test]
fn popup_shows_live_buffer_while_typing() {
    let mut app = App::default();
    app.handle_key(&Key::Char('a'));
    app.handle_key(&Key::Char('i'));
    for c in "wo".chars() {
        app.handle_key(&Key::Char(c));
    }
    let p = InputPopup::render(&app);
    assert_eq!(p.tag_text, "wo");
    assert!(p.editing);
    assert_eq!(p.focus, FieldFocus::Tag);
    assert_eq!(p.cursor, 2);
}
