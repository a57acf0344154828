//! The modal input controller: one key event at a time drives the
//! store, the edit session and the text buffer through the mode
//! machine. The whole transition table is stated as the spec function
//! `step`, and the handlers are proved to follow it.

use vstd::prelude::*;

verus! {

use crate::buffer::TextBuffer;
use crate::buffer::BufferView;
use crate::note::Note;
use crate::note::NoteView;
use crate::note::line_tag;
use crate::note::line_body;
use crate::store::NoteStore;
use crate::store::StoreView;
use crate::session::EditSession;
use crate::session::SessionView;
use crate::session::FieldFocus;

/// One key event, as the controller understands it.
#[derive(PartialEq, Eq, Structural, Clone, Copy, Debug)]
pub enum Key {
    Char(char),
    Enter,
    Esc,
    Backspace,
    Left,
    Right,
    Other,
}

/// The interaction mode. `ViewConfirmDelete` is the state between the
/// two keystrokes of the delete confirmation: the next key either
/// confirms the deletion or aborts it.
#[derive(PartialEq, Eq, Structural, Clone, Copy, Debug)]
pub enum Mode {
    View,
    ViewConfirmDelete,
    EditingDirect,
    EditingTag,
    EditingBody,
}

/// What the caller must do after a key event: keep going, persist and
/// terminate, or run the external import and hand the produced line
/// back through `App::import_line`.
#[derive(PartialEq, Eq, Structural, Clone, Copy, Debug)]
pub enum Action {
    Continue,
    Quit,
    RunImport,
}

/// The abstract value of the whole application state.
#[verifier::ext_equal]
pub struct AppView {
    pub store: StoreView,
    pub mode: Mode,
    pub session: SessionView,
    pub buffer: BufferView,
}

/// The transition for a key event in `View` mode.
pub open spec fn step_view(a: AppView, key: Key) -> (AppView, Action) {
    match key {
        Key::Char(c) => if c == 'q' {
            (a, Action::Quit)
        } else if c == 'j' {
            (AppView { store: a.store.step_move(1), ..a }, Action::Continue)
        } else if c == 'k' {
            (AppView { store: a.store.step_move(-1), ..a }, Action::Continue)
        } else if c == 'd' {
            (AppView { mode: Mode::ViewConfirmDelete, ..a }, Action::Continue)
        } else if c == 'a' {
            (
                AppView { mode: Mode::EditingDirect, session: SessionView::reset(), ..a },
                Action::Continue,
            )
        } else if c == 'e' {
            (a, Action::RunImport)
        } else {
            (a, Action::Continue)
        },
        _ => (a, Action::Continue),
    }
}

/// The transition for the second key of the delete confirmation: a
/// second `d` deletes the selected note, any other key aborts.
pub open spec fn step_confirm(a: AppView, key: Key) -> (AppView, Action) {
    if key == Key::Char('d') {
        (AppView { store: a.store.step_delete(), mode: Mode::View, ..a }, Action::Continue)
    } else {
        (AppView { mode: Mode::View, ..a }, Action::Continue)
    }
}

/// The transition for a key event in `EditingDirect` mode.
pub open spec fn step_direct(a: AppView, key: Key) -> (AppView, Action) {
    match key {
        Key::Esc => (
            (AppView { mode: Mode::View, session: SessionView::reset(), ..a }),
            Action::Continue,
        ),
        Key::Char(c) => if c == 'j' {
            (
                (AppView {
                    session: SessionView { focus: FieldFocus::Body, ..a.session },
                    ..a
                }),
                Action::Continue,
            )
        } else if c == 'k' {
            (
                (AppView { session: SessionView { focus: FieldFocus::Tag, ..a.session }, ..a }),
                Action::Continue,
            )
        } else if c == 'i' {
            (
                (AppView {
                    mode: match a.session.focus {
                        FieldFocus::Tag => Mode::EditingTag,
                        FieldFocus::Body => Mode::EditingBody,
                    },
                    buffer: BufferView {
                        chars: a.session.focused_text(),
                        cursor: a.session.focused_text().len() as int,
                    },
                    ..a
                }),
                Action::Continue,
            )
        } else {
            (a, Action::Continue)
        },
        Key::Enter => (
            (AppView {
                store: a.store.step_append(a.session.draft),
                session: SessionView { draft: SessionView::reset().draft, ..a.session },
                mode: Mode::View,
                ..a
            }),
            Action::Continue,
        ),
        _ => (a, Action::Continue),
    }
}

/// The transition for a key event while a field is being typed into
/// (`EditingTag` or `EditingBody`).
pub open spec fn step_input(a: AppView, key: Key) -> (AppView, Action) {
    match key {
        Key::Char(c) => (
            (AppView {
                buffer: BufferView {
                    chars: a.buffer.chars.insert(a.buffer.cursor, c),
                    cursor: a.buffer.cursor + 1,
                },
                ..a
            }),
            Action::Continue,
        ),
        Key::Backspace => (
            (AppView {
                buffer: if a.buffer.cursor > 0 {
                    BufferView {
                        chars: a.buffer.chars.remove(a.buffer.cursor - 1),
                        cursor: a.buffer.cursor - 1,
                    }
                } else {
                    a.buffer
                },
                ..a
            }),
            Action::Continue,
        ),
        Key::Left => (
            (AppView {
                buffer: BufferView {
                    chars: a.buffer.chars,
                    cursor: if a.buffer.cursor > 0 {
                        a.buffer.cursor - 1
                    } else {
                        0
                    },
                },
                ..a
            }),
            Action::Continue,
        ),
        Key::Right => (
            (AppView {
                buffer: BufferView {
                    chars: a.buffer.chars,
                    cursor: if a.buffer.cursor < a.buffer.chars.len() {
                        a.buffer.cursor + 1
                    } else {
                        a.buffer.cursor
                    },
                },
                ..a
            }),
            Action::Continue,
        ),
        Key::Enter => (
            (AppView {
                session: if a.buffer.chars.len() > 0 {
                    a.session.step_commit(a.buffer.chars)
                } else {
                    a.session
                },
                buffer: BufferView { chars: Seq::empty(), cursor: 0 },
                mode: Mode::EditingDirect,
                ..a
            }),
            Action::Continue,
        ),
        Key::Esc => (
            (AppView {
                buffer: BufferView { chars: Seq::empty(), cursor: 0 },
                mode: Mode::EditingDirect,
                ..a
            }),
            Action::Continue,
        ),
        _ => (a, Action::Continue),
    }
}

/// The whole transition table: the application state and the action
/// produced by one key event.
pub open spec fn step(a: AppView, key: Key) -> (AppView, Action) {
    match a.mode {
        Mode::View => step_view(a, key),
        Mode::ViewConfirmDelete => step_confirm(a, key),
        Mode::EditingDirect => step_direct(a, key),
        Mode::EditingTag => step_input(a, key),
        Mode::EditingBody => step_input(a, key),
    }
}

/// The whole application state: the note store, the interaction mode,
/// the edit session and the text buffer.
pub struct App {
    pub store: NoteStore,
    pub mode: Mode,
    pub session: EditSession,
    pub buffer: TextBuffer,
}

impl View for App {
    type V = AppView;

    open spec fn view(&self) -> AppView {
        AppView { store: self.store@, mode: self.mode, session: self.session@, buffer: self.buffer@ }
    }
}

impl App {
    /// The application invariant: the store's selection and the
    /// buffer's cursor are valid, and while a field is being typed
    /// into, the session focuses that field.
    pub open spec fn wf(&self) -> bool {
        &&& self.store.wf()
        &&& self.buffer.wf()
        &&& self.mode == Mode::EditingTag ==> self.session.focus == FieldFocus::Tag
        &&& self.mode == Mode::EditingBody ==> self.session.focus == FieldFocus::Body
    }

    /// An application over the given notes, viewing, with the first
    /// note (if any) selected and an empty draft.
    pub fn with_notes(notes: Vec<Note>) -> (r: App)
        ensures
            r.wf(),
            r@.store.notes == notes.deep_view(),
            r@.store.selection == if notes.deep_view().len() == 0 {
                Option::<int>::None
            } else {
                Option::<int>::Some(0)
            },
            r@.mode == Mode::View,
            r@.session =~= SessionView::reset(),
            r@.buffer.chars.len() == 0,
            r@.buffer.cursor == 0,
    {
        App {
            store: NoteStore::new(notes),
            mode: Mode::View,
            session: EditSession::new(),
            buffer: TextBuffer::new(),
        }
    }

    /// Whether the application invariant holds, computed at run time.
    pub fn is_consistent(&self) -> (r: bool)
        ensures
            r == self.wf(),
    {
        let store_ok = match self.store.selection {
            Option::Some(i) => i < self.store.notes.len(),
            Option::None => self.store.notes.len() == 0,
        };
        let buffer_ok = self.buffer.cursor <= self.buffer.len();
        let focus_ok = match self.mode {
            Mode::EditingTag => matches!(self.session.focus, FieldFocus::Tag),
            Mode::EditingBody => matches!(self.session.focus, FieldFocus::Body),
            _ => true,
        };
        store_ok && buffer_ok && focus_ok
    }

    /// Consumes one key event: dispatches on the current mode, mutates
    /// the state exactly as the transition table `step` says, and
    /// returns the action the caller must perform.
    pub fn handle_key(&mut self, key: &Key) -> (r: Action)
        requires
            old(self).wf(),
            old(self)@.buffer.chars.len() < usize::MAX,
            old(self)@.store.notes.len() < usize::MAX,
        ensures
            final(self).wf(),
            final(self)@ == step(old(self)@, *key).0,
            r == step(old(self)@, *key).1,
    {
        match self.mode {
            Mode::View => {
                match key {
                    Key::Char(c) => {
                        if *c == 'q' {
                            Action::Quit
                        } else if *c == 'j' {
                            self.store.move_selection(1);
                            proof {
                                assert(final(self)@ =~= step(old(self)@, *key).0);
                            }
                            Action::Continue
                        } else if *c == 'k' {
                            self.store.move_selection(-1);
                            proof {
                                assert(final(self)@ =~= step(old(self)@, *key).0);
                            }
                            Action::Continue
                        } else if *c == 'd' {
                            self.mode = Mode::ViewConfirmDelete;
                            proof {
                                assert(final(self)@ =~= step(old(self)@, *key).0);
                            }
                            Action::Continue
                        } else if *c == 'a' {
                            self.session.begin_new();
                            self.mode = Mode::EditingDirect;
                            proof {
                                assert(final(self)@ =~= step(old(self)@, *key).0);
                            }
                            Action::Continue
                        } else if *c == 'e' {
                            Action::RunImport
                        } else {
                            Action::Continue
                        }
                    },
                    _ => Action::Continue,
                }
            },
            Mode::ViewConfirmDelete => {
                let confirmed = match key {
                    Key::Char(c) => *c == 'd',
                    _ => false,
                };
                if confirmed {
                    self.store.delete_selected();
                }
                self.mode = Mode::View;
                proof {
                    assert(final(self)@ =~= step(old(self)@, *key).0);
                }
                Action::Continue
            },
            Mode::EditingDirect | Mode::EditingTag | Mode::EditingBody => {
                InputPopup::key_event(self, key);
                Action::Continue
            },
        }
    }

    /// Appends the note built from one imported line: the line is
    /// split at its first colon into tag and body. The mode, session
    /// and buffer do not change.
    pub fn import_line(&mut self, line: String)
        requires
            old(self).wf(),
            old(self)@.store.notes.len() < usize::MAX,
        ensures
            final(self).wf(),
            final(self)@.store == old(self)@.store.step_append(
                NoteView { tag: line_tag(line@), body: line_body(line@) },
            ),
            final(self)@.mode == old(self)@.mode,
            final(self)@.session == old(self)@.session,
            final(self)@.buffer == old(self)@.buffer,
    {
        let note = Note::new(line);
        self.store.append(note);
    }
}

impl Default for App {
    /// An application over no notes at all.
    fn default() -> (r: App)
        ensures
            r.wf(),
            r@.store.notes.len() == 0,
            r@.store.selection is None,
            r@.mode == Mode::View,
            r@.session =~= SessionView::reset(),
            r@.buffer.chars.len() == 0,
            r@.buffer.cursor == 0,
    {
        App::with_notes(Vec::new())
    }
}

/// The edit-mode key handler: the part of the controller that runs
/// while a draft is open.
pub struct InputPopup {}

impl InputPopup {
    /// Consumes one key event in `EditingDirect`, `EditingTag` or
    /// `EditingBody` mode, following the transition table `step`
    /// (whose action in these modes is always `Continue`).
    pub fn key_event(app: &mut App, key: &Key)
        requires
            old(app).wf(),
            old(app)@.mode == Mode::EditingDirect || old(app)@.mode == Mode::EditingTag || old(
                app,
            )@.mode == Mode::EditingBody,
            old(app)@.buffer.chars.len() < usize::MAX,
            old(app)@.store.notes.len() < usize::MAX,
        ensures
            final(app).wf(),
            final(app)@ == step(old(app)@, *key).0,
            step(old(app)@, *key).1 == Action::Continue,
    {
        match app.mode {
            Mode::EditingDirect => {
                match key {
                    Key::Esc => {
                        app.session.begin_new();
                        app.mode = Mode::View;
                        proof {
                            assert(final(app)@ =~= step(old(app)@, *key).0);
                        }
                    },
                    Key::Char(c) => {
                        if *c == 'j' {
                            app.session.focus_next();
                            proof {
                                assert(final(app)@ =~= step(old(app)@, *key).0);
                            }
                        } else if *c == 'k' {
                            app.session.focus_prev();
                            proof {
                                assert(final(app)@ =~= step(old(app)@, *key).0);
                            }
                        } else if *c == 'i' {
                            let to_tag = matches!(app.session.focus, FieldFocus::Tag);
                            app.session.load_field_into_buffer(&mut app.buffer);
                            app.mode = if to_tag {
                                Mode::EditingTag
                            } else {
                                Mode::EditingBody
                            };
                            proof {
                                assert(final(app)@ =~= step(old(app)@, *key).0);
                            }
                        }
                    },
                    Key::Enter => {
                        let note = app.session.finalize();
                        app.store.append(note);
                        app.mode = Mode::View;
                        proof {
                            assert(final(app)@ =~= step(old(app)@, *key).0);
                        }
                    },
                    _ => {},
                }
            },
            Mode::EditingTag | Mode::EditingBody => {
                match key {
                    Key::Char(c) => {
                        app.buffer.insert_at_cursor(*c);
                        proof {
                            assert(final(app)@ =~= step(old(app)@, *key).0);
                        }
                    },
                    Key::Backspace => {
                        app.buffer.delete_before_cursor();
                        proof {
                            assert(final(app)@ =~= step(old(app)@, *key).0);
                        }
                    },
                    Key::Left => {
                        app.buffer.move_left();
                        proof {
                            assert(final(app)@ =~= step(old(app)@, *key).0);
                        }
                    },
                    Key::Right => {
                        app.buffer.move_right();
                        proof {
                            assert(final(app)@ =~= step(old(app)@, *key).0);
                        }
                    },
                    Key::Enter => {
                        let text = app.buffer.take();
                        if !text.as_str().is_empty() {
                            app.session.commit_field(text);
                        }
                        app.mode = Mode::EditingDirect;
                        proof {
                            assert(final(app)@ =~= step(old(app)@, *key).0);
                        }
                    },
                    Key::Esc => {
                        app.buffer.take();
                        app.mode = Mode::EditingDirect;
                        proof {
                            assert(final(app)@ =~= step(old(app)@, *key).0);
                        }
                    },
                    _ => {},
                }
            },
            _ => {},
        }
    }
}

} // verus!
