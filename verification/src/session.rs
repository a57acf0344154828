//! The edit session: the note currently being composed and which of
//! its two fields has focus. It bridges text-buffer edits into a
//! finished note.

use vstd::prelude::*;

verus! {

use crate::note::Note;
use crate::note::NoteView;
use crate::buffer::TextBuffer;

/// Which field of the draft has focus.
#[derive(PartialEq, Eq, Structural, Clone, Copy, Debug)]
pub enum FieldFocus {
    Tag,
    Body,
}

/// The abstract value of an `EditSession`.
#[verifier::ext_equal]
pub struct SessionView {
    pub draft: NoteView,
    pub focus: FieldFocus,
}

impl SessionView {
    /// The focused field of the draft.
    pub open spec fn focused_text(self) -> Seq<char> {
        match self.focus {
            FieldFocus::Tag => self.draft.tag,
            FieldFocus::Body => self.draft.body,
        }
    }

    /// The session after writing `text` into the focused field.
    pub open spec fn step_commit(self, text: Seq<char>) -> SessionView {
        SessionView {
            draft: match self.focus {
                FieldFocus::Tag => NoteView { tag: text, ..self.draft },
                FieldFocus::Body => NoteView { body: text, ..self.draft },
            },
            focus: self.focus,
        }
    }

    /// An empty draft with focus on the tag field.
    pub open spec fn reset() -> SessionView {
        SessionView {
            draft: NoteView { tag: Seq::empty(), body: Seq::empty() },
            focus: FieldFocus::Tag,
        }
    }
}

/// The note being composed, plus which of its fields has focus.
pub struct EditSession {
    pub draft: Note,
    pub focus: FieldFocus,
}

impl View for EditSession {
    type V = SessionView;

    open spec fn view(&self) -> SessionView {
        SessionView { draft: self.draft@, focus: self.focus }
    }
}

impl EditSession {
    /// A session holding an empty draft with focus on the tag field.
    pub fn new() -> (r: EditSession)
        ensures
            r@ =~= SessionView::reset(),
    {
        EditSession { draft: Note::empty(), focus: FieldFocus::Tag }
    }

    /// Resets the draft to an empty note and the focus to the tag
    /// field.
    pub fn begin_new(&mut self)
        ensures
            final(self)@ =~= SessionView::reset(),
    {
        self.draft = Note::empty();
        self.focus = FieldFocus::Tag;
    }

    /// Copies `existing` into the draft, focusing the tag field.
    pub fn begin_editing(&mut self, existing: &Note)
        ensures
            final(self)@.draft == existing@,
            final(self)@.focus == FieldFocus::Tag,
    {
        self.draft = existing.duplicate();
        self.focus = FieldFocus::Tag;
    }

    /// Moves focus from the tag to the body field; a no-op on the body
    /// field.
    pub fn focus_next(&mut self)
        ensures
            final(self)@.draft == old(self)@.draft,
            final(self)@.focus == FieldFocus::Body,
    {
        self.focus = FieldFocus::Body;
    }

    /// Moves focus from the body back to the tag field; a no-op on the
    /// tag field.
    pub fn focus_prev(&mut self)
        ensures
            final(self)@.draft == old(self)@.draft,
            final(self)@.focus == FieldFocus::Tag,
    {
        self.focus = FieldFocus::Tag;
    }

    /// Copies the focused field's text into `buffer`, with the cursor
    /// at its end.
    pub fn load_field_into_buffer(&self, buffer: &mut TextBuffer)
        ensures
            final(buffer).wf(),
            final(buffer)@.chars == self@.focused_text(),
            final(buffer)@.cursor == self@.focused_text().len(),
    {
        match self.focus {
            FieldFocus::Tag => buffer.load(self.draft.tag.as_str()),
            FieldFocus::Body => buffer.load(self.draft.body.as_str()),
        }
    }

    /// Writes `text` into the focused field of the draft.
    pub fn commit_field(&mut self, text: String)
        ensures
            final(self)@ =~= old(self)@.step_commit(text@),
    {
        match self.focus {
            FieldFocus::Tag => self.draft.tag = text,
            FieldFocus::Body => self.draft.body = text,
        }
    }

    /// Returns the draft and resets it to an empty note; the focus is
    /// kept.
    pub fn finalize(&mut self) -> (r: Note)
        ensures
            r@ == old(self)@.draft,
            final(self)@.draft =~= SessionView::reset().draft,
            final(self)@.focus == old(self)@.focus,
    {
        let r = self.draft.duplicate();
        self.draft = Note::empty();
        r
    }
}

} // verus!
