//! A note: a tag/body pair, and the rule that turns one imported line
//! of text into a note by splitting it at its first colon.

use vstd::prelude::*;

verus! {

use crate::text::find_char;
use crate::text::trimmed;
use crate::text::str_to_chars;
use crate::text::trim_chars;
use crate::text::find_char_in;
use crate::text::subvec;
use crate::text::chars_to_string;

/// The abstract value of a `Note`: its tag and body character
/// sequences.
#[verifier::ext_equal]
pub struct NoteView {
    pub tag: Seq<char>,
    pub body: Seq<char>,
}

/// One saved item: a tag and a body.
pub struct Note {
    pub tag: String,
    pub body: String,
}

impl View for Note {
    type V = NoteView;

    open spec fn view(&self) -> NoteView {
        NoteView { tag: self.tag@, body: self.body@ }
    }
}

impl DeepView for Note {
    type V = NoteView;

    open spec fn deep_view(&self) -> NoteView {
        self.view()
    }
}

/// The tag produced by splitting line `s` at its first colon: the text
/// before the colon, trimmed; empty when there is no colon.
pub open spec fn line_tag(s: Seq<char>) -> Seq<char> {
    let i = find_char(s, ':', 0);
    if i == s.len() {
        Seq::empty()
    } else {
        trimmed(s.subrange(0, i))
    }
}

/// The body produced by splitting line `s` at its first colon: the text
/// after the colon, trimmed; the whole line, trimmed, when there is no
/// colon.
pub open spec fn line_body(s: Seq<char>) -> Seq<char> {
    let i = find_char(s, ':', 0);
    if i == s.len() {
        trimmed(s)
    } else {
        trimmed(s.subrange(i + 1, s.len() as int))
    }
}

impl Note {
    /// A note with empty tag and body.
    pub fn empty() -> (r: Note)
        ensures
            r@.tag =~= Seq::<char>::empty(),
            r@.body =~= Seq::<char>::empty(),
    {
        Note { tag: String::new(), body: String::new() }
    }

    /// A copy of this note with the same tag and body.
    pub fn duplicate(&self) -> (r: Note)
        ensures
            r@ == self@,
    {
        Note { tag: self.tag.clone(), body: self.body.clone() }
    }

    /// Builds a note from one line of text: the text before the first
    /// colon becomes the tag and the text after it the body, both
    /// trimmed; a line without a colon becomes a note with an empty tag
    /// whose body is the whole line, trimmed.
    pub fn new(str_new: String) -> (r: Note)
        ensures
            r@.tag == line_tag(str_new@),
            r@.body == line_body(str_new@),
    {
        let chars = str_to_chars(str_new.as_str());
        let i = find_char_in(&chars, ':');
        if i == chars.len() {
            let body = trim_chars(&chars);
            Note { tag: String::new(), body: chars_to_string(&body) }
        } else {
            let before = subvec(&chars, 0, i);
            let after = subvec(&chars, i + 1, chars.len());
            let tag = trim_chars(&before);
            let body = trim_chars(&after);
            Note { tag: chars_to_string(&tag), body: chars_to_string(&body) }
        }
    }
}

} // verus!
