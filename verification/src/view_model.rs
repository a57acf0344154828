//! The pure projection of the application state into renderable text:
//! one line per note, the highlighted index, and the popup contents
//! while a draft is open. The drawing surface consumes this and does
//! nothing else.

use vstd::prelude::*;

verus! {

use crate::text::push_char;
use crate::note::Note;
use crate::note::NoteView;
use crate::session::FieldFocus;
use crate::controller::App;
use crate::controller::InputPopup;
use crate::controller::Mode;

/// The decimal digit character for `d`.
pub open spec fn digit_char(d: nat) -> char {
    if d == 0 {
        '0'
    } else if d == 1 {
        '1'
    } else if d == 2 {
        '2'
    } else if d == 3 {
        '3'
    } else if d == 4 {
        '4'
    } else if d == 5 {
        '5'
    } else if d == 6 {
        '6'
    } else if d == 7 {
        '7'
    } else if d == 8 {
        '8'
    } else {
        '9'
    }
}

/// The decimal digits of `n`, most significant first.
pub open spec fn dec_digits(n: nat) -> Seq<char>
    decreases n,
{
    if n < 10 {
        seq![digit_char(n)]
    } else {
        dec_digits(n / 10).push(digit_char(n % 10))
    }
}

/// The display line for note `n` at index `i`:
/// `"<i>: <tag> - <body>"`.
pub open spec fn note_line(i: nat, n: NoteView) -> Seq<char> {
    dec_digits(i) + seq![':', ' '] + n.tag + seq![' ', '-', ' '] + n.body
}

fn digit_char_of(d: usize) -> (c: char)
    requires
        d < 10,
    ensures
        c == digit_char(d as nat),
{
    match d {
        0 => '0',
        1 => '1',
        2 => '2',
        3 => '3',
        4 => '4',
        5 => '5',
        6 => '6',
        7 => '7',
        8 => '8',
        _ => '9',
    }
}

/// The decimal representation of `n`.
pub fn usize_to_string(n: usize) -> (r: String)
    ensures
        r@ == dec_digits(n as nat),
    decreases n,
{
    if n < 10 {
        let mut s = String::new();
        push_char(&mut s, digit_char_of(n));
        s
    } else {
        let mut s = usize_to_string(n / 10);
        push_char(&mut s, digit_char_of(n % 10));
        s
    }
}

impl Note {
    /// The display line for this note at index `index`.
    pub fn format(&self, index: usize) -> (r: String)
        ensures
            r@ == note_line(index as nat, self@),
    {
        let mut s = usize_to_string(index);
        push_char(&mut s, ':');
        push_char(&mut s, ' ');
        s.append(self.tag.as_str());
        push_char(&mut s, ' ');
        push_char(&mut s, '-');
        push_char(&mut s, ' ');
        s.append(self.body.as_str());
        proof {
            assert(s@ =~= note_line(index as nat, self@));
        }
        s
    }
}

/// What the popup shows while a draft is open: the two field texts,
/// which field has focus, whether one is being typed into, and the
/// cursor column while it is.
pub struct PopupModel {
    pub tag_text: String,
    pub body_text: String,
    pub focus: FieldFocus,
    pub editing: bool,
    pub cursor: usize,
}

impl InputPopup {
    /// Projects the popup contents out of the application state: the
    /// field being typed into shows the live buffer, the other fields
    /// show the draft.
    pub fn render(app: &App) -> (r: PopupModel)
        requires
            app.wf(),
        ensures
            r.focus == app@.session.focus,
            r.editing == (app@.mode == Mode::EditingTag || app@.mode == Mode::EditingBody),
            r.tag_text@ == if app@.mode == Mode::EditingTag {
                app@.buffer.chars
            } else {
                app@.session.draft.tag
            },
            r.body_text@ == if app@.mode == Mode::EditingBody {
                app@.buffer.chars
            } else {
                app@.session.draft.body
            },
            r.cursor == if app@.mode == Mode::EditingTag || app@.mode == Mode::EditingBody {
                app@.buffer.cursor
            } else {
                0
            },
    {
        let editing_tag = matches!(app.mode, Mode::EditingTag);
        let editing_body = matches!(app.mode, Mode::EditingBody);
        let tag_text = if editing_tag {
            app.buffer.to_text()
        } else {
            app.session.draft.tag.clone()
        };
        let body_text = if editing_body {
            app.buffer.to_text()
        } else {
            app.session.draft.body.clone()
        };
        PopupModel {
            tag_text,
            body_text,
            focus: app.session.focus,
            editing: editing_tag || editing_body,
            cursor: if editing_tag || editing_body {
                app.buffer.cursor
            } else {
                0
            },
        }
    }
}

/// The full frame description: one line per note, the highlighted
/// index, and the popup while a draft is open.
pub struct ViewModel {
    pub lines: Vec<String>,
    pub highlighted: Option<usize>,
    pub popup: Option<PopupModel>,
}

impl ViewModel {
    /// Projects the whole application state into renderable text.
    pub fn project(app: &App) -> (r: ViewModel)
        requires
            app.wf(),
        ensures
            r.lines@.len() == app@.store.notes.len(),
            forall|i: int|
                0 <= i < r.lines@.len() ==> r.lines@[i]@ == note_line(
                    i as nat,
                    app@.store.notes[i],
                ),
            (match app@.store.selection {
                Option::Some(i) => r.highlighted matches Some(h) && h as int == i,
                Option::None => r.highlighted is None,
            }),
            (r.popup is Some) == (app@.mode == Mode::EditingDirect || app@.mode == Mode::EditingTag
                || app@.mode == Mode::EditingBody),
    {
        let n = app.store.notes.len();
        let mut lines: Vec<String> = Vec::new();
        let mut i: usize = 0;
        while i < n
            invariant
                i <= n,
                n == app@.store.notes.len(),
                app.wf(),
                lines@.len() == i,
                forall|j: int|
                    0 <= j < i ==> lines@[j]@ == note_line(j as nat, app@.store.notes[j]),
            decreases n - i,
        {
            let line = app.store.notes[i].format(i);
            lines.push(line);
            i = i + 1;
        }
        let popup = match app.mode {
            Mode::EditingDirect | Mode::EditingTag | Mode::EditingBody => Option::Some(
                InputPopup::render(app),
            ),
            _ => Option::None,
        };
        ViewModel { lines, highlighted: app.store.selection, popup }
    }
}

} // verus!
