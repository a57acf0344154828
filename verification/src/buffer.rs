//! An editable character sequence with an insertion cursor, used while
//! the user types into the tag or the body field of a draft note.

use vstd::prelude::*;

verus! {

use crate::text::str_to_chars;
use crate::text::chars_to_string;

/// The abstract value of a `TextBuffer`: its characters and the cursor
/// position.
#[verifier::ext_equal]
pub struct BufferView {
    pub chars: Seq<char>,
    pub cursor: int,
}

/// One abstract buffer operation.
pub enum BufferOp {
    Load(Seq<char>),
    Insert(char),
    DeleteBefore,
    MoveLeft,
    MoveRight,
    Take,
}

impl BufferView {
    /// The cursor is a valid insertion point.
    pub open spec fn wf(self) -> bool {
        0 <= self.cursor <= self.chars.len()
    }

    /// The buffer after one operation.
    pub open spec fn apply_op(self, op: BufferOp) -> BufferView {
        match op {
            BufferOp::Load(s) => BufferView { chars: s, cursor: s.len() as int },
            BufferOp::Insert(c) => BufferView {
                chars: self.chars.insert(self.cursor, c),
                cursor: self.cursor + 1,
            },
            BufferOp::DeleteBefore => if self.cursor > 0 {
                BufferView { chars: self.chars.remove(self.cursor - 1), cursor: self.cursor - 1 }
            } else {
                self
            },
            BufferOp::MoveLeft => BufferView {
                chars: self.chars,
                cursor: if self.cursor > 0 {
                    self.cursor - 1
                } else {
                    0
                },
            },
            BufferOp::MoveRight => BufferView {
                chars: self.chars,
                cursor: if self.cursor < self.chars.len() {
                    self.cursor + 1
                } else {
                    self.cursor
                },
            },
            BufferOp::Take => BufferView { chars: Seq::empty(), cursor: 0 },
        }
    }

    /// The buffer after a whole run of operations.
    pub open spec fn apply_ops(self, ops: Seq<BufferOp>) -> BufferView
        decreases ops.len(),
    {
        if ops.len() == 0 {
            self
        } else {
            self.apply_op(ops[0]).apply_ops(ops.drop_first())
        }
    }
}

/// The cursor invariant holds after every operation sequence: one
/// operation keeps `0 <= cursor <= chars.len()` on a buffer that
/// satisfies it, so by induction any sequence of operations does.
pub proof fn lemma_cursor_invariant(b: BufferView, ops: Seq<BufferOp>)
    requires
        b.wf(),
    ensures
        b.apply_ops(ops).wf(),
    decreases ops.len(),
{
    if ops.len() > 0 {
        assert(b.apply_op(ops[0]).wf());
        lemma_cursor_invariant(b.apply_op(ops[0]), ops.drop_first());
    }
}

/// An editable character sequence with an insertion cursor.
///
/// Every operation keeps the cursor a valid insertion point:
/// `0 <= cursor <= chars.len()`.
pub struct TextBuffer {
    pub chars: Vec<char>,
    pub cursor: usize,
}

impl View for TextBuffer {
    type V = BufferView;

    open spec fn view(&self) -> BufferView {
        BufferView { chars: self.chars@, cursor: self.cursor as int }
    }
}

impl TextBuffer {
    /// The cursor is a valid insertion point.
    pub open spec fn wf(&self) -> bool {
        self@.wf()
    }

    /// An empty buffer with the cursor at the start.
    pub fn new() -> (r: TextBuffer)
        ensures
            r.wf(),
            r@.chars =~= Seq::<char>::empty(),
            r@.cursor == 0,
    {
        TextBuffer { chars: Vec::new(), cursor: 0 }
    }

    pub fn len(&self) -> (r: usize)
        ensures
            r == self@.chars.len(),
    {
        self.chars.len()
    }

    pub fn is_empty(&self) -> (r: bool)
        ensures
            r == (self@.chars.len() == 0),
    {
        self.chars.is_empty()
    }

    /// Replaces the contents with `s` and puts the cursor at the end.
    pub fn load(&mut self, s: &str)
        ensures
            final(self).wf(),
            final(self)@.chars == s@,
            final(self)@.cursor == s@.len(),
            final(self)@ == old(self)@.apply_op(BufferOp::Load(s@)),
    {
        self.chars = str_to_chars(s);
        self.cursor = self.chars.len();
    }

    /// Inserts `c` immediately before the cursor and advances the
    /// cursor past it.
    pub fn insert_at_cursor(&mut self, c: char)
        requires
            old(self).wf(),
            old(self)@.chars.len() < usize::MAX,
        ensures
            final(self).wf(),
            final(self)@.chars == old(self)@.chars.insert(old(self)@.cursor, c),
            final(self)@.cursor == old(self)@.cursor + 1,
            final(self)@ == old(self)@.apply_op(BufferOp::Insert(c)),
    {
        self.chars.insert(self.cursor, c);
        self.cursor = self.cursor + 1;
    }

    /// Removes the character immediately before the cursor and moves
    /// the cursor back; a no-op when the cursor is at the start.
    pub fn delete_before_cursor(&mut self)
        requires
            old(self).wf(),
        ensures
            final(self).wf(),
            old(self)@.cursor > 0 ==> final(self)@.chars == old(self)@.chars.remove(
                old(self)@.cursor - 1,
            ) && final(self)@.cursor == old(self)@.cursor - 1,
            old(self)@.cursor == 0 ==> final(self)@ == old(self)@,
            final(self)@ == old(self)@.apply_op(BufferOp::DeleteBefore),
    {
        if self.cursor > 0 {
            self.chars.remove(self.cursor - 1);
            self.cursor = self.cursor - 1;
        }
    }

    /// Moves the cursor one position to the left, stopping at the
    /// start.
    pub fn move_left(&mut self)
        requires
            old(self).wf(),
        ensures
            final(self).wf(),
            final(self)@.chars == old(self)@.chars,
            final(self)@.cursor == if old(self)@.cursor > 0 {
                old(self)@.cursor - 1
            } else {
                0
            },
            final(self)@ == old(self)@.apply_op(BufferOp::MoveLeft),
    {
        if self.cursor > 0 {
            self.cursor = self.cursor - 1;
        }
    }

    /// Moves the cursor one position to the right, stopping at the end
    /// of the contents.
    pub fn move_right(&mut self)
        requires
            old(self).wf(),
        ensures
            final(self).wf(),
            final(self)@.chars == old(self)@.chars,
            final(self)@.cursor == if old(self)@.cursor < old(self)@.chars.len() {
                old(self)@.cursor + 1
            } else {
                old(self)@.cursor
            },
            final(self)@ == old(self)@.apply_op(BufferOp::MoveRight),
    {
        if self.cursor < self.chars.len() {
            self.cursor = self.cursor + 1;
        }
    }

    /// Returns the contents as a string, leaving the buffer empty with
    /// the cursor at the start.
    pub fn take(&mut self) -> (r: String)
        ensures
            final(self).wf(),
            r@ == old(self)@.chars,
            final(self)@.chars =~= Seq::<char>::empty(),
            final(self)@.cursor == 0,
            final(self)@ == old(self)@.apply_op(BufferOp::Take),
    {
        let r = chars_to_string(&self.chars);
        self.chars = Vec::new();
        self.cursor = 0;
        r
    }

    /// The contents as a string, without changing the buffer.
    pub fn to_text(&self) -> (r: String)
        ensures
            r@ == self@.chars,
    {
        chars_to_string(&self.chars)
    }
}

} // verus!
