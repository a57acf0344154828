//! The ordered note store: the display-ordered sequence of notes plus
//! the selection index, which stays valid through every mutation.

use vstd::prelude::*;

verus! {

use crate::note::Note;
use crate::note::NoteView;

/// The abstract value of a `NoteStore`: the note sequence and the
/// selection.
#[verifier::ext_equal]
pub struct StoreView {
    pub notes: Seq<NoteView>,
    pub selection: Option<int>,
}

impl StoreView {
    /// The selection invariant: a non-empty store selects a valid
    /// index, an empty store selects nothing.
    pub open spec fn wf(self) -> bool {
        match self.selection {
            Option::Some(i) => 0 <= i < self.notes.len(),
            Option::None => self.notes.len() == 0,
        }
    }

    /// The store after appending `n`: the note goes to the end; the
    /// selection is unchanged, except that the first note of a
    /// previously empty store becomes selected.
    pub open spec fn step_append(self, n: NoteView) -> StoreView {
        StoreView {
            notes: self.notes.push(n),
            selection: match self.selection {
                Option::Some(i) => Option::Some(i),
                Option::None => Option::Some(0),
            },
        }
    }

    /// The store after deleting the selected note: the note at the
    /// selected index is removed and the selection is clamped to the
    /// new length; deleting from an empty store changes nothing.
    pub open spec fn step_delete(self) -> StoreView {
        match self.selection {
            Option::Some(i) => StoreView {
                notes: self.notes.remove(i),
                selection: if self.notes.len() == 1 {
                    Option::None
                } else if i < self.notes.len() - 1 {
                    Option::Some(i)
                } else {
                    Option::Some(self.notes.len() - 2)
                },
            },
            Option::None => self,
        }
    }

    /// The store after a whole run of selection moves.
    pub open spec fn move_all(self, deltas: Seq<int>) -> StoreView
        decreases deltas.len(),
    {
        if deltas.len() == 0 {
            self
        } else {
            self.step_move(deltas[0]).move_all(deltas.drop_first())
        }
    }

    /// The store after moving the selection by `delta`, clamped to the
    /// valid index range; an empty store stays unselected.
    pub open spec fn step_move(self, delta: int) -> StoreView {
        match self.selection {
            Option::Some(i) => StoreView {
                notes: self.notes,
                selection: Option::Some(
                    if i + delta < 0 {
                        0
                    } else if i + delta > self.notes.len() - 1 {
                        self.notes.len() - 1
                    } else {
                        i + delta
                    },
                ),
            },
            Option::None => self,
        }
    }
}

/// Any sequence of selection moves keeps the selection invariant: the
/// notes never change, and the selection stays inside `[0, N-1]`, or
/// stays nothing exactly when the store is empty. One move preserves
/// the invariant, so by induction any run of moves does.
pub proof fn lemma_move_selection_stays_valid(s: StoreView, deltas: Seq<int>)
    requires
        s.wf(),
    ensures
        s.move_all(deltas).wf(),
        s.move_all(deltas).notes == s.notes,
    decreases deltas.len(),
{
    if deltas.len() > 0 {
        assert(s.step_move(deltas[0]).wf());
        lemma_move_selection_stays_valid(s.step_move(deltas[0]), deltas.drop_first());
    }
}

/// An ordered collection of notes plus the selection index.
pub struct NoteStore {
    pub notes: Vec<Note>,
    pub selection: Option<usize>,
}

impl View for NoteStore {
    type V = StoreView;

    open spec fn view(&self) -> StoreView {
        StoreView {
            notes: self.notes.deep_view(),
            selection: match self.selection {
                Option::Some(i) => Option::Some(i as int),
                Option::None => Option::None,
            },
        }
    }
}

impl NoteStore {
    /// The selection invariant: a non-empty store selects a valid
    /// index, an empty store selects nothing.
    pub open spec fn wf(&self) -> bool {
        self@.wf()
    }

    /// A store over `notes`, selecting the first note if there is one.
    pub fn new(notes: Vec<Note>) -> (r: NoteStore)
        ensures
            r.wf(),
            r@.notes == notes.deep_view(),
            r@.selection == if notes.deep_view().len() == 0 {
                Option::<int>::None
            } else {
                Option::<int>::Some(0)
            },
    {
        let selection = if notes.is_empty() {
            Option::None
        } else {
            Option::Some(0)
        };
        NoteStore { notes, selection }
    }

    pub fn len(&self) -> (r: usize)
        ensures
            r == self@.notes.len(),
    {
        self.notes.len()
    }

    /// Adds `note` at the end. The selection does not move; only a
    /// previously empty store selects the new (first) note, as the
    /// invariant asks.
    pub fn append(&mut self, note: Note)
        requires
            old(self).wf(),
            old(self)@.notes.len() < usize::MAX,
        ensures
            final(self).wf(),
            final(self)@ == old(self)@.step_append(note@),
    {
        self.notes.push(note);
        if self.selection.is_none() {
            self.selection = Option::Some(0);
        }
        proof {
            assert(final(self)@ =~= old(self)@.step_append(note@));
        }
    }

    /// Removes the note at the current selection, if one exists, and
    /// clamps the selection into the shortened list: the selection
    /// becomes `min(old index, new length - 1)`, or nothing when the
    /// last note went away. Returns whether a deletion occurred.
    pub fn delete_selected(&mut self) -> (r: bool)
        requires
            old(self).wf(),
        ensures
            final(self).wf(),
            final(self)@ == old(self)@.step_delete(),
            r == (old(self)@.selection is Some),
            old(self)@.selection matches Some(i) ==> final(self)@.notes == old(self)@.notes.remove(
                i,
            ),
            (match old(self)@.selection {
                Option::Some(i) => old(self)@.notes.len() > 1 ==> final(self)@.notes.len() == old(
                    self,
                )@.notes.len() - 1 && final(self)@.selection == Option::Some(
                    if i < old(self)@.notes.len() - 2 {
                        i
                    } else {
                        old(self)@.notes.len() - 2
                    },
                ),
                Option::None => true,
            }),
    {
        match self.selection {
            Option::Some(i) => {
                self.notes.remove(i);
                if self.notes.is_empty() {
                    self.selection = Option::None;
                } else if i < self.notes.len() {
                    self.selection = Option::Some(i);
                } else {
                    self.selection = Option::Some(self.notes.len() - 1);
                }
                proof {
                    assert(final(self)@ =~= old(self)@.step_delete());
                }
                true
            },
            Option::None => false,
        }
    }

    /// Moves the selection by `delta`, clamping the target index into
    /// the valid range; a no-op on an empty store.
    pub fn move_selection(&mut self, delta: i32)
        requires
            old(self).wf(),
            delta == 1 || delta == -1,
        ensures
            final(self).wf(),
            final(self)@ == old(self)@.step_move(delta as int),
            final(self)@.notes == old(self)@.notes,
    {
        match self.selection {
            Option::Some(i) => {
                let n = self.notes.len();
                if delta > 0 {
                    if i + 1 < n {
                        self.selection = Option::Some(i + 1);
                    }
                } else {
                    if i > 0 {
                        self.selection = Option::Some(i - 1);
                    }
                }
                proof {
                    assert(final(self)@ =~= old(self)@.step_move(delta as int));
                }
            },
            Option::None => {},
        }
    }

    /// The note at the current selection, if one exists.
    pub fn note_at_selection(&self) -> (r: Option<&Note>)
        requires
            self.wf(),
        ensures
            match self@.selection {
                Option::Some(i) => r matches Some(n) && n.deep_view() == self@.notes[i],
                Option::None => r is None,
            },
    {
        match self.selection {
            Option::Some(i) => Option::Some(&self.notes[i]),
            Option::None => Option::None,
        }
    }
}

} // verus!
