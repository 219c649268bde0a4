//! A sequence of notes with a cursor.
use vstd::prelude::*;

verus! {

/// Notes in order, and the position of the next note to play.
pub struct Sequence<NoteType> {
    pub notes: Vec<NoteType>,
    index: i64,
}

impl<NoteType: Copy> Sequence<NoteType> {
    /// The notes, in order.
    pub closed spec fn notes_seq(&self) -> Seq<NoteType> {
        self.notes@
    }

    /// The position of the next note.
    pub closed spec fn position(&self) -> i64 {
        self.index
    }

    /// An empty sequence at position 0.
    pub fn new() -> (r: Self)
        ensures
            r.notes_seq() == Seq::<NoteType>::empty(),
            r.position() == 0,
    {
        Sequence { notes: Vec::new(), index: 0 }
    }

    pub fn get_index(&self) -> (r: i64)
        ensures
            r == self.position(),
    {
        self.index
    }

    /// Moves to the next position.
    pub fn advance(&mut self)
        requires
            old(self).position() < i64::MAX,
        ensures
            final(self).position() == old(self).position() + 1,
            final(self).notes_seq() == old(self).notes_seq(),
    {
        self.index = self.index + 1;
    }

    /// Moves back to the first position.
    pub fn reset_index(&mut self)
        ensures
            final(self).position() == 0,
            final(self).notes_seq() == old(self).notes_seq(),
    {
        self.index = 0;
    }

    /// Whether the position is past the last note.
    pub fn at_end(&self) -> (r: bool)
        ensures
            r == (self.position() >= 0 && self.position() >= self.notes_seq().len()),
    {
        self.index >= 0 && self.index as u64 >= self.notes.len() as u64
    }

    /// Appends a note.
    pub fn add_note(&mut self, note: NoteType)
        ensures
            final(self).notes_seq() == old(self).notes_seq().push(note),
            final(self).position() == old(self).position(),
    {
        self.notes.push(note);
    }

    /// The note at the position, which must be one of the notes.
    pub fn get_note(&self) -> (r: NoteType)
        requires
            0 <= self.position() < self.notes_seq().len(),
        ensures
            r == self.notes_seq()[self.position() as int],
    {
        let n = self.notes.len();
        assert(self.index < n);
        let i = self.index as usize;
        assert(i == self.index);
        self.notes[i]
    }

    /// The note at the position, which must be one of the notes; then moves
    /// to the next position.
    pub fn get_note_and_advance(&mut self) -> (r: NoteType)
        requires
            0 <= old(self).position() < old(self).notes_seq().len(),
            old(self).position() < i64::MAX,
        ensures
            r == old(self).notes_seq()[old(self).position() as int],
            final(self).position() == old(self).position() + 1,
            final(self).notes_seq() == old(self).notes_seq(),
    {
        let n = self.notes.len();
        assert(self.index < n);
        let i = self.index as usize;
        assert(i == self.index);
        let note = self.notes[i];
        self.advance();
        note
    }

    /// The number of notes.
    pub fn len(&self) -> (r: usize)
        ensures
            r == self.notes_seq().len(),
    {
        self.notes.len()
    }
}

} // verus!
