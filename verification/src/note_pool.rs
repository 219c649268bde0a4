//! A bounded pool of pre-built notes.
use vstd::prelude::*;
use std::collections::VecDeque;

verus! {

/// Something that can build a fresh default value of `T`.
pub trait BuilderWrapper<T> {
    fn new() -> T;
}

/// A pool of notes: `capacity` notes are built up front; acquiring takes the
/// oldest one, and releasing puts one back unless the pool is full.
pub struct NotePool<NoteType> {
    available: VecDeque<NoteType>,
    capacity: usize,
}

impl<NoteType> NotePool<NoteType> {
    #[verifier::type_invariant]
    spec fn inv(self) -> bool {
        self.available@.len() <= self.capacity
    }

    /// The notes in the pool, oldest first.
    pub closed spec fn notes(&self) -> Seq<NoteType> {
        self.available@
    }

    /// The most notes the pool holds.
    pub closed spec fn capacity(&self) -> nat {
        self.capacity as nat
    }

    /// A full pool of `capacity` freshly built notes: each one a note that
    /// the builder's `new` gives back.
    pub fn new<NoteBuilderType: BuilderWrapper<NoteType>>(capacity: usize) -> (r: Self)
        ensures
            r.capacity() == capacity,
            r.notes().len() == capacity,
            r.notes().len() <= r.capacity(),
            forall|i: int|
                0 <= i < capacity ==> call_ensures(NoteBuilderType::new, (), #[trigger] r.notes()[i]),
    {
        let mut available: VecDeque<NoteType> = VecDeque::with_capacity(capacity);
        for i in 0..capacity
            invariant
                available@.len() == i,
                forall|j: int|
                    0 <= j < i ==> call_ensures(NoteBuilderType::new, (), #[trigger] available@[j]),
        {
            let note = NoteBuilderType::new();
            available.push_back(note);
        }
        Self { available, capacity }
    }

    /// Takes the oldest note, if the pool is not empty.
    pub fn acquire(&mut self) -> (r: Option<NoteType>)
        ensures
            final(self).capacity() == old(self).capacity(),
            final(self).notes().len() <= final(self).capacity(),
            old(self).notes().len() > 0 ==> r == Some(old(self).notes()[0]) && final(self).notes()
                == old(self).notes().drop_first(),
            old(self).notes().len() == 0 ==> r is None && final(self).notes() == old(self).notes(),
    {
        proof {
            use_type_invariant(&*self);
        }
        let mut available = VecDeque::new();
        std::mem::swap(&mut available, &mut self.available);
        let r = available.pop_front();
        std::mem::swap(&mut available, &mut self.available);
        proof {
            if old(self).notes().len() > 0 {
                assert(old(self).notes().subrange(1, old(self).notes().len() as int)
                    =~= old(self).notes().drop_first());
            }
        }
        r
    }

    /// Puts a note back at the end, unless the pool is full (then the note
    /// is dropped).
    pub fn release(&mut self, note: NoteType)
        ensures
            final(self).capacity() == old(self).capacity(),
            final(self).notes().len() <= final(self).capacity(),
            old(self).notes().len() < old(self).capacity() ==> final(self).notes() == old(
                self,
            ).notes().push(note),
            old(self).notes().len() >= old(self).capacity() ==> final(self).notes() == old(
                self,
            ).notes(),
    {
        proof {
            use_type_invariant(&*self);
        }
        if self.available.len() < self.capacity {
            let mut available = VecDeque::new();
            std::mem::swap(&mut available, &mut self.available);
            available.push_back(note);
            std::mem::swap(&mut available, &mut self.available);
        }
    }
}

/// What `acquire` does to the notes of a pool: the oldest note comes out,
/// or nothing from an empty pool.
pub open spec fn acquire_step<NoteType>(notes: Seq<NoteType>) -> (Option<NoteType>, Seq<NoteType>) {
    if notes.len() > 0 {
        (Some(notes[0]), notes.drop_first())
    } else {
        (None, notes)
    }
}

/// The notes left after `k` acquires in a row.
pub open spec fn after_acquires<NoteType>(notes: Seq<NoteType>, k: nat) -> Seq<NoteType>
    decreases k,
{
    if k == 0 {
        notes
    } else {
        acquire_step(after_acquires(notes, (k - 1) as nat)).1
    }
}

/// Draining a pool: after `i` acquires in a row the pool holds its notes
/// from the `i`-th on; the next acquire gives the `i`-th note while there
/// is one, and nothing once all have been taken. For a new pool of
/// capacity `c` (see `NotePool::new`), the first `c` acquires give the `c`
/// built notes in order, and the one after them gives nothing.
pub proof fn lemma_pool_drains<NoteType>(notes: Seq<NoteType>, i: nat)
    requires
        i <= notes.len(),
    ensures
        after_acquires(notes, i) == notes.skip(i as int),
        i < notes.len() ==> acquire_step(after_acquires(notes, i)).0 == Some(notes[i as int]),
        i == notes.len() ==> acquire_step(after_acquires(notes, i)).0 is None,
    decreases i,
{
    if i > 0 {
        lemma_pool_drains(notes, (i - 1) as nat);
        assert(notes.skip(i - 1).drop_first() =~= notes.skip(i as int));
    } else {
        assert(notes.skip(0) =~= notes);
    }
}

} // verus!
