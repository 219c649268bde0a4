//! The sample window of the flanger effect.
//!
//! The flanger keeps the last `window_size` samples: while the window is
//! not full each sample is appended, then each sample overwrites the slot
//! at the insert position modulo the window size. It plays the sample in
//! the slot after the insert position. Samples are carried as the bits of
//! their `f32` value; silence is `0`.
use vstd::prelude::*;

verus! {

/// The window size a flanger has unless it is given one.
pub const SAMPLE_BUFFER_SIZE: usize = 20;

/// The window size used when the window is filled before a size is given.
pub const DEFAULT_WINDOW_SIZE: usize = 12;

/// A flanger's window of samples and its insert position.
pub struct FlangerWindow {
    window_size: usize,
    sample_buffer: Vec<u32>,
    insert_index: usize,
}

pub struct FlangerWindowModel {
    pub window_size: usize,
    pub sample_buffer: Seq<u32>,
    pub insert_index: usize,
}

impl View for FlangerWindow {
    type V = FlangerWindowModel;

    closed spec fn view(&self) -> FlangerWindowModel {
        FlangerWindowModel {
            window_size: self.window_size,
            sample_buffer: self.sample_buffer@,
            insert_index: self.insert_index,
        }
    }
}

/// Taking a sample: it is appended while the window is not full, and
/// otherwise written to the slot at the insert position; the sample played
/// is the one in the slot after the insert position (silence if the
/// window is empty); the insert position moves on.
pub open spec fn flanger_step(w: FlangerWindowModel, sample: u32) -> (FlangerWindowModel, u32) {
    let buffer = if w.sample_buffer.len() < w.window_size {
        w.sample_buffer.push(sample)
    } else {
        let idx = w.insert_index % w.window_size;
        if idx < w.sample_buffer.len() {
            w.sample_buffer.update(idx as int, sample)
        } else {
            w.sample_buffer
        }
    };
    let out = if buffer.len() > 0 {
        buffer[((w.insert_index + 1) % (buffer.len() as int)) as int]
    } else {
        0
    };
    (
        FlangerWindowModel {
            sample_buffer: buffer,
            insert_index: w.insert_index.wrapping_add(1),
            ..w
        },
        out,
    )
}

impl FlangerWindow {
    /// An empty window of the given size.
    pub fn new(window_size: usize) -> (r: Self)
        ensures
            r@.window_size == window_size,
            r@.sample_buffer == Seq::<u32>::empty(),
            r@.insert_index == 0,
    {
        FlangerWindow {
            window_size,
            sample_buffer: Vec::with_capacity(window_size),
            insert_index: 0,
        }
    }

    /// A window of the given size (`DEFAULT_WINDOW_SIZE` if none) filled
    /// with silence.
    pub fn filled(window_size: Option<usize>) -> (r: Self)
        ensures
            r@.window_size == (match window_size {
                Some(n) => n,
                None => DEFAULT_WINDOW_SIZE,
            }),
            r@.sample_buffer == Seq::new(r@.window_size as nat, |i: int| 0u32),
            r@.insert_index == 0,
    {
        let n = match window_size {
            Some(n) => n,
            None => DEFAULT_WINDOW_SIZE,
        };
        let mut sample_buffer: Vec<u32> = Vec::with_capacity(n);
        for i in 0..n
            invariant
                sample_buffer@ == Seq::new(i as nat, |j: int| 0u32),
        {
            sample_buffer.push(0);
            assert(sample_buffer@ =~= Seq::new((i + 1) as nat, |j: int| 0u32));
        }
        FlangerWindow { window_size: n, sample_buffer, insert_index: 0 }
    }

    /// Takes a sample and gives the delayed one (see `flanger_step`). A
    /// full window needs a size that is not 0.
    pub fn next_sample(&mut self, sample: u32) -> (r: u32)
        requires
            old(self)@.sample_buffer.len() >= old(self)@.window_size ==> old(self)@.window_size > 0,
            old(self)@.insert_index < usize::MAX,
        ensures
            (final(self)@, r) == flanger_step(old(self)@, sample),
    {
        if self.sample_buffer.len() < self.window_size {
            self.sample_buffer.push(sample);
        } else {
            let idx = self.insert_index % self.window_size;
            if idx < self.sample_buffer.len() {
                self.sample_buffer.set(idx, sample);
            }
        }
        let mut flanger_sample: u32 = 0;
        let len = self.sample_buffer.len();
        if len > 0 {
            let read_idx = (self.insert_index + 1) % len;
            flanger_sample = self.sample_buffer[read_idx];
        }
        self.insert_index = self.insert_index.wrapping_add(1);
        flanger_sample
    }

    /// Whether `next_sample` may be called: a full window needs a size
    /// that is not 0, and the insert position must not be at its limit.
    pub fn can_take_sample(&self) -> (r: bool)
        ensures
            r == ((self@.sample_buffer.len() >= self@.window_size ==> self@.window_size > 0)
                && self@.insert_index < usize::MAX),
    {
        (self.sample_buffer.len() < self.window_size || self.window_size > 0) && self.insert_index
            < usize::MAX
    }

    /// The window size.
    pub fn window_size(&self) -> (r: usize)
        ensures
            r == self@.window_size,
    {
        self.window_size
    }
}

/// The window never holds more samples than its size: taking a sample
/// keeps a window that is not over its size within it.
pub proof fn lemma_window_bounded(w: FlangerWindowModel, sample: u32)
    requires
        w.sample_buffer.len() <= w.window_size,
        w.sample_buffer.len() >= w.window_size ==> w.window_size > 0,
    ensures
        flanger_step(w, sample).0.sample_buffer.len() <= w.window_size,
        flanger_step(w, sample).0.window_size == w.window_size,
{
}

} // verus!
