//! The recorded samples of a sampled note, with a read position. Samples
//! are carried as the bits of their `f32` value.
use vstd::prelude::*;

verus! {

/// A note's samples, the size it counts them as, and the position of the
/// next sample to read.
#[derive(Clone, Debug)]
pub struct SampleBuffer {
    pub sample_buf: Vec<u32>,
    pub buf_size: usize,
    sample_index: usize,
}

pub struct SampleBufferModel {
    pub sample_buf: Seq<u32>,
    pub buf_size: usize,
    pub sample_index: usize,
}

impl View for SampleBuffer {
    type V = SampleBufferModel;

    closed spec fn view(&self) -> SampleBufferModel {
        SampleBufferModel {
            sample_buf: self.sample_buf@,
            buf_size: self.buf_size,
            sample_index: self.sample_index,
        }
    }
}

/// The samples of segment `i` when a buffer is cut into segments of
/// `size` samples.
pub open spec fn segment(buf: Seq<u32>, size: int, i: int) -> Seq<u32> {
    buf.subrange(i * size, (i + 1) * size)
}

/// The concatenation of buffers, in order.
pub open spec fn concat(parts: Seq<Seq<u32>>) -> Seq<u32>
    decreases parts.len(),
{
    if parts.len() == 0 {
        Seq::empty()
    } else {
        concat(parts.drop_last()) + parts.last()
    }
}

impl SampleBuffer {
    /// An empty buffer.
    pub fn new() -> (r: Self)
        ensures
            r@.sample_buf == Seq::<u32>::empty(),
            r@.buf_size == 0,
            r@.sample_index == 0,
    {
        SampleBuffer { sample_buf: Vec::new(), buf_size: 0, sample_index: 0 }
    }

    /// The sample at the read position, which must be recorded; the
    /// position moves on.
    pub fn next_sample(&mut self) -> (r: u32)
        requires
            old(self)@.sample_index < old(self)@.sample_buf.len(),
        ensures
            r == old(self)@.sample_buf[old(self)@.sample_index as int],
            final(self)@ == (SampleBufferModel {
                sample_index: (old(self)@.sample_index + 1) as usize,
                ..old(self)@
            }),
    {
        let sample = self.sample_buf[self.sample_index];
        assert(self.sample_index < self.sample_buf.len());
        self.sample_index = self.sample_index + 1;
        sample
    }

    /// The sample at an index, which must be recorded.
    pub fn get_sample_at(&self, index: usize) -> (r: u32)
        requires
            index < self@.sample_buf.len(),
        ensures
            r == self@.sample_buf[index as int],
    {
        self.sample_buf[index]
    }

    /// Replaces the samples and the size, and reads from the start.
    pub fn set_sample_buf(&mut self, samples: &[u32], buf_size: usize)
        ensures
            final(self)@ == (SampleBufferModel {
                sample_buf: samples@,
                buf_size,
                sample_index: 0,
            }),
    {
        let mut buf: Vec<u32> = Vec::with_capacity(samples.len());
        let n = samples.len();
        for i in 0..n
            invariant
                n == samples.len(),
                buf@ == samples@.take(i as int),
        {
            buf.push(samples[i]);
            assert(buf@ =~= samples@.take(i + 1));
        }
        assert(samples@.take(n as int) =~= samples@);
        self.sample_buf = buf;
        self.buf_size = buf_size;
        self.sample_index = 0;
    }

    /// Appends a sample, counting it in the size.
    pub fn append_sample(&mut self, sample: u32)
        requires
            old(self)@.buf_size < usize::MAX,
        ensures
            final(self)@ == (SampleBufferModel {
                sample_buf: old(self)@.sample_buf.push(sample),
                buf_size: (old(self)@.buf_size + 1) as usize,
                ..old(self)@
            }),
    {
        self.sample_buf.push(sample);
        self.buf_size = self.buf_size + 1;
    }

    /// Reverses the samples.
    pub fn reverse(&mut self)
        ensures
            final(self)@ == (SampleBufferModel {
                sample_buf: old(self)@.sample_buf.reverse(),
                ..old(self)@
            }),
    {
        let n = self.sample_buf.len();
        let mut reversed: Vec<u32> = Vec::with_capacity(n);
        for i in 0..n
            invariant
                n == self.sample_buf.len(),
                reversed@ == self.sample_buf@.reverse().take(i as int),
        {
            reversed.push(self.sample_buf[n - 1 - i]);
            assert(reversed@ =~= self.sample_buf@.reverse().take(i + 1));
        }
        assert(self.sample_buf@.reverse().take(n as int) =~= self.sample_buf@.reverse());
        self.sample_buf = reversed;
    }

    /// The buffer cut into `num_segments` segments of
    /// `buf_size / num_segments` samples each, in order; each keeps the
    /// read position. The segments must lie within the recorded samples.
    pub fn chopped(&self, num_segments: usize) -> (r: Vec<SampleBuffer>)
        requires
            num_segments > 0,
            num_segments * (self@.buf_size / num_segments) <= self@.sample_buf.len(),
        ensures
            r.len() == num_segments,
            forall|i: int|
                0 <= i < num_segments ==> (#[trigger] r@[i])@ == (SampleBufferModel {
                    sample_buf: segment(
                        self@.sample_buf,
                        (self@.buf_size / num_segments) as int,
                        i,
                    ),
                    buf_size: self@.buf_size / num_segments,
                    sample_index: self@.sample_index,
                }),
    {
        let segment_size = self.buf_size / num_segments;
        let mut chopped_notes: Vec<SampleBuffer> = Vec::with_capacity(num_segments);
        for i in 0..num_segments
            invariant
                segment_size == self@.buf_size / num_segments,
                num_segments * segment_size <= self@.sample_buf.len(),
                chopped_notes.len() == i,
                forall|j: int|
                    0 <= j < i ==> (#[trigger] chopped_notes@[j])@ == (SampleBufferModel {
                        sample_buf: segment(self@.sample_buf, segment_size as int, j),
                        buf_size: segment_size,
                        sample_index: self@.sample_index,
                    }),
        {
            assert(i * segment_size <= (i + 1) * segment_size <= num_segments * segment_size)
                by (nonlinear_arith)
                requires
                    i + 1 <= num_segments,
            ;
            assert(self.sample_buf@.len() == self.sample_buf.len());
            let start = i * segment_size;
            let end = (i + 1) * segment_size;
            let mut part: Vec<u32> = Vec::with_capacity(segment_size);
            for k in start..end
                invariant
                    start <= end <= self.sample_buf.len(),
                    part@ == self.sample_buf@.subrange(start as int, k as int),
            {
                part.push(self.sample_buf[k]);
                assert(part@ =~= self.sample_buf@.subrange(start as int, k + 1));
            }
            chopped_notes.push(
                SampleBuffer { sample_buf: part, buf_size: segment_size, sample_index: self.sample_index },
            );
        }
        chopped_notes
    }
}

proof fn lemma_concat_segments(buf: Seq<u32>, size: int, n: int)
    requires
        0 <= size,
        0 <= n,
        n * size <= buf.len(),
    ensures
        concat(Seq::new(n as nat, |i: int| segment(buf, size, i))) == buf.take(n * size),
    decreases n,
{
    let parts = Seq::new(n as nat, |i: int| segment(buf, size, i));
    if n == 0 {
        assert(buf.take(0) =~= Seq::<u32>::empty());
    } else {
        assert((n - 1) * size <= n * size) by (nonlinear_arith)
            requires
                0 <= size,
                1 <= n,
        ;
        lemma_concat_segments(buf, size, n - 1);
        assert(parts.drop_last() =~= Seq::new((n - 1) as nat, |i: int| segment(buf, size, i)));
        assert(parts.last() == segment(buf, size, n - 1));
        assert(n * size == (n - 1) * size + size) by (nonlinear_arith);
        assert((n - 1 + 1) * size == n * size);
        assert(segment(buf, size, n - 1) == buf.subrange((n - 1) * size, n * size));
        assert(buf.take(n * size) =~= buf.take((n - 1) * size) + buf.subrange((n - 1) * size, n * size));
    }
}

/// Cutting a buffer into segments loses no sample and reorders none:
/// the segments, put back together in order, are the buffer's first
/// `num_segments * (buf_size / num_segments)` samples.
pub proof fn lemma_chopped_segments_cover(b: SampleBufferModel, num_segments: usize)
    requires
        num_segments > 0,
        num_segments * (b.buf_size / num_segments) <= b.sample_buf.len(),
    ensures
        concat(
            Seq::new(
                num_segments as nat,
                |i: int| segment(b.sample_buf, (b.buf_size / num_segments) as int, i),
            ),
        ) == b.sample_buf.take(num_segments * (b.buf_size / num_segments)),
{
    lemma_concat_segments(b.sample_buf, (b.buf_size / num_segments) as int, num_segments as int);
}

} // verus!
