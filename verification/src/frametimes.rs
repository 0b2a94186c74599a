//! The fixed-capacity ring buffer of recent per-frame durations.
//!
//! The buffer is created zero-filled at its capacity and never grows or
//! shrinks: a push shifts every sample one slot towards the front and
//! writes the new sample into the last slot, so the slots read
//! oldest-to-newest by position and the oldest sample is evicted.

use vstd::prelude::*;

use crate::config::DEFAULT_BUFFER_LEN;
use crate::sample::spec_clamp_sample;
use crate::sample::clamp_sample;

verus! {

/// What a single push does to the stored sequence: the oldest (front)
/// sample leaves and the new one enters at the back.
pub open spec fn shift_in(frames: Seq<u32>, v: u32) -> Seq<u32>
    recommends
        frames.len() >= 1,
{
    frames.subrange(1, frames.len() as int).push(v)
}

/// A whole sequence of pushes, oldest first.
pub open spec fn shift_in_all(frames: Seq<u32>, vs: Seq<u32>) -> Seq<u32>
    decreases vs.len(),
{
    if vs.len() == 0 {
        frames
    } else {
        shift_in_all(shift_in(frames, vs[0]), vs.subrange(1, vs.len() as int))
    }
}

/// Any sequence of pushes leaves the buffer at its capacity: the stored
/// sequence never changes length.
pub proof fn lemma_shift_in_all_preserves_len(frames: Seq<u32>, vs: Seq<u32>)
    requires
        frames.len() >= 1,
    ensures
        shift_in_all(frames, vs).len() == frames.len(),
    decreases vs.len(),
{
    if vs.len() != 0 {
        lemma_shift_in_all_preserves_len(shift_in(frames, vs[0]), vs.subrange(1, vs.len() as int));
    }
}

/// After any sequence of pushes the buffer holds exactly the last
/// `frames.len()` samples of the initial contents followed by the pushed
/// values, in order: pushes evict strictly oldest-first.
pub proof fn lemma_shift_in_all_window(frames: Seq<u32>, vs: Seq<u32>)
    requires
        frames.len() >= 1,
    ensures
        shift_in_all(frames, vs) == (frames + vs).subrange(
            vs.len() as int,
            vs.len() + frames.len() as int,
        ),
    decreases vs.len(),
{
    if vs.len() == 0 {
        assert(shift_in_all(frames, vs) =~= (frames + vs).subrange(
            vs.len() as int,
            vs.len() + frames.len() as int,
        ));
    } else {
        let rest = vs.subrange(1, vs.len() as int);
        lemma_shift_in_all_window(shift_in(frames, vs[0]), rest);
        assert(shift_in(frames, vs[0]) + rest =~= (frames + vs).subrange(
            1,
            (frames + vs).len() as int,
        ));
        assert((shift_in(frames, vs[0]) + rest).subrange(
            rest.len() as int,
            rest.len() + frames.len() as int,
        ) =~= (frames + vs).subrange(vs.len() as int, vs.len() + frames.len() as int));
    }
}

/// Pushing at least `frames.len()` values leaves the buffer holding exactly
/// the last `frames.len()` pushed values, in push order; in particular,
/// pushing capacity + 1 values leaves all but the first of them.
pub proof fn lemma_shift_in_all_evicts(frames: Seq<u32>, vs: Seq<u32>)
    requires
        frames.len() >= 1,
        vs.len() >= frames.len(),
    ensures
        shift_in_all(frames, vs) == vs.subrange(vs.len() - frames.len(), vs.len() as int),
{
    lemma_shift_in_all_window(frames, vs);
    assert((frames + vs).subrange(vs.len() as int, vs.len() + frames.len() as int) =~= vs.subrange(
        vs.len() - frames.len(),
        vs.len() as int,
    ));
}

/// The ring buffer state: the samples (oldest to newest) and the most
/// recently reported frames-per-second scalar, also carried as an IEEE-754
/// single-precision bit pattern.
pub struct FrametimesView {
    pub values: Seq<u32>,
    pub fps: u32,
}

/// Fixed-capacity history of per-frame durations, plus the latest
/// frames-per-second value, which is tracked independently of the samples.
pub struct Frametimes {
    values: Vec<u32>,
    fps: u32,
}

impl View for Frametimes {
    type V = FrametimesView;

    closed spec fn view(&self) -> FrametimesView {
        FrametimesView { values: self.values@, fps: self.fps }
    }
}

impl Default for Frametimes {
    /// A zero-filled buffer at the default capacity.
    fn default() -> (r: Frametimes)
        ensures
            r@.values.len() == DEFAULT_BUFFER_LEN,
            forall|i: int| 0 <= i < DEFAULT_BUFFER_LEN ==> r@.values[i] == 0u32,
            r@.fps == 0u32,
            r.wf(),
    {
        Frametimes::new(DEFAULT_BUFFER_LEN)
    }
}

impl Frametimes {
    /// A buffer always holds at least one slot.
    pub open spec fn wf(&self) -> bool {
        self@.values.len() >= 1
    }

    /// Creates a zero-filled buffer of the given capacity.
    pub fn new(capacity: usize) -> (r: Frametimes)
        requires
            capacity >= 1,
        ensures
            r@.values.len() == capacity,
            forall|i: int| 0 <= i < capacity ==> r@.values[i] == 0u32,
            r@.fps == 0u32,
            r.wf(),
    {
        let mut values: Vec<u32> = Vec::new();
        let mut i: usize = 0;
        while i < capacity
            invariant
                i <= capacity,
                values@.len() == i,
                forall|j: int| 0 <= j < i ==> values@[j] == 0u32,
            decreases capacity - i,
        {
            values.push(0u32);
            i = i + 1;
        }
        Frametimes { values, fps: 0u32 }
    }

    /// The number of slots, fixed at construction.
    pub fn capacity(&self) -> (r: usize)
        ensures
            r == self@.values.len(),
    {
        self.values.len()
    }

    /// Appends `value` as the newest sample and evicts the oldest one.
    /// Malformed samples (negative, infinite, NaN) are clamped to zero
    /// before they are stored.
    pub fn push(&mut self, value: u32)
        requires
            old(self).wf(),
        ensures
            final(self)@.values == shift_in(old(self)@.values, spec_clamp_sample(value)),
            final(self)@.values.len() == old(self)@.values.len(),
            final(self)@.fps == old(self)@.fps,
            final(self).wf(),
    {
        let stored: u32 = clamp_sample(value);
        let len: usize = self.values.len();
        let mut i: usize = 0;
        while i < len - 1
            invariant
                len == self.values@.len(),
                len >= 1,
                i <= len - 1,
                forall|j: int| 0 <= j < i ==> self.values@[j] == old(self).values@[j + 1],
                forall|j: int| i <= j < len ==> self.values@[j] == old(self).values@[j],
                self.fps == old(self).fps,
            decreases len - i,
        {
            let next: u32 = self.values[i + 1];
            self.values.set(i, next);
            i = i + 1;
        }
        self.values.set(len - 1, stored);
        assert(self@.values =~= shift_in(old(self)@.values, spec_clamp_sample(value)));
    }

    /// Records the latest frames-per-second value; the samples are not
    /// touched.
    pub fn set_fps(&mut self, value: u32)
        ensures
            final(self)@.fps == value,
            final(self)@.values == old(self)@.values,
    {
        self.fps = value;
    }

    /// The latest frames-per-second value.
    pub fn fps(&self) -> (r: u32)
        ensures
            r == self@.fps,
    {
        self.fps
    }

    /// An order-preserving copy of the samples, oldest to newest.
    pub fn snapshot(&self) -> (r: Vec<u32>)
        ensures
            r@ == self@.values,
    {
        let len: usize = self.values.len();
        let mut out: Vec<u32> = Vec::new();
        let mut i: usize = 0;
        while i < len
            invariant
                len == self.values@.len(),
                i <= len,
                out@.len() == i,
                forall|j: int| 0 <= j < i ==> out@[j] == self.values@[j],
            decreases len - i,
        {
            out.push(self.values[i]);
            i = i + 1;
        }
        assert(out@ =~= self@.values);
        out
    }

    /// The sample at `index`, counted oldest to newest.
    pub fn sample(&self, index: usize) -> (r: u32)
        requires
            index < self@.values.len(),
        ensures
            r == self@.values[index as int],
    {
        self.values[index]
    }
}

} // verus!
