//! A fixed-capacity ring buffer of past frames.
use vstd::prelude::*;

use crate::frame::{silence, Frame};

verus! {

/// The last `cap` frames of `s` (all of them if there are fewer).
pub open spec fn kept(s: Seq<Frame>, cap: nat) -> Seq<Frame> {
    if s.len() > cap {
        s.subrange(s.len() - cap, s.len() as int)
    } else {
        s
    }
}

/// What a line holding `h` holds after `b` has been written to it, frame by frame.
pub open spec fn written(h: Seq<Frame>, b: Seq<Frame>, cap: nat) -> Seq<Frame> {
    kept(h + b, cap)
}

/// The frame written `k` writes ago in a line holding `h` (`k == 0` is the
/// newest), or silence where the line holds no such frame.
pub open spec fn read_back(h: Seq<Frame>, k: int) -> Frame {
    if 0 <= k < h.len() {
        h[h.len() - 1 - k]
    } else {
        silence()
    }
}

/// Keeping the last `cap` frames after each write is keeping the last `cap`
/// frames of everything written.
pub proof fn lemma_kept_push(s: Seq<Frame>, x: Frame, cap: nat)
    requires
        cap >= 1,
    ensures
        kept(kept(s, cap).push(x), cap) == kept(s.push(x), cap),
{
    if s.len() > cap {
        assert(kept(s, cap).push(x).subrange(1, cap as int + 1) =~= s.push(x).subrange(
            s.len() + 1 - cap,
            s.len() as int + 1,
        ));
    }
}

/// Writing one more frame of a block continues the writes of those before it.
pub proof fn lemma_written_step(h: Seq<Frame>, b: Seq<Frame>, i: int, cap: nat)
    requires
        cap >= 1,
        0 <= i < b.len(),
    ensures
        kept(written(h, b.take(i), cap).push(b[i]), cap) == written(h, b.take(i + 1), cap),
{
    lemma_kept_push(h + b.take(i), b[i], cap);
    assert((h + b.take(i)).push(b[i]) =~= h + b.take(i + 1));
}

/// In a line of capacity two or more that started empty, once `fs` and then
/// `f` have been written, the frame one write back is the last of `fs`.
pub proof fn lemma_read_previous(fs: Seq<Frame>, f: Frame, cap: nat)
    requires
        cap >= 2,
        fs.len() >= 1,
    ensures
        read_back(kept(written(Seq::empty(), fs, cap).push(f), cap), 1) == fs.last(),
{
    let v = written(Seq::<Frame>::empty(), fs, cap);
    assert(Seq::<Frame>::empty() + fs =~= fs);
    assert(v.len() >= 1);
    assert(v.last() == fs.last());
    let w = kept(v.push(f), cap);
    assert(w.len() >= 2);
    assert(w[w.len() - 2] == v.last());
}

/// In a line that started empty, once `fs` has been written, reading as far
/// back as the number of frames written, or further, gives silence.
pub proof fn lemma_read_before_start(fs: Seq<Frame>, k: int, cap: nat)
    requires
        k >= fs.len(),
    ensures
        read_back(written(Seq::empty(), fs, cap), k) == silence(),
{
    assert(Seq::<Frame>::empty() + fs =~= fs);
}

/// The largest capacity a line is made with.
pub const MAX_DELAY_FRAMES: usize = 1048576;

/// The capacity that holds `ms` milliseconds of frames at `rate` frames per
/// second, the delay of `ms` itself included.
pub open spec fn frames_for(rate: int, ms: int) -> int {
    rate * ms / 1000 + 1
}

/// A history of frames of fixed capacity: each write appends a frame and,
/// once the line is full, drops the oldest one.
pub struct DelayLine {
    slots: Vec<Frame>,
    /// The slot of the oldest frame held.
    start: usize,
    /// The number of frames held.
    count: usize,
}

impl DelayLine {
    /// The slot that holds the `j`-th oldest frame.
    pub closed spec fn slot(&self, j: int) -> int {
        if self.start + j < self.slots@.len() {
            self.start + j
        } else {
            self.start + j - self.slots@.len()
        }
    }

    pub closed spec fn wf(&self) -> bool {
        &&& self.slots@.len() >= 1
        &&& self.start < self.slots@.len()
        &&& self.count <= self.slots@.len()
    }

    /// The number of frames the line can hold.
    pub closed spec fn capacity(&self) -> nat {
        self.slots@.len()
    }

    /// A well-formed line can hold at least one frame, and holds no more than it can.
    pub proof fn lemma_fits(&self)
        requires
            self.wf(),
        ensures
            1 <= self.capacity(),
            self@.len() <= self.capacity(),
    {
    }

    /// Creates an empty line that holds up to `capacity` frames.
    pub fn new(capacity: usize) -> (r: DelayLine)
        requires
            capacity >= 1,
        ensures
            r.wf(),
            r.capacity() == capacity,
            r@ == Seq::<Frame>::empty(),
    {
        let mut slots: Vec<Frame> = Vec::new();
        let mut i: usize = 0;
        while i < capacity
            invariant
                i <= capacity,
                slots@.len() == i,
            decreases capacity - i,
        {
            slots.push(Frame::silent());
            i = i + 1;
        }
        let r = DelayLine { slots, start: 0, count: 0 };
        assert(r@ =~= Seq::<Frame>::empty());
        r
    }

    /// Creates an empty line sized for delays of up to `max_delay_ms`
    /// milliseconds at `sample_rate` frames per second; `None` where the rate
    /// is zero or the line would exceed `MAX_DELAY_FRAMES`.
    pub fn for_rate(sample_rate: u32, max_delay_ms: u32) -> (r: Option<DelayLine>)
        ensures
            r is Some <==> sample_rate > 0 && frames_for(sample_rate as int, max_delay_ms as int)
                <= MAX_DELAY_FRAMES,
            r matches Some(line) ==> {
                &&& line.wf()
                &&& line.capacity() == frames_for(sample_rate as int, max_delay_ms as int)
                &&& line@ == Seq::<Frame>::empty()
            },
    {
        if sample_rate == 0 {
            return None;
        }
        proof {
            assert(0 <= sample_rate as int * max_delay_ms as int <= 0xffffffff * 0xffffffff)
                by (nonlinear_arith)
                requires
                    0 <= sample_rate <= 0xffffffff,
                    0 <= max_delay_ms <= 0xffffffff,
            ;
        }
        let frames = sample_rate as u64 * max_delay_ms as u64 / 1000 + 1;
        if frames > MAX_DELAY_FRAMES as u64 {
            return None;
        }
        Some(DelayLine::new(frames as usize))
    }

    /// The number of frames the line can hold.
    pub fn len_max(&self) -> (r: usize)
        requires
            self.wf(),
        ensures
            r == self.capacity(),
    {
        self.slots.len()
    }

    /// Appends `f` as the newest frame, dropping the oldest once the line is full.
    pub fn write(&mut self, f: Frame)
        requires
            old(self).wf(),
        ensures
            final(self).wf(),
            final(self).capacity() == old(self).capacity(),
            final(self)@ == kept(old(self)@.push(f), old(self).capacity()),
    {
        let n = self.slots.len();
        let ghost h = self@;
        if self.count < n {
            let w = if self.start < n - self.count {
                self.start + self.count
            } else {
                self.start - (n - self.count)
            };
            self.slots[w] = f;
            self.count = self.count + 1;
            assert(self@ =~= h.push(f));
        } else {
            let w = self.start;
            self.slots[w] = f;
            self.start = if w + 1 == n { 0 } else { w + 1 };
            assert(self@ =~= h.push(f).subrange(1, n as int + 1));
        }
    }

    /// The frame written `k` writes ago (`k == 0` is the newest), or silence
    /// where the line holds no such frame (before the stream has gone that far).
    pub fn read(&self, k: usize) -> (r: Frame)
        requires
            self.wf(),
        ensures
            r == read_back(self@, k as int),
    {
        if k < self.count {
            let j = self.count - 1 - k;
            let n = self.slots.len();
            let s = if self.start < n - j { self.start + j } else { self.start - (n - j) };
            self.slots[s]
        } else {
            Frame::silent()
        }
    }
}

impl View for DelayLine {
    type V = Seq<Frame>;

    /// The frames held, oldest first.
    closed spec fn view(&self) -> Seq<Frame> {
        Seq::new(self.count as nat, |j: int| self.slots@[self.slot(j)])
    }
}

} // verus!
