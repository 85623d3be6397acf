//! The per-block transforms, one per output mode.
use vstd::prelude::*;

use crate::delay::{lemma_written_step, read_back, written, DelayLine};
use crate::frame::{silence, Frame};
use crate::sample::{
    attenuated, clamp_gain, mix, mixed, clamped_gain, difference, half_sum, mean, scale, subtract, trunc_div, MAX_GAIN, UNITY,
};

verus! {

/// Both channels set to the mean of the two.
pub open spec fn sum_frame(f: Frame) -> Frame {
    let m = half_sum(f.left as int, f.right as int) as i32;
    Frame { left: m, right: m }
}

/// Both channels set to left minus right.
pub open spec fn diff_frame(f: Frame) -> Frame {
    let d = difference(f.left as int, f.right as int) as i32;
    Frame { left: d, right: d }
}

/// The right channel silenced.
pub open spec fn left_only_frame(f: Frame) -> Frame {
    Frame { left: f.left, right: 0 }
}

/// The left channel copied to the right.
pub open spec fn left_left_frame(f: Frame) -> Frame {
    Frame { left: f.left, right: f.left }
}

/// The left channel silenced.
pub open spec fn right_only_frame(f: Frame) -> Frame {
    Frame { left: 0, right: f.right }
}

/// The right channel copied to the left.
pub open spec fn right_right_frame(f: Frame) -> Frame {
    Frame { left: f.right, right: f.right }
}

/// Balance by the amount `b` (already held to its range): a positive amount
/// attenuates the right channel by `1 - b`, a negative one the left channel
/// by `1 - |b|`, zero changes nothing.
pub open spec fn balanced_frame(f: Frame, b: int) -> Frame {
    if b == 0 {
        f
    } else if b > 0 {
        Frame { left: f.left, right: attenuated(f.right as int, b) as i32 }
    } else {
        Frame { left: attenuated(f.left as int, -b) as i32, right: f.right }
    }
}

/// The delay actually used by a line of capacity `cap`: at most `cap - 1`.
pub open spec fn held_delay(delay: int, cap: int) -> int {
    if delay < cap {
        delay
    } else {
        cap - 1
    }
}

/// Each channel of `f` with `level` times the opposite channel of `fed` added.
pub open spec fn crossfed_frame(f: Frame, fed: Frame, level: int) -> Frame {
    Frame {
        left: mixed(f.left as int, level, fed.right as int) as i32,
        right: mixed(f.right as int, level, fed.left as int) as i32,
    }
}

/// The block `b` crossfed through a line of capacity `cap` that held `h`:
/// frame `i` takes in the frame read `d` writes back once the frames before
/// it have been written.
pub open spec fn crossfed(
    h: Seq<Frame>,
    b: Seq<Frame>,
    cap: nat,
    level: int,
    d: int,
) -> Seq<Frame> {
    Seq::new(
        b.len(),
        |i: int| crossfed_frame(b[i], read_back(written(h, b.take(i), cap), d), level),
    )
}

/// Where the two channels are equal, the difference is silence.
pub proof fn lemma_diff_of_equal_channels(f: Frame)
    requires
        f.left == f.right,
    ensures
        diff_frame(f) == silence(),
{
}

/// At the largest positive amount the right channel is scaled by exactly
/// three quarters (rounded toward zero), and at the largest negative amount the
/// left channel; the other channel is kept.
pub proof fn lemma_quarter_balance(f: Frame)
    ensures
        balanced_frame(f, MAX_GAIN as int) == (Frame {
            left: f.left,
            right: trunc_div(3 * f.right, 4) as i32,
        }),
        balanced_frame(f, -MAX_GAIN) == (Frame {
            left: trunc_div(3 * f.left, 4) as i32,
            right: f.right,
        }),
{
    lemma_three_quarters(f.right as int);
    lemma_three_quarters(f.left as int);
}

proof fn lemma_three_quarters(x: int)
    ensures
        attenuated(x, MAX_GAIN as int) == trunc_div(3 * x, 4),
{
    let k = MAX_GAIN as int;
    assert(UNITY - k == 3 * k);
    assert(UNITY == 4 * k);
    if x >= 0 {
        assert((x * (3 * k)) / (4 * k) == (3 * x) / 4) by (nonlinear_arith)
            requires
                x >= 0,
                k > 0,
        ;
    } else {
        assert((-(x * (3 * k))) / (4 * k) == (-(3 * x)) / 4) by (nonlinear_arith)
            requires
                x < 0,
                k > 0,
        ;
    }
}

/// At level zero crossfeed leaves a block as it is, whatever the delay and
/// whatever the line holds.
pub proof fn lemma_silent_crossfeed(h: Seq<Frame>, b: Seq<Frame>, cap: nat, d: int)
    ensures
        crossfed(h, b, cap, 0, d) == b,
{
    assert(crossfed(h, b, cap, 0, d) =~= b);
}

/// Mono sum: each frame becomes `((l + r) / 2, (l + r) / 2)`.
pub fn sum_mono(buf: &mut Vec<Frame>)
    ensures
        final(buf)@.len() == old(buf)@.len(),
        forall|i: int| 0 <= i < old(buf)@.len() ==> #[trigger] final(buf)@[i] == sum_frame(old(buf)@[i]),
{
    let n = buf.len();
    let mut i: usize = 0;
    while i < n
        invariant
            n == buf@.len(),
            n == old(buf)@.len(),
            i <= n,
            forall|j: int| 0 <= j < i ==> #[trigger] buf@[j] == sum_frame(old(buf)@[j]),
            forall|j: int| i <= j < n ==> #[trigger] buf@[j] == old(buf)@[j],
        decreases n - i,
    {
        let f = buf[i];
        let m = mean(f.left, f.right);
        buf[i] = Frame { left: m, right: m };
        i = i + 1;
    }
}

/// Mono difference: each frame becomes `(l - r, l - r)`.
pub fn diff_mono(buf: &mut Vec<Frame>)
    ensures
        final(buf)@.len() == old(buf)@.len(),
        forall|i: int| 0 <= i < old(buf)@.len() ==> #[trigger] final(buf)@[i] == diff_frame(old(buf)@[i]),
{
    let n = buf.len();
    let mut i: usize = 0;
    while i < n
        invariant
            n == buf@.len(),
            n == old(buf)@.len(),
            i <= n,
            forall|j: int| 0 <= j < i ==> #[trigger] buf@[j] == diff_frame(old(buf)@[j]),
            forall|j: int| i <= j < n ==> #[trigger] buf@[j] == old(buf)@[j],
        decreases n - i,
    {
        let f = buf[i];
        let d = subtract(f.left, f.right);
        buf[i] = Frame { left: d, right: d };
        i = i + 1;
    }
}

/// Silences the right channel; the left channel is left as it is.
pub fn left_only(buf: &mut Vec<Frame>)
    ensures
        final(buf)@.len() == old(buf)@.len(),
        forall|i: int| 0 <= i < old(buf)@.len() ==> #[trigger] final(buf)@[i] == left_only_frame(old(buf)@[i]),
{
    let n = buf.len();
    let mut i: usize = 0;
    while i < n
        invariant
            n == buf@.len(),
            n == old(buf)@.len(),
            i <= n,
            forall|j: int| 0 <= j < i ==> #[trigger] buf@[j] == left_only_frame(old(buf)@[j]),
            forall|j: int| i <= j < n ==> #[trigger] buf@[j] == old(buf)@[j],
        decreases n - i,
    {
        buf[i].right = 0;
        i = i + 1;
    }
}

/// Copies the left channel onto the right.
pub fn left_left(buf: &mut Vec<Frame>)
    ensures
        final(buf)@.len() == old(buf)@.len(),
        forall|i: int| 0 <= i < old(buf)@.len() ==> #[trigger] final(buf)@[i] == left_left_frame(old(buf)@[i]),
{
    let n = buf.len();
    let mut i: usize = 0;
    while i < n
        invariant
            n == buf@.len(),
            n == old(buf)@.len(),
            i <= n,
            forall|j: int| 0 <= j < i ==> #[trigger] buf@[j] == left_left_frame(old(buf)@[j]),
            forall|j: int| i <= j < n ==> #[trigger] buf@[j] == old(buf)@[j],
        decreases n - i,
    {
        buf[i].right = buf[i].left;
        i = i + 1;
    }
}

/// Silences the left channel; the right channel is left as it is.
pub fn right_only(buf: &mut Vec<Frame>)
    ensures
        final(buf)@.len() == old(buf)@.len(),
        forall|i: int| 0 <= i < old(buf)@.len() ==> #[trigger] final(buf)@[i] == right_only_frame(old(buf)@[i]),
{
    let n = buf.len();
    let mut i: usize = 0;
    while i < n
        invariant
            n == buf@.len(),
            n == old(buf)@.len(),
            i <= n,
            forall|j: int| 0 <= j < i ==> #[trigger] buf@[j] == right_only_frame(old(buf)@[j]),
            forall|j: int| i <= j < n ==> #[trigger] buf@[j] == old(buf)@[j],
        decreases n - i,
    {
        buf[i].left = 0;
        i = i + 1;
    }
}

/// Copies the right channel onto the left.
pub fn right_right(buf: &mut Vec<Frame>)
    ensures
        final(buf)@.len() == old(buf)@.len(),
        forall|i: int| 0 <= i < old(buf)@.len() ==> #[trigger] final(buf)@[i] == right_right_frame(old(buf)@[i]),
{
    let n = buf.len();
    let mut i: usize = 0;
    while i < n
        invariant
            n == buf@.len(),
            n == old(buf)@.len(),
            i <= n,
            forall|j: int| 0 <= j < i ==> #[trigger] buf@[j] == right_right_frame(old(buf)@[j]),
            forall|j: int| i <= j < n ==> #[trigger] buf@[j] == old(buf)@[j],
        decreases n - i,
    {
        buf[i].left = buf[i].right;
        i = i + 1;
    }
}

/// Balance: the amount `bal` is first held to `[-MAX_GAIN, MAX_GAIN]`; a
/// positive amount scales the right channel by `1 - bal`, a negative one the
/// left channel by `1 - |bal|`; zero leaves the block as it is.
pub fn balance(buf: &mut Vec<Frame>, bal: i32)
    ensures
        final(buf)@.len() == old(buf)@.len(),
        forall|i: int|
            0 <= i < old(buf)@.len() ==> #[trigger] final(buf)@[i] == balanced_frame(
                old(buf)@[i],
                clamped_gain(bal as int),
            ),
        clamped_gain(bal as int) == 0 ==> final(buf)@ == old(buf)@,
{
    let b = clamp_gain(bal);
    if b == 0 {
        assert(buf@ =~= old(buf)@);
        return;
    }
    let right = b > 0;
    let s: i32 = if right { b } else { -b };
    let n = buf.len();
    let mut i: usize = 0;
    while i < n
        invariant
            n == buf@.len(),
            n == old(buf)@.len(),
            i <= n,
            b == clamped_gain(bal as int),
            b != 0,
            -MAX_GAIN <= b <= MAX_GAIN,
            right == (b > 0),
            s == if right { b as int } else { -b },
            forall|j: int| 0 <= j < i ==> #[trigger] buf@[j] == balanced_frame(old(buf)@[j], b as int),
            forall|j: int| i <= j < n ==> #[trigger] buf@[j] == old(buf)@[j],
        decreases n - i,
    {
        if right {
            scale(&mut buf[i].right, s);
        } else {
            scale(&mut buf[i].left, s);
        }
        i = i + 1;
    }
}

/// Crossfeed: mixes into each channel `cf_l` times the opposite channel of a
/// past frame, read `cf_d` writes back from `del` (a delay held to the line's
/// capacity); each frame as it came in is then written to `del`. The level is
/// first held to `[-MAX_GAIN, MAX_GAIN]`.
pub fn crossfeed(buf: &mut Vec<Frame>, cf_l: i32, cf_d: usize, del: &mut DelayLine)
    requires
        old(del).wf(),
    ensures
        final(del).wf(),
        final(del).capacity() == old(del).capacity(),
        final(del)@ == written(old(del)@, old(buf)@, old(del).capacity()),
        final(buf)@ == crossfed(
            old(del)@,
            old(buf)@,
            old(del).capacity(),
            clamped_gain(cf_l as int),
            held_delay(cf_d as int, old(del).capacity() as int),
        ),
{
    let level = clamp_gain(cf_l);
    let cap = del.len_max();
    proof {
        del.lemma_fits();
    }
    let d = if cf_d < cap { cf_d } else { cap - 1 };
    let n = buf.len();
    let ghost h = old(del)@;
    let ghost b = old(buf)@;
    let ghost out = crossfed(h, b, cap as nat, level as int, d as int);
    let mut i: usize = 0;
    assert(b.take(0) =~= Seq::<Frame>::empty());
    assert(h + Seq::<Frame>::empty() =~= h);
    while i < n
        invariant
            n == buf@.len(),
            n == b.len(),
            b == old(buf)@,
            i <= n,
            del.wf(),
            del.capacity() == cap,
            cap >= 1,
            -MAX_GAIN <= level <= MAX_GAIN,
            level == clamped_gain(cf_l as int),
            d == held_delay(cf_d as int, cap as int),
            out == crossfed(h, b, cap as nat, level as int, d as int),
            del@ == written(h, b.take(i as int), cap as nat),
            forall|j: int| 0 <= j < i ==> #[trigger] buf@[j] == out[j],
            forall|j: int| i <= j < n ==> #[trigger] buf@[j] == b[j],
        decreases n - i,
    {
        let f = buf[i];
        let fed = del.read(d);
        buf[i] = Frame { left: mix(f.left, level, fed.right), right: mix(f.right, level, fed.left) };
        del.write(f);
        proof {
            lemma_written_step(h, b, i as int, cap as nat);
        }
        i = i + 1;
    }
    assert(buf@ =~= out);
    assert(b.take(n as int) =~= b);
}

} // verus!
