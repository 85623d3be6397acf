//! Stereo routing and downmixing core: rewrites a block of stereo frames in
//! place according to an output mode (mono sum, mono difference, one-sided
//! isolation or duplication, balance, crossfeed through a delay line).
//!
//! Samples are signed fixed-point amplitudes: `UNITY` stands for full scale.
//! Gains (balance amount, crossfeed level) use the same scale.
use vstd::prelude::*;

pub mod delay;
pub mod frame;
pub mod proc;
pub mod sample;

use crate::delay::{frames_for, written, DelayLine, MAX_DELAY_FRAMES};
use crate::frame::Frame;
use crate::proc::{
    balance, balanced_frame, crossfed, crossfeed, diff_frame, diff_mono, held_delay, left_left,
    left_left_frame, left_only, lemma_silent_crossfeed, left_only_frame, right_only, right_only_frame, right_right,
    right_right_frame, sum_frame, sum_mono,
};
use crate::sample::{clamped_gain, MAX_GAIN};

verus! {

/// The transform applied to each block.
#[derive(Clone, Copy, Debug, PartialEq, Eq, Structural)]
pub enum OutputMode {
    /// Passthrough.
    LeftRight,
    /// The right channel silenced.
    Left,
    /// The left channel on both outputs.
    LeftLeft,
    /// Mono sum, `(l + r) / 2` on both outputs.
    LeftRightSum,
    /// Mono difference, `l - r` on both outputs.
    LeftRightDiff,
    /// The right channel on both outputs.
    RightRight,
    /// The left channel silenced.
    Right,
    /// Each channel takes in a delayed, scaled copy of the other.
    Crossfeed,
    /// One channel attenuated.
    Balance,
}

/// Crossfeed settings: a level (a gain, held to `[-MAX_GAIN, MAX_GAIN]`)
/// and a delay in frames (held to what the delay line can hold).
#[derive(Clone, Copy, Debug, PartialEq, Eq, Structural)]
pub struct CrossFeed {
    pub level: i32,
    pub delay: usize,
}

impl Default for CrossFeed {
    /// A level of a quarter of full scale (about -12 dB) and a delay of
    /// 288 frames (6 ms at 48 kHz).
    fn default() -> (r: Self)
        ensures
            r.level == MAX_GAIN,
            r.delay == 288,
    {
        CrossFeed { level: MAX_GAIN, delay: 288 }
    }
}

/// The parameter values in force for one processing call.
#[derive(Clone, Copy, Debug, PartialEq, Eq, Structural)]
pub struct SOCParams {
    pub output_mode: OutputMode,
    /// When false, every mode passes the block through.
    pub enabled: bool,
    /// The balance amount, a gain held to `[-MAX_GAIN, MAX_GAIN]`.
    pub balance: i32,
    pub cf: CrossFeed,
}

impl Default for SOCParams {
    /// Mono sum, enabled, centred balance, default crossfeed.
    fn default() -> (r: Self)
        ensures
            r.output_mode == OutputMode::LeftRightSum,
            r.enabled,
            r.balance == 0,
            r.cf == (CrossFeed { level: MAX_GAIN, delay: 288 }),
    {
        SOCParams {
            output_mode: OutputMode::LeftRightSum,
            enabled: true,
            balance: 0,
            cf: CrossFeed::default(),
        }
    }
}

/// The mode that a call with `p` applies: passthrough when disabled.
pub open spec fn effective_mode(p: SOCParams) -> OutputMode {
    if p.enabled {
        p.output_mode
    } else {
        OutputMode::LeftRight
    }
}

/// What every mode but crossfeed makes of one frame.
pub open spec fn routed_frame(mode: OutputMode, bal: int, f: Frame) -> Frame {
    match mode {
        OutputMode::Left => left_only_frame(f),
        OutputMode::LeftLeft => left_left_frame(f),
        OutputMode::LeftRightSum => sum_frame(f),
        OutputMode::LeftRightDiff => diff_frame(f),
        OutputMode::RightRight => right_right_frame(f),
        OutputMode::Right => right_only_frame(f),
        OutputMode::Balance => balanced_frame(f, clamped_gain(bal)),
        _ => f,
    }
}

/// What every mode but crossfeed makes of a block.
pub open spec fn routed(mode: OutputMode, bal: int, b: Seq<Frame>) -> Seq<Frame> {
    b.map_values(|f: Frame| routed_frame(mode, bal, f))
}

/// The block that one call with `p` makes of `b`, with a delay line of
/// capacity `cap` holding `h`.
pub open spec fn processed(p: SOCParams, h: Seq<Frame>, cap: nat, b: Seq<Frame>) -> Seq<Frame> {
    if effective_mode(p) == OutputMode::Crossfeed {
        crossfed(h, b, cap, clamped_gain(p.cf.level as int), held_delay(p.cf.delay as int, cap as int))
    } else {
        routed(effective_mode(p), p.balance as int, b)
    }
}

/// What the delay line holds after one call with `p` on `b`: only crossfeed writes to it.
pub open spec fn history_after(p: SOCParams, h: Seq<Frame>, cap: nat, b: Seq<Frame>) -> Seq<Frame> {
    if effective_mode(p) == OutputMode::Crossfeed {
        written(h, b, cap)
    } else {
        h
    }
}

/// Passthrough, or a disabled processor, leaves the block and the delay line
/// as they are.
pub proof fn lemma_passthrough(p: SOCParams, h: Seq<Frame>, cap: nat, b: Seq<Frame>)
    requires
        !p.enabled || p.output_mode == OutputMode::LeftRight,
    ensures
        processed(p, h, cap, b) == b,
        history_after(p, h, cap, b) == h,
{
    assert(routed(OutputMode::LeftRight, p.balance as int, b) =~= b);
}

/// A block of no frames comes out empty in every mode, and the delay line
/// (holding no more than its capacity) is left as it is.
pub proof fn lemma_empty_block(p: SOCParams, h: Seq<Frame>, cap: nat, b: Seq<Frame>)
    requires
        b.len() == 0,
        h.len() <= cap,
    ensures
        processed(p, h, cap, b) == b,
        history_after(p, h, cap, b) == h,
{
    assert(processed(p, h, cap, b) =~= b);
    assert(h + b =~= h);
}

/// Crossfeed at level zero leaves the block as it is, whatever the delay.
pub proof fn lemma_crossfeed_at_level_zero(p: SOCParams, h: Seq<Frame>, cap: nat, b: Seq<Frame>)
    requires
        p.output_mode == OutputMode::Crossfeed,
        p.cf.level == 0,
    ensures
        processed(p, h, cap, b) == b,
{
    lemma_silent_crossfeed(h, b, cap, held_delay(p.cf.delay as int, cap as int));
    assert(routed(effective_mode(p), p.balance as int, b) =~= b);
}

/// The processor: the state that persists from call to call, the crossfeed
/// delay line.
pub struct SOC {
    line: DelayLine,
}

impl SOC {
    pub closed spec fn wf(&self) -> bool {
        self.line.wf()
    }

    /// The frames the delay line holds, oldest first.
    pub closed spec fn history(&self) -> Seq<Frame> {
        self.line@
    }

    /// The number of frames the delay line can hold.
    pub closed spec fn capacity(&self) -> nat {
        self.line.capacity()
    }

    /// Prepares a stream of `input_channels` channels at `sample_rate` frames
    /// per second with crossfeed delays of up to `max_delay_ms` milliseconds.
    /// Succeeds, with an empty delay line, exactly where there are two
    /// channels, the rate is not zero and the line stays within
    /// `MAX_DELAY_FRAMES`; otherwise nothing changes.
    pub fn initialize(&mut self, input_channels: u32, sample_rate: u32, max_delay_ms: u32) -> (ok: bool)
        requires
            old(self).wf(),
        ensures
            final(self).wf(),
            ok <==> input_channels == 2 && sample_rate > 0 && frames_for(
                sample_rate as int,
                max_delay_ms as int,
            ) <= MAX_DELAY_FRAMES,
            ok ==> final(self).history() == Seq::<Frame>::empty() && final(self).capacity()
                == frames_for(sample_rate as int, max_delay_ms as int),
            !ok ==> *final(self) == *old(self),
    {
        if input_channels != 2 {
            return false;
        }
        match DelayLine::for_rate(sample_rate, max_delay_ms) {
            Some(line) => {
                self.line = line;
                true
            },
            None => false,
        }
    }

    /// Rewrites `buffer` according to `params`: one transform, chosen by the
    /// mode, or none where the mode is passthrough or `params.enabled` is false.
    pub fn process(&mut self, buffer: &mut Vec<Frame>, params: &SOCParams)
        requires
            old(self).wf(),
        ensures
            final(self).wf(),
            final(self).capacity() == old(self).capacity(),
            final(buffer)@ == processed(*params, old(self).history(), old(self).capacity(), old(buffer)@),
            final(self).history() == history_after(
                *params,
                old(self).history(),
                old(self).capacity(),
                old(buffer)@,
            ),
    {
        let mode = if params.enabled { params.output_mode } else { OutputMode::LeftRight };
        let ghost b = old(buffer)@;
        let ghost bal = params.balance as int;
        match mode {
            OutputMode::LeftRight => {},
            OutputMode::Left => left_only(buffer),
            OutputMode::LeftLeft => left_left(buffer),
            OutputMode::LeftRightSum => sum_mono(buffer),
            OutputMode::LeftRightDiff => diff_mono(buffer),
            OutputMode::Right => right_only(buffer),
            OutputMode::RightRight => right_right(buffer),
            OutputMode::Crossfeed => crossfeed(buffer, params.cf.level, params.cf.delay, &mut self.line),
            OutputMode::Balance => balance(buffer, params.balance),
        }
        assert(mode != OutputMode::Crossfeed ==> buffer@ =~= routed(mode, bal, b));
    }
}

impl Default for SOC {
    /// A processor whose delay line holds one frame, until `initialize` sizes it.
    fn default() -> (r: Self)
        ensures
            r.wf(),
            r.capacity() == 1,
            r.history() == Seq::<Frame>::empty(),
    {
        SOC { line: DelayLine::new(1) }
    }
}

} // verus!
