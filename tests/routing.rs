use stereo_output_controller::delay::DelayLine;
use stereo_output_controller::frame::Frame;
use stereo_output_controller::proc::{
    balance, crossfeed, diff_mono, left_left, left_only, right_only, right_right, sum_mono,
};
use stereo_output_controller::sample::{MAX_GAIN, UNITY};
use stereo_output_controller::{CrossFeed, OutputMode, SOCParams, SOC};

const HALF: i32 = UNITY / 2;

fn block(pairs: &[(i32, i32)]) -> Vec<Frame> {
    pairs.iter().map(|&(l, r)| Frame::new(l, r)).collect()
}

fn params(mode: OutputMode) -> SOCParams {
    SOCParams {
        output_mode: mode,
        enabled: true,
        balance: 0,
        cf: CrossFeed { level: 0, delay: 0 },
    }
}

fn scenario() -> Vec<Frame> {
    block(&[(UNITY, 0), (0, UNITY), (UNITY, UNITY), (-UNITY, UNITY)])
}

const ALL_MODES: [OutputMode; 9] = [
    OutputMode::LeftRight,
    OutputMode::Left,
    OutputMode::LeftLeft,
    OutputMode::LeftRightSum,
    OutputMode::LeftRightDiff,
    OutputMode::RightRight,
    OutputMode::Right,
    OutputMode::Crossfeed,
    OutputMode::Balance,
];

#[test]
fn sum_mode_scenario() {
    let mut soc = SOC::default();
    let mut b = scenario();
    soc.process(&mut b, &params(OutputMode::LeftRightSum));
    assert_eq!(b, block(&[(HALF, HALF), (HALF, HALF), (UNITY, UNITY), (0, 0)]));
}

#[test]
fn diff_mode_scenario() {
    let mut soc = SOC::default();
    let mut b = scenario();
    soc.process(&mut b, &params(OutputMode::LeftRightDiff));
    assert_eq!(b, block(&[(UNITY, UNITY), (-UNITY, -UNITY), (0, 0), (-2 * UNITY, -2 * UNITY)]));
}

#[test]
fn sum_mono_averages_channels() {
    let mut b = block(&[(3, 7), (-3, 0), (i32::MAX, i32::MAX), (i32::MIN, i32::MIN)]);
    sum_mono(&mut b);
    assert_eq!(b, block(&[(5, 5), (-1, -1), (i32::MAX, i32::MAX), (i32::MIN, i32::MIN)]));
}

#[test]
fn diff_mono_subtracts_and_cancels_equal_channels() {
    let mut b = block(&[(10, 4), (4, 10), (123, 123)]);
    diff_mono(&mut b);
    assert_eq!(b, block(&[(6, 6), (-6, -6), (0, 0)]));
}

#[test]
fn diff_mono_saturates() {
    let mut b = block(&[(i32::MAX, -1), (i32::MIN, 1)]);
    diff_mono(&mut b);
    assert_eq!(b, block(&[(i32::MAX, i32::MAX), (i32::MIN, i32::MIN)]));
}

#[test]
fn left_left_copies_left() {
    let mut b = block(&[(1, 2), (-5, 9)]);
    left_left(&mut b);
    assert_eq!(b, block(&[(1, 1), (-5, -5)]));
}

#[test]
fn right_right_copies_right() {
    let mut b = block(&[(1, 2), (-5, 9)]);
    right_right(&mut b);
    assert_eq!(b, block(&[(2, 2), (9, 9)]));
}

#[test]
fn left_only_silences_right() {
    let mut b = block(&[(1, 2), (-5, 9)]);
    left_only(&mut b);
    assert_eq!(b, block(&[(1, 0), (-5, 0)]));
}

#[test]
fn right_only_silences_left() {
    let mut b = block(&[(1, 2), (-5, 9)]);
    right_only(&mut b);
    assert_eq!(b, block(&[(0, 2), (0, 9)]));
}

#[test]
fn balance_zero_is_identity() {
    let mut b = scenario();
    balance(&mut b, 0);
    assert_eq!(b, scenario());
}

#[test]
fn balance_positive_quarter_scales_right() {
    let mut b = block(&[(UNITY, UNITY), (-UNITY, 400), (7, -7)]);
    balance(&mut b, MAX_GAIN);
    assert_eq!(b, block(&[(UNITY, 3 * UNITY / 4), (-UNITY, 300), (7, -5)]));
}

#[test]
fn balance_negative_quarter_scales_left() {
    let mut b = block(&[(UNITY, UNITY), (400, -UNITY), (-7, 7)]);
    balance(&mut b, -MAX_GAIN);
    assert_eq!(b, block(&[(3 * UNITY / 4, UNITY), (300, -UNITY), (-5, 7)]));
}

#[test]
fn balance_amount_is_clamped() {
    let mut b = block(&[(UNITY, UNITY)]);
    balance(&mut b, UNITY);
    assert_eq!(b, block(&[(UNITY, 3 * UNITY / 4)]));
    let mut c = block(&[(UNITY, UNITY)]);
    balance(&mut c, i32::MIN);
    assert_eq!(c, block(&[(3 * UNITY / 4, UNITY)]));
}

#[test]
fn balance_small_amount() {
    // An eighth: the right channel keeps seven eighths.
    let mut b = block(&[(UNITY, UNITY)]);
    balance(&mut b, UNITY / 8);
    assert_eq!(b, block(&[(UNITY, 7 * UNITY / 8)]));
}

#[test]
fn passthrough_leaves_block_unchanged() {
    let mut soc = SOC::default();
    let mut b = scenario();
    soc.process(&mut b, &params(OutputMode::LeftRight));
    assert_eq!(b, scenario());
}

#[test]
fn disabled_leaves_block_unchanged_in_every_mode() {
    let mut soc = SOC::default();
    assert!(soc.initialize(2, 48000, 10));
    for mode in ALL_MODES {
        let mut p = params(mode);
        p.enabled = false;
        p.balance = MAX_GAIN;
        p.cf = CrossFeed { level: MAX_GAIN, delay: 0 };
        let mut b = scenario();
        soc.process(&mut b, &p);
        assert_eq!(b, scenario());
    }
}

#[test]
fn empty_block_in_every_mode() {
    let mut soc = SOC::default();
    assert!(soc.initialize(2, 48000, 10));
    for mode in ALL_MODES {
        let mut p = params(mode);
        p.balance = -MAX_GAIN;
        p.cf = CrossFeed { level: MAX_GAIN, delay: 3 };
        let mut b: Vec<Frame> = Vec::new();
        soc.process(&mut b, &p);
        assert!(b.is_empty());
    }
}

#[test]
fn process_dispatches_each_mode() {
    let mut soc = SOC::default();
    let cases: [(OutputMode, (i32, i32)); 7] = [
        (OutputMode::Left, (8, 0)),
        (OutputMode::LeftLeft, (8, 8)),
        (OutputMode::LeftRightSum, (5, 5)),
        (OutputMode::LeftRightDiff, (6, 6)),
        (OutputMode::RightRight, (2, 2)),
        (OutputMode::Right, (0, 2)),
        (OutputMode::Balance, (8, 2)),
    ];
    for (mode, out) in cases {
        let mut b = block(&[(8, 2)]);
        soc.process(&mut b, &params(mode));
        assert_eq!(b, block(&[out]));
    }
    let mut p = params(OutputMode::Balance);
    p.balance = MAX_GAIN;
    let mut b = block(&[(8, 4)]);
    soc.process(&mut b, &p);
    assert_eq!(b, block(&[(8, 3)]));
}

#[test]
fn delay_line_reads_previous_frame() {
    let mut line = DelayLine::new(4);
    let fs = block(&[(1, 2), (3, 4), (5, 6)]);
    for f in &fs {
        line.write(*f);
    }
    line.write(Frame::new(7, 8));
    assert_eq!(line.read(0), Frame::new(7, 8));
    assert_eq!(line.read(1), Frame::new(5, 6));
    assert_eq!(line.read(3), Frame::new(1, 2));
}

#[test]
fn delay_line_reads_silence_before_start() {
    let mut line = DelayLine::new(8);
    line.write(Frame::new(1, 2));
    line.write(Frame::new(3, 4));
    assert_eq!(line.read(2), Frame::new(0, 0));
    assert_eq!(line.read(5), Frame::new(0, 0));
    assert_eq!(line.read(100), Frame::new(0, 0));
}

#[test]
fn delay_line_drops_oldest_when_full() {
    let mut line = DelayLine::new(2);
    line.write(Frame::new(1, 1));
    line.write(Frame::new(2, 2));
    line.write(Frame::new(3, 3));
    assert_eq!(line.len_max(), 2);
    assert_eq!(line.read(0), Frame::new(3, 3));
    assert_eq!(line.read(1), Frame::new(2, 2));
    assert_eq!(line.read(2), Frame::new(0, 0));
}

#[test]
fn delay_line_for_rate() {
    let line = DelayLine::for_rate(48000, 10).unwrap();
    assert_eq!(line.len_max(), 481);
    assert!(DelayLine::for_rate(0, 10).is_none());
    assert!(DelayLine::for_rate(48000, 1_000_000).is_none());
}

#[test]
fn crossfeed_level_zero_leaves_block() {
    for delay in [0usize, 1, 5, 1000] {
        let mut line = DelayLine::new(8);
        let mut b = scenario();
        crossfeed(&mut b, 0, delay, &mut line);
        assert_eq!(b, scenario());
    }
}

#[test]
fn crossfeed_mixes_delayed_opposite_channel() {
    let mut line = DelayLine::new(4);
    let mut b = block(&[(UNITY, 0), (0, UNITY), (0, 0), (0, 0)]);
    // Delay 0: each frame takes in the frame just before it.
    crossfeed(&mut b, MAX_GAIN, 0, &mut line);
    let q = UNITY / 4;
    assert_eq!(b, block(&[(UNITY, 0), (0, UNITY + q), (q, 0), (0, 0)]));
    // The line now holds the frames as they came in.
    assert_eq!(line.read(0), Frame::new(0, 0));
    assert_eq!(line.read(2), Frame::new(0, UNITY));
    assert_eq!(line.read(3), Frame::new(UNITY, 0));
}

#[test]
fn crossfeed_history_carries_across_blocks() {
    let mut line = DelayLine::new(4);
    let mut first = block(&[(0, 8), (0, 0)]);
    crossfeed(&mut first, MAX_GAIN, 1, &mut line);
    assert_eq!(first, block(&[(0, 8), (0, 0)]));
    let mut second = block(&[(0, 0)]);
    crossfeed(&mut second, MAX_GAIN, 1, &mut line);
    assert_eq!(second, block(&[(2, 0)]));
}

#[test]
fn crossfeed_delay_is_held_to_capacity() {
    let mut line = DelayLine::new(2);
    let mut b = block(&[(0, 8), (0, 0), (0, 0)]);
    crossfeed(&mut b, -MAX_GAIN, 50, &mut line);
    assert_eq!(b, block(&[(0, 8), (0, 0), (-2, 0)]));
}

#[test]
fn crossfeed_saturates() {
    let mut line = DelayLine::new(2);
    let mut b = block(&[(0, i32::MAX), (i32::MAX, 0)]);
    crossfeed(&mut b, MAX_GAIN, 0, &mut line);
    assert_eq!(b, block(&[(0, i32::MAX), (i32::MAX, 0)]));
}

#[test]
fn process_crossfeed_uses_line() {
    let mut soc = SOC::default();
    assert!(soc.initialize(2, 1000, 2));
    let mut p = params(OutputMode::Crossfeed);
    p.cf = CrossFeed { level: MAX_GAIN + 100, delay: 1 };
    let mut b = block(&[(4, 0), (0, 0), (0, 0)]);
    soc.process(&mut b, &p);
    assert_eq!(b, block(&[(4, 0), (0, 0), (0, 1)]));
}

#[test]
fn initialize_checks_layout_and_rate() {
    let mut soc = SOC::default();
    assert!(!soc.initialize(1, 48000, 10));
    assert!(!soc.initialize(2, 0, 10));
    assert!(!soc.initialize(2, 48000, 100_000));
    assert!(soc.initialize(2, 44100, 20));
}

#[test]
fn defaults() {
    let p = SOCParams::default();
    assert_eq!(p.output_mode, OutputMode::LeftRightSum);
    assert!(p.enabled);
    assert_eq!(p.balance, 0);
    assert_eq!(p.cf, CrossFeed { level: MAX_GAIN, delay: 288 });
}
