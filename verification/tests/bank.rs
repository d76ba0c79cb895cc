//! Several channels side by side.

use tape_delay::bank::DelayBank;
use tape_delay::line::DelayLine;

fn feed(dry: f32, delayed: f32, feedback: f32) -> f32 {
    dry + delayed * feedback
}

fn blend(dry: f32, delayed: f32, mix: f32) -> f32 {
    dry * (1.0 - mix) + delayed * mix
}

fn stored(line: &DelayLine<f32>) -> Vec<f32> {
    (0..line.len()).map(|slot| line.sample(slot)).collect()
}

#[test]
fn new_bank_has_unconfigured_lines() {
    let bank: DelayBank<f32> = DelayBank::new(2);
    assert_eq!(bank.channels(), 2);
    assert!(!bank.is_configured());
    assert_eq!(bank.line(0).len(), 0);
    assert_eq!(bank.line(1).len(), 0);
}

#[test]
fn bank_without_channels_is_not_configured() {
    let mut bank: DelayBank<f32> = DelayBank::new(0);
    bank.configure(8, 0.0);
    assert_eq!(bank.channels(), 0);
    assert!(!bank.is_configured());
    let mut frame: [f32; 0] = [];
    bank.process_frame(&mut frame, 2, 0.5, 0.5, &feed, &blend);
}

#[test]
fn configure_gives_every_channel_its_own_silent_buffer() {
    let mut bank: DelayBank<f32> = DelayBank::new(3);
    bank.configure(8, 0.0);
    assert!(bank.is_configured());
    assert_eq!(bank.channels(), 3);
    for channel in 0..3 {
        assert_eq!(bank.line(channel).len(), 8);
        assert_eq!(bank.line(channel).write_cursor(), 0);
        assert_eq!(stored(bank.line(channel)), vec![0.0; 8]);
    }
    bank.configure(0, 0.0);
    assert!(!bank.is_configured());
}

#[test]
fn step_on_one_channel_leaves_the_other_alone() {
    let mut bank: DelayBank<f32> = DelayBank::new(2);
    bank.configure(4, 0.0);
    let out = bank.process_sample(1, 1.0, 2, 0.5, 0.5, &feed, &blend);
    assert_eq!(out, 0.5);
    assert_eq!(stored(bank.line(0)), vec![0.0; 4]);
    assert_eq!(bank.line(0).write_cursor(), 0);
    assert_eq!(stored(bank.line(1)), vec![1.0, 0.0, 0.0, 0.0]);
    assert_eq!(bank.line(1).write_cursor(), 1);
}

#[test]
fn channels_do_not_leak_into_each_other() {
    let left_in = [1.0f32, 0.0, 0.0, 0.0, 0.0, 0.0, 0.0, 0.0, 0.0, 0.0];
    let right_in = [0.0f32, 0.0, 0.0, -2.0, 0.5, 0.0, 0.0, 0.25, 0.0, 0.0];

    let mut bank: DelayBank<f32> = DelayBank::new(2);
    bank.configure(8, 0.0);
    let mut left_alone: DelayLine<f32> = DelayLine::new();
    left_alone.configure(8, 0.0);
    let mut right_alone: DelayLine<f32> = DelayLine::new();
    right_alone.configure(8, 0.0);

    for step in 0..left_in.len() {
        let mut frame = [left_in[step], right_in[step]];
        bank.process_frame(&mut frame, 2, 0.5, 0.5, &feed, &blend);
        let left = left_alone.process_sample(left_in[step], 2, 0.5, 0.5, &feed, &blend);
        let right = right_alone.process_sample(right_in[step], 2, 0.5, 0.5, &feed, &blend);
        assert_eq!(frame, [left, right]);
        assert_eq!(stored(bank.line(0)), stored(&left_alone));
        assert_eq!(stored(bank.line(1)), stored(&right_alone));
    }
}

#[test]
fn silent_channel_stays_silent_beside_a_loud_one() {
    let mut bank: DelayBank<f32> = DelayBank::new(2);
    bank.configure(8, 0.0);
    for step in 0..40 {
        let mut frame = [1.0 + step as f32, 0.0];
        bank.process_frame(&mut frame, 3, 0.95, 1.0, &feed, &blend);
        assert_eq!(frame[1], 0.0);
        assert_eq!(stored(bank.line(1)), vec![0.0; 8]);
    }
}

#[test]
fn stereo_impulse_gives_the_golden_trace_on_both_channels() {
    let mut bank: DelayBank<f32> = DelayBank::new(2);
    bank.configure(8, 0.0);
    let golden = [0.5f32, 0.0, 0.5, 0.0, 0.25, 0.0, 0.125, 0.0, 0.0625];
    for (step, &expected) in golden.iter().enumerate() {
        let input = if step == 0 { 1.0 } else { 0.0 };
        let mut frame = [input, input];
        bank.process_frame(&mut frame, 2, 0.5, 0.5, &feed, &blend);
        assert_eq!(frame, [expected, expected]);
    }
}

#[test]
fn frame_cursor_moves_once_per_frame_on_every_channel() {
    let mut bank: DelayBank<f32> = DelayBank::new(3);
    bank.configure(4, 0.0);
    for step in 0..9usize {
        for channel in 0..3 {
            assert_eq!(bank.line(channel).write_cursor(), step % 4);
        }
        let mut frame = [0.0f32, 1.0, 2.0];
        bank.process_frame(&mut frame, 1, 0.0, 0.0, &feed, &blend);
    }
}

#[test]
fn default_bank_has_no_channels() {
    let bank: DelayBank<f32> = DelayBank::default();
    assert_eq!(bank.channels(), 0);
    assert!(!bank.is_configured());
}

#[test]
fn host_style_loop_over_planar_channels() {
    // Two channels of a host buffer, processed frame by frame through a
    // scratch frame, with the delay given in seconds.
    let sample_rate = 4.0f32;
    let mut channels = vec![vec![1.0f32, 0.0, 0.0, 0.0, 0.0], vec![0.0f32, 2.0, 0.0, 0.0, 0.0]];
    let mut bank: DelayBank<f32> = DelayBank::default();
    assert_eq!(bank.channels(), 0);
    bank = DelayBank::new(channels.len());
    bank.configure((sample_rate * 2.0) as usize, 0.0);
    assert!(bank.is_configured());
    let mut frame: Vec<f32> = Vec::with_capacity(channels.len());
    for at in 0..5 {
        let delay_samples = (0.5 * sample_rate) as usize;
        frame.clear();
        for channel in channels.iter() {
            frame.push(channel[at]);
        }
        assert_eq!(frame.len(), bank.channels());
        bank.process_frame(&mut frame, delay_samples, 0.5, 0.5, &feed, &blend);
        for (channel, output) in channels.iter_mut().zip(frame.iter()) {
            channel[at] = *output;
        }
    }
    assert_eq!(channels[0], vec![0.5, 0.0, 0.5, 0.0, 0.25]);
    assert_eq!(channels[1], vec![0.0, 1.0, 0.0, 1.0, 0.0]);
}
