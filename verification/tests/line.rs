//! The delay line on its own: buffer, cursor and index arithmetic.

use tape_delay::line::DelayLine;

fn keep(dry: i64, _delayed: i64, _feedback: i64) -> i64 {
    dry
}

fn wet(_dry: i64, delayed: i64, _mix: i64) -> i64 {
    delayed
}

fn feed_percent(dry: i64, delayed: i64, feedback: i64) -> i64 {
    dry + delayed * feedback / 100
}

fn blend_percent(dry: i64, delayed: i64, mix: i64) -> i64 {
    (dry * (100 - mix) + delayed * mix) / 100
}

fn configured(length: usize) -> DelayLine<i64> {
    let mut line = DelayLine::new();
    line.configure(length, 0);
    line
}

fn stored(line: &DelayLine<i64>) -> Vec<i64> {
    (0..line.len()).map(|slot| line.sample(slot)).collect()
}

#[test]
fn new_line_has_no_buffer() {
    let line: DelayLine<i64> = DelayLine::new();
    assert_eq!(line.len(), 0);
    assert_eq!(line.write_cursor(), 0);
    assert!(!line.is_configured());
}

#[test]
fn configure_fills_with_silence_and_resets_the_cursor() {
    let mut line: DelayLine<i64> = DelayLine::new();
    line.configure(5, -1);
    assert!(line.is_configured());
    assert_eq!(line.len(), 5);
    assert_eq!(line.write_cursor(), 0);
    assert_eq!(stored(&line), vec![-1, -1, -1, -1, -1]);
}

#[test]
fn configure_again_drops_history() {
    let mut line = configured(4);
    for value in 1..=6 {
        line.write(value);
    }
    assert_eq!(stored(&line), vec![5, 6, 3, 4]);
    assert_eq!(line.write_cursor(), 2);
    line.configure(3, 0);
    assert_eq!(stored(&line), vec![0, 0, 0]);
    assert_eq!(line.write_cursor(), 0);
    assert_eq!(line.len(), 3);
}

#[test]
fn configure_with_no_slots_leaves_the_line_unconfigured() {
    let mut line = configured(4);
    line.configure(0, 0);
    assert!(!line.is_configured());
    assert_eq!(line.len(), 0);
    assert_eq!(line.write_cursor(), 0);
}

#[test]
fn write_stores_under_the_cursor_and_wraps() {
    let mut line = configured(3);
    line.write(10);
    assert_eq!(stored(&line), vec![10, 0, 0]);
    assert_eq!(line.write_cursor(), 1);
    line.write(20);
    assert_eq!(line.write_cursor(), 2);
    line.write(30);
    assert_eq!(stored(&line), vec![10, 20, 30]);
    assert_eq!(line.write_cursor(), 0);
    line.write(40);
    assert_eq!(stored(&line), vec![40, 20, 30]);
    assert_eq!(line.write_cursor(), 1);
}

#[test]
fn single_slot_line_keeps_the_cursor_on_slot_zero() {
    let mut line = configured(1);
    assert_eq!(line.clamp_delay(0), 0);
    assert_eq!(line.clamp_delay(9), 0);
    assert_eq!(line.read_index(9), 0);
    for value in 1..=4 {
        assert_eq!(line.tap(3), value - 1);
        line.write(value);
        assert_eq!(line.write_cursor(), 0);
    }
}

#[test]
fn clamp_delay_keeps_short_delays_and_caps_long_ones() {
    let line = configured(8);
    assert_eq!(line.clamp_delay(0), 0);
    assert_eq!(line.clamp_delay(1), 1);
    assert_eq!(line.clamp_delay(7), 7);
    assert_eq!(line.clamp_delay(8), 7);
    assert_eq!(line.clamp_delay(9), 7);
    assert_eq!(line.clamp_delay(usize::MAX), 7);
}

#[test]
fn read_index_is_delay_slots_behind_the_cursor() {
    let mut line = configured(8);
    assert_eq!(line.read_index(0), 0);
    assert_eq!(line.read_index(1), 7);
    assert_eq!(line.read_index(2), 6);
    assert_eq!(line.read_index(7), 1);
    assert_eq!(line.read_index(8), 1);
    for value in 0..5 {
        line.write(value);
    }
    assert_eq!(line.write_cursor(), 5);
    assert_eq!(line.read_index(0), 5);
    assert_eq!(line.read_index(2), 3);
    assert_eq!(line.read_index(5), 0);
    assert_eq!(line.read_index(6), 7);
    assert_eq!(line.read_index(7), 6);
    assert_eq!(line.read_index(usize::MAX), 6);
}

#[test]
fn longest_delay_reads_the_slot_after_the_cursor_over_full_cycles() {
    let mut line = configured(8);
    for step in 0..24usize {
        assert_eq!(line.write_cursor(), step % 8);
        let cursor = line.write_cursor();
        assert_eq!(line.read_index(7), (cursor + 1) % 8);
        assert_eq!(line.read_index(8), (cursor + 1) % 8);
        let out = line.process_sample(step as i64 + 100, 7, 0, 0, &keep, &wet);
        let expected = if step >= 7 { step as i64 - 7 + 100 } else { 0 };
        assert_eq!(out, expected);
    }
}

#[test]
fn cursor_returns_after_one_full_cycle() {
    let mut line = configured(5);
    line.write(1);
    line.write(2);
    let start = line.write_cursor();
    for value in 0..5 {
        line.write(value);
    }
    assert_eq!(line.write_cursor(), start);
}

#[test]
fn tap_reads_what_was_written_so_many_steps_ago() {
    let mut line = configured(4);
    for value in 1..=10 {
        line.write(value);
    }
    assert_eq!(line.tap(1), 10);
    assert_eq!(line.tap(2), 9);
    assert_eq!(line.tap(3), 8);
    // A delay of zero reads the slot that the next step overwrites: the
    // oldest sample, four steps back.
    assert_eq!(line.tap(0), 7);
    // Longer requests read as the longest delay does.
    assert_eq!(line.tap(4), 8);
    assert_eq!(line.tap(100), 8);
}

#[test]
fn tap_leaves_the_line_unchanged() {
    let mut line = configured(4);
    line.write(5);
    line.write(6);
    let before = stored(&line);
    let _ = line.tap(1);
    let _ = line.tap(0);
    assert_eq!(stored(&line), before);
    assert_eq!(line.write_cursor(), 2);
}

#[test]
fn sample_reads_a_slot_by_its_index() {
    let mut line = configured(3);
    line.write(7);
    line.write(8);
    assert_eq!(line.sample(0), 7);
    assert_eq!(line.sample(1), 8);
    assert_eq!(line.sample(2), 0);
}

#[test]
fn process_sample_reads_then_writes_then_advances() {
    let mut line = configured(4);
    line.write(40);
    line.write(80);
    // cursor 2, delay 1 reads slot 1
    let out = line.process_sample(10, 1, 50, 25, &feed_percent, &blend_percent);
    assert_eq!(out, (10 * 75 + 80 * 25) / 100);
    assert_eq!(stored(&line), vec![40, 80, 10 + 40, 0]);
    assert_eq!(line.write_cursor(), 3);
}

#[test]
fn process_sample_changes_one_slot_only() {
    let mut line = configured(6);
    for value in 1..=6 {
        line.write(value * 11);
    }
    let before = stored(&line);
    let cursor = line.write_cursor();
    line.process_sample(1000, 3, 0, 0, &keep, &wet);
    let after = stored(&line);
    for slot in 0..6 {
        if slot == cursor {
            assert_eq!(after[slot], 1000);
        } else {
            assert_eq!(after[slot], before[slot]);
        }
    }
}

#[test]
fn process_sample_takes_a_closure_that_captures() {
    let gain = 3i64;
    let feed = move |dry: i64, delayed: i64, feedback: i64| dry + gain * delayed * feedback;
    let mut line = configured(2);
    line.write(5);
    assert_eq!(line.process_sample(1, 1, 2, 0, &feed, &wet), 5);
    assert_eq!(line.sample(1), 1 + 3 * 5 * 2);
}

#[test]
fn process_block_runs_the_samples_in_order() {
    let mut line = configured(4);
    let mut block = [1i64, 2, 3, 4, 5, 6];
    line.process_block(&mut block, 2, 100, 0, &feed_percent, &wet);
    // stored: 1, 2, 3+1, 4+2, 5+4, 6+6; output: the sample stored two steps before
    assert_eq!(block, [0, 0, 1, 2, 4, 6]);
    assert_eq!(stored(&line), vec![9, 12, 4, 6]);
    assert_eq!(line.write_cursor(), 2);
}

#[test]
fn process_block_of_nothing_changes_nothing() {
    let mut line = configured(3);
    line.write(1);
    let mut block: [i64; 0] = [];
    line.process_block(&mut block, 1, 0, 0, &keep, &wet);
    assert_eq!(stored(&line), vec![1, 0, 0]);
    assert_eq!(line.write_cursor(), 1);
}

#[test]
fn process_block_longer_than_the_buffer_wraps() {
    let mut line = configured(3);
    let mut block = [1i64, 2, 3, 4, 5, 6, 7];
    line.process_block(&mut block, 0, 0, 0, &keep, &wet);
    assert_eq!(block, [0, 0, 0, 1, 2, 3, 4]);
    assert_eq!(stored(&line), vec![7, 5, 6]);
    assert_eq!(line.write_cursor(), 1);
}

#[test]
fn default_line_is_a_new_line() {
    let line: DelayLine<i64> = DelayLine::default();
    assert_eq!(line.len(), 0);
    assert_eq!(line.write_cursor(), 0);
    assert!(!line.is_configured());
}
