//! What holds of every delay line, proved over the mathematical model.

use vstd::prelude::*;
use vstd::arithmetic::div_mod::{
    lemma_add_mod_noop, lemma_mod_add_multiples_vanish, lemma_small_mod,
};
use crate::state::LineState;

verus! {

/// An index that has run at most once past the end comes back by one length.
pub proof fn lemma_wrap_once(x: int, n: int)
    requires
        0 < n,
        0 <= x < 2 * n,
    ensures
        x % n == if x < n {
            x
        } else {
            x - n
        },
{
    if x < n {
        lemma_small_mod(x as nat, n as nat);
    } else {
        lemma_mod_add_multiples_vanish(x - n, n);
        lemma_small_mod((x - n) as nat, n as nat);
    }
}

/// A step keeps the number of slots and leaves the cursor on a slot: one
/// further than before, or on slot 0 after the last slot.
pub proof fn lemma_step_keeps_shape<S>(line: LineState<S>, written: S)
    requires
        line.wf(),
        line.configured(),
    ensures
        line.step(written).wf(),
        line.step(written).len() == line.len(),
        line.step(written).cursor == if line.cursor + 1 < line.len() {
            line.cursor + 1
        } else {
            0
        },
{
    lemma_wrap_once(line.cursor + 1, line.len());
}

/// The slot read is always a slot of the buffer, and never further behind
/// the cursor than the buffer is long.
pub proof fn lemma_read_index_in_range<S>(line: LineState<S>, requested: int)
    requires
        line.wf(),
        line.configured(),
    ensures
        0 <= line.read_index(requested) < line.len(),
        0 <= line.effective_delay(requested) < line.len(),
        line.read_index(requested) == if line.effective_delay(requested) <= line.cursor {
            line.cursor - line.effective_delay(requested)
        } else {
            line.cursor + line.len() - line.effective_delay(requested)
        },
{
    lemma_wrap_once(
        line.cursor + line.len() - line.effective_delay(requested),
        line.len(),
    );
}

/// Right after a step, the newest stored sample is the one that the step
/// stored.
pub proof fn lemma_step_stores_newest<S>(line: LineState<S>, written: S)
    requires
        line.wf(),
        line.configured(),
    ensures
        line.step(written).newest() == written,
{
    let n = line.len();
    lemma_step_keeps_shape(line, written);
    lemma_wrap_once(line.step(written).cursor + n - 1, n);
}

/// A step makes every stored sample one step older; only the oldest one is
/// lost.
pub proof fn lemma_step_ages_history<S>(line: LineState<S>, written: S, k: int)
    requires
        line.wf(),
        line.configured(),
        1 <= k < line.len(),
    ensures
        line.step(written).ago(k + 1) == line.ago(k),
{
    let n = line.len();
    lemma_step_keeps_shape(line, written);
    lemma_wrap_once(line.step(written).cursor + n - (k + 1), n);
    lemma_wrap_once(line.cursor + n - k, n);
}

/// The delayed sample is the one stored `lookback` steps ago: as many steps
/// as the delay says, and a whole buffer length for a delay of zero, since
/// the read comes before the write.
pub proof fn lemma_tap_reads_history<S>(line: LineState<S>, requested: int)
    requires
        line.wf(),
        line.configured(),
    ensures
        1 <= line.lookback(requested) <= line.len(),
        line.tap(requested) == line.ago(line.lookback(requested)),
{
    let n = line.len();
    lemma_read_index_in_range(line, requested);
    lemma_wrap_once(line.cursor + n - line.lookback(requested), n);
}

/// With the longest delay that the buffer can give, the slot read is the
/// one right after the write cursor, going round the end of the buffer.
pub proof fn lemma_longest_delay_reads_next_slot<S>(line: LineState<S>, requested: int)
    requires
        line.wf(),
        line.configured(),
        requested >= line.len() - 1,
    ensures
        line.read_index(requested) == (line.cursor + 1) % line.len(),
{
    lemma_read_index_in_range(line, requested);
    lemma_wrap_once(line.cursor + 1, line.len());
}

/// A run of steps keeps the number of slots and moves the cursor on by the
/// number of steps, going round the end of the buffer.
pub proof fn lemma_run_keeps_shape<S>(line: LineState<S>, writes: Seq<S>)
    requires
        line.wf(),
        line.configured(),
    ensures
        line.run(writes).wf(),
        line.run(writes).len() == line.len(),
        line.run(writes).cursor == (line.cursor + writes.len()) % line.len(),
    decreases writes.len(),
{
    let n = line.len();
    if writes.len() == 0 {
        lemma_small_mod(line.cursor as nat, n as nat);
    } else {
        let before = line.run(writes.drop_last());
        lemma_run_keeps_shape(line, writes.drop_last());
        lemma_step_keeps_shape(before, writes.last());
        lemma_add_mod_noop(line.cursor + writes.len() - 1, 1, n);
        if n == 1 {
        } else {
            lemma_small_mod(1, n as nat);
            lemma_wrap_once(before.cursor + 1, n);
        }
    }
}

/// After one full round of the buffer the cursor is back where it started.
pub proof fn lemma_full_cycle_returns_cursor<S>(line: LineState<S>, writes: Seq<S>)
    requires
        line.wf(),
        line.configured(),
        writes.len() == line.len(),
    ensures
        line.run(writes).cursor == line.cursor,
{
    lemma_run_keeps_shape(line, writes);
    lemma_wrap_once(line.cursor + line.len(), line.len());
}

/// With the longest delay, the slot read is the one right after the write
/// cursor before every step of a run, and after its last step.
pub proof fn lemma_longest_delay_reads_next_slot_throughout<S>(
    line: LineState<S>,
    writes: Seq<S>,
    requested: int,
)
    requires
        line.wf(),
        line.configured(),
        requested >= line.len() - 1,
    ensures
        forall|i: int|
            0 <= i <= writes.len() ==> (#[trigger] line.run(writes.take(i))).read_index(requested)
                == (line.run(writes.take(i)).cursor + 1) % line.len(),
{
    assert forall|i: int| 0 <= i <= writes.len() implies (#[trigger] line.run(
        writes.take(i),
    )).read_index(requested) == (line.run(writes.take(i)).cursor + 1) % line.len() by {
        lemma_run_keeps_shape(line, writes.take(i));
        lemma_longest_delay_reads_next_slot(line.run(writes.take(i)), requested);
    }
}

/// After a run, the sample stored `k` steps ago is the `k`-th last of the
/// run; further back than the run is long, it is what the line held before
/// the run, so many steps older.
pub proof fn lemma_run_history<S>(line: LineState<S>, writes: Seq<S>, k: int)
    requires
        line.wf(),
        line.configured(),
        1 <= k <= line.len(),
    ensures
        line.run(writes).ago(k) == if k <= writes.len() {
            writes[writes.len() - k]
        } else {
            line.ago(k - writes.len())
        },
    decreases writes.len(),
{
    if writes.len() > 0 {
        let before = line.run(writes.drop_last());
        lemma_run_keeps_shape(line, writes.drop_last());
        if k == 1 {
            lemma_step_stores_newest(before, writes.last());
        } else {
            lemma_step_ages_history(before, writes.last(), k - 1);
            lemma_run_history(line, writes.drop_last(), k - 1);
        }
    }
}

/// After a run, the delayed sample is the one that the run stored `lookback`
/// steps before its end; after a run shorter than that, it is what the line
/// held before the run.
pub proof fn lemma_run_tap<S>(line: LineState<S>, writes: Seq<S>, requested: int)
    requires
        line.wf(),
        line.configured(),
    ensures
        line.run(writes).tap(requested) == if writes.len() >= line.lookback(requested) {
            writes[writes.len() - line.lookback(requested)]
        } else {
            line.ago(line.lookback(requested) - writes.len())
        },
{
    lemma_run_keeps_shape(line, writes);
    lemma_tap_reads_history(line.run(writes), requested);
    lemma_tap_reads_history(line, requested);
    lemma_run_history(line, writes, line.lookback(requested));
}

/// With a delay of zero, after a run of at least one round, the delayed
/// sample is the one stored exactly one buffer length before: where every
/// step stores its input unchanged, it is the input of one round earlier.
pub proof fn lemma_zero_delay_taps_one_round_back<S>(line: LineState<S>, writes: Seq<S>)
    requires
        line.wf(),
        line.configured(),
        writes.len() >= line.len(),
    ensures
        line.run(writes).tap(0) == writes[writes.len() - line.len()],
{
    lemma_run_tap(line, writes, 0);
}

} // verus!
