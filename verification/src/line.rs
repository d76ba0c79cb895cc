//! The executable delay line.

use vstd::prelude::*;
use crate::exact::{
    block_follows_effect, lemma_block_follows_effect, lemma_step_follows_effect,
    step_follows_effect,
};
use crate::laws::{lemma_read_index_in_range, lemma_step_keeps_shape, lemma_step_stores_newest};
use crate::state::{block_trace, step_trace, LineState};

verus! {

/// One channel's delay line: a circular buffer of samples and a write cursor.
pub struct DelayLine<S> {
    samples: Vec<S>,
    write_cursor: usize,
}

impl<S> View for DelayLine<S> {
    type V = LineState<S>;

    closed spec fn view(&self) -> LineState<S> {
        LineState { samples: self.samples@, cursor: self.write_cursor as int }
    }
}

impl<S> DelayLine<S> {
    #[verifier::type_invariant]
    pub(crate) open spec fn inv(self) -> bool {
        self@.wf()
    }
}

impl<S: Copy> Default for DelayLine<S> {
    /// A line without a buffer, as `new` gives it.
    fn default() -> (line: Self)
        ensures
            line@ == (LineState::<S> { samples: Seq::empty(), cursor: 0 }),
    {
        DelayLine::new()
    }
}

impl<S: Copy> DelayLine<S> {
    /// A line without a buffer. It has to be configured before it can step.
    pub fn new() -> (line: Self)
        ensures
            line@ == (LineState::<S> { samples: Seq::empty(), cursor: 0 }),
            line@.wf(),
            !line@.configured(),
    {
        DelayLine { samples: Vec::new(), write_cursor: 0 }
    }

    /// Gives the line a buffer of `length` slots, each holding `silence`, and
    /// puts the write cursor on slot 0. Whatever the line held is dropped.
    pub fn configure(&mut self, length: usize, silence: S)
        ensures
            final(self)@ == LineState::silent(length as nat, silence),
            final(self)@.wf(),
            final(self)@.configured() <==> length > 0,
    {
        let mut samples: Vec<S> = Vec::with_capacity(length);
        let mut filled: usize = 0;
        while filled < length
            invariant
                filled <= length,
                samples@.len() == filled,
                forall|i: int| 0 <= i < filled ==> samples@[i] == silence,
            decreases length - filled,
        {
            samples.push(silence);
            filled = filled + 1;
        }
        *self = DelayLine { samples, write_cursor: 0 };
    }

    /// The number of slots of the buffer.
    pub fn len(&self) -> (n: usize)
        ensures
            n == self@.len(),
            self@.wf(),
    {
        proof {
            use_type_invariant(self);
        }
        self.samples.len()
    }

    /// Whether the line has a buffer to step on.
    pub fn is_configured(&self) -> (yes: bool)
        ensures
            yes == self@.configured(),
            self@.wf(),
    {
        proof {
            use_type_invariant(self);
        }
        self.samples.len() > 0
    }

    /// The slot that the next step writes.
    pub fn write_cursor(&self) -> (cursor: usize)
        ensures
            cursor == self@.cursor,
            self@.wf(),
    {
        proof {
            use_type_invariant(self);
        }
        self.write_cursor
    }

    /// The sample that a slot holds.
    pub fn sample(&self, slot: usize) -> (value: S)
        requires
            slot < self@.len(),
        ensures
            value == self@.samples[slot as int],
    {
        self.samples[slot]
    }

    /// Brings a requested delay, in samples, into what the buffer can give:
    /// a request of `len` or more becomes `len - 1`.
    pub fn clamp_delay(&self, requested: usize) -> (delay: usize)
        requires
            self@.configured(),
        ensures
            delay == self@.effective_delay(requested as int),
            delay < self@.len(),
            delay <= requested,
    {
        let n = self.samples.len();
        if requested < n {
            requested
        } else {
            n - 1
        }
    }

    /// The slot that a step with the requested delay reads: `delay` slots
    /// behind the write cursor, going round the end of the buffer.
    pub fn read_index(&self, requested: usize) -> (index: usize)
        requires
            self@.configured(),
        ensures
            index == self@.read_index(requested as int),
            index < self@.len(),
    {
        proof {
            use_type_invariant(self);
        }
        proof {
            lemma_read_index_in_range(self@, requested as int);
        }
        let delay = self.clamp_delay(requested);
        if delay <= self.write_cursor {
            self.write_cursor - delay
        } else {
            self.write_cursor + (self.samples.len() - delay)
        }
    }

    /// The delayed sample that a step with the requested delay reads. The
    /// line is left as it is.
    pub fn tap(&self, requested: usize) -> (delayed: S)
        requires
            self@.configured(),
        ensures
            delayed == self@.tap(requested as int),
    {
        let index = self.read_index(requested);
        self.samples[index]
    }

    /// Stores `value` in the slot under the write cursor and moves the cursor
    /// on by one slot, from the last slot back to slot 0.
    pub fn write(&mut self, value: S)
        requires
            old(self)@.configured(),
        ensures
            final(self)@ == old(self)@.step(value),
            final(self)@.wf(),
            final(self)@.len() == old(self)@.len(),
    {
        proof {
            use_type_invariant(&*self);
        }
        proof {
            lemma_step_keeps_shape(self@, value);
        }
        let n = self.samples.len();
        let at = self.write_cursor;
        let next = if at + 1 < n {
            at + 1
        } else {
            0
        };
        self.samples[at] = value;
        self.write_cursor = next;
    }

    /// One processing step. It reads the delayed sample, stores
    /// `feed(input, delayed, feedback)` under the write cursor, moves the
    /// cursor on and returns `blend(input, delayed, mix)`. Both functions get
    /// the sample that was read before this step stored anything. The mix
    /// has no part in what is stored, nor the feedback in what is returned.
    ///
    /// Where `feed` computes `input + delayed * feedback` and `blend` computes
    /// `input * (1 - mix) + delayed * mix` without rounding, the step is a
    /// step of the effect over exact arithmetic.
    pub fn process_sample<P: Copy, F, G>(
        &mut self,
        input: S,
        delay_samples: usize,
        feedback: P,
        mix: P,
        feed: &F,
        blend: &G,
    ) -> (output: S) where F: Fn(S, S, P) -> S, G: Fn(S, S, P) -> S
        requires
            old(self)@.configured(),
            feed.requires((input, old(self)@.tap(delay_samples as int), feedback)),
            blend.requires((input, old(self)@.tap(delay_samples as int), mix)),
        ensures
            step_trace(
                old(self)@,
                delay_samples as int,
                feedback,
                mix,
                input,
                final(self)@,
                output,
                *feed,
                *blend,
            ),
            step_follows_effect(
                old(self)@,
                delay_samples as int,
                feedback,
                mix,
                input,
                final(self)@,
                output,
                *feed,
                *blend,
            ),
            final(self)@.wf(),
            final(self)@.len() == old(self)@.len(),
    {
        proof {
            use_type_invariant(&*self);
        }
        let delayed = self.tap(delay_samples);
        let stored = feed(input, delayed, feedback);
        let output = blend(input, delayed, mix);
        self.write(stored);
        proof {
            lemma_step_stores_newest(old(self)@, stored);
            lemma_step_follows_effect(
                old(self)@,
                delay_samples as int,
                feedback,
                mix,
                input,
                self@,
                output,
                *feed,
                *blend,
            );
        }
        output
    }

    /// Processes a block of one channel in place, sample by sample in order,
    /// each as `process_sample` does, with one requested delay, one feedback
    /// and one mix for the whole block. Every sample of the block is replaced
    /// by its output.
    ///
    /// Where `feed` and `blend` compute without rounding, the block is a run
    /// of the effect over exact arithmetic.
    pub fn process_block<P: Copy, F, G>(
        &mut self,
        block: &mut [S],
        delay_samples: usize,
        feedback: P,
        mix: P,
        feed: &F,
        blend: &G,
    ) where F: Fn(S, S, P) -> S, G: Fn(S, S, P) -> S
        requires
            old(self)@.configured(),
            forall|i: int, delayed: S|
                0 <= i < old(block)@.len() ==> #[trigger] feed.requires(
                    (old(block)@[i], delayed, feedback),
                ),
            forall|i: int, delayed: S|
                0 <= i < old(block)@.len() ==> #[trigger] blend.requires(
                    (old(block)@[i], delayed, mix),
                ),
        ensures
            exists|writes: Seq<S>|
                {
                    &&& #[trigger] block_trace(
                        old(self)@,
                        delay_samples as int,
                        feedback,
                        mix,
                        old(block)@,
                        writes,
                        final(block)@,
                        *feed,
                        *blend,
                    )
                    &&& final(self)@ == old(self)@.run(writes)
                },
            block_follows_effect(
                old(self)@,
                delay_samples as int,
                feedback,
                mix,
                old(block)@,
                final(self)@,
                final(block)@,
                *feed,
                *blend,
            ),
            final(self)@.wf(),
            final(self)@.len() == old(self)@.len(),
    {
        proof {
            use_type_invariant(&*self);
        }
        let ghost start = self@;
        let ghost inputs = block@;
        let ghost mut writes: Seq<S> = Seq::empty();
        let n = block.len();
        let mut i: usize = 0;
        while i < n
            invariant
                i <= n,
                n == inputs.len(),
                block@.len() == n,
                start.configured(),
                self@ == start.run(writes),
                self@.len() == start.len(),
                self@.wf(),
                writes.len() == i,
                forall|j: int| i <= j < n ==> block@[j] == inputs[j],
                forall|j: int, delayed: S|
                    0 <= j < n ==> #[trigger] feed.requires((inputs[j], delayed, feedback)),
                forall|j: int, delayed: S|
                    0 <= j < n ==> #[trigger] blend.requires((inputs[j], delayed, mix)),
                forall|j: int|
                    0 <= j < i ==> {
                        let delayed = start.run(#[trigger] writes.take(j)).tap(delay_samples as int);
                        &&& feed.ensures((inputs[j], delayed, feedback), writes[j])
                        &&& blend.ensures((inputs[j], delayed, mix), block@[j])
                    },
            decreases n - i,
        {
            let ghost before = self@;
            let ghost earlier = writes;
            let input = block[i];
            assert(feed.requires((inputs[i as int], before.tap(delay_samples as int), feedback)));
            assert(blend.requires((inputs[i as int], before.tap(delay_samples as int), mix)));
            let output = self.process_sample(input, delay_samples, feedback, mix, feed, blend);
            block[i] = output;
            proof {
                writes = earlier.push(self@.newest());
                assert(writes.drop_last() =~= earlier);
                assert(writes.take(i as int) =~= earlier);
                assert forall|j: int| 0 <= j < i implies writes.take(j) == earlier.take(j) by {
                    assert(writes.take(j) =~= earlier.take(j));
                }
            }
            i = i + 1;
        }
        proof {
            assert(block_trace(
                start,
                delay_samples as int,
                feedback,
                mix,
                inputs,
                writes,
                block@,
                *feed,
                *blend,
            ));
            lemma_block_follows_effect(
                start,
                delay_samples as int,
                feedback,
                mix,
                inputs,
                writes,
                block@,
                *feed,
                *blend,
            );
        }
    }
}

} // verus!
