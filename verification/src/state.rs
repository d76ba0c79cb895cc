//! The mathematical model of a delay line: a circular sequence of samples
//! and the position of the next write.

use vstd::prelude::*;

verus! {

/// What a delay line is, as a mathematical value.
#[verifier::ext_equal]
pub struct LineState<S> {
    /// The stored samples, by slot.
    pub samples: Seq<S>,
    /// The slot that the next step writes.
    pub cursor: int,
}

impl<S> LineState<S> {
    /// The number of slots.
    pub open spec fn len(self) -> int {
        self.samples.len() as int
    }

    /// The cursor names a slot; in a line without slots it is 0.
    pub open spec fn wf(self) -> bool {
        if self.len() == 0 {
            self.cursor == 0
        } else {
            0 <= self.cursor < self.len()
        }
    }

    /// A line can be stepped once it has at least one slot.
    pub open spec fn configured(self) -> bool {
        self.len() > 0
    }

    /// A freshly configured line: `length` slots of `silence`, cursor at 0.
    pub open spec fn silent(length: nat, silence: S) -> Self {
        LineState { samples: Seq::new(length, |i: int| silence), cursor: 0 }
    }

    /// The delay that is used for a requested one, in samples: the request
    /// brought into the range from 0 to `len - 1`.
    pub open spec fn effective_delay(self, requested: int) -> int {
        if requested < 0 {
            0
        } else if requested < self.len() {
            requested
        } else {
            self.len() - 1
        }
    }

    /// The slot that a step with the requested delay reads.
    pub open spec fn read_index(self, requested: int) -> int {
        (self.cursor + self.len() - self.effective_delay(requested)) % self.len()
    }

    /// The delayed sample that a step with the requested delay reads.
    pub open spec fn tap(self, requested: int) -> S {
        self.samples[self.read_index(requested)]
    }

    /// The line after one step that stored `written`.
    pub open spec fn step(self, written: S) -> Self {
        LineState {
            samples: self.samples.update(self.cursor, written),
            cursor: (self.cursor + 1) % self.len(),
        }
    }

    /// The sample that was stored `k` steps ago, for `1 <= k <= len`.
    pub open spec fn ago(self, k: int) -> S {
        self.samples[(self.cursor + self.len() - k) % self.len()]
    }

    /// The sample that the last step stored.
    pub open spec fn newest(self) -> S {
        self.ago(1)
    }

    /// How many steps ago the sample was stored that a step with the
    /// requested delay reads. A delay of zero reads the slot under the
    /// cursor before it is written: the oldest sample, a whole buffer
    /// length back.
    pub open spec fn lookback(self, requested: int) -> int {
        if self.effective_delay(requested) == 0 {
            self.len()
        } else {
            self.effective_delay(requested)
        }
    }

    /// The line after a run of steps that stored `writes`, first to last.
    pub open spec fn run(self, writes: Seq<S>) -> Self
        decreases writes.len(),
    {
        if writes.len() == 0 {
            self
        } else {
            self.run(writes.drop_last()).step(writes.last())
        }
    }
}

/// Whether one processing step on `before`, with a requested delay, a
/// feedback and a mix, may have left the line as `after` and returned
/// `output`: the delayed sample is read from `before`; `feed` gives what is
/// stored from the input, that sample and the feedback, `blend` what is
/// returned from the input, the sample and the mix; and `after` is `before`
/// with the stored sample under the cursor and the cursor moved on.
pub open spec fn step_trace<S, P, F: Fn(S, S, P) -> S, G: Fn(S, S, P) -> S>(
    before: LineState<S>,
    requested: int,
    feedback: P,
    mix: P,
    input: S,
    after: LineState<S>,
    output: S,
    feed: F,
    blend: G,
) -> bool {
    let delayed = before.tap(requested);
    &&& call_ensures(feed, (input, delayed, feedback), after.newest())
    &&& call_ensures(blend, (input, delayed, mix), output)
    &&& after == before.step(after.newest())
}

/// Whether a run of steps over `inputs`, begun on `start` with one requested
/// delay, one feedback and one mix, may have stored `writes` and returned
/// `outputs`: before each step the delayed sample is read from the line as
/// the earlier steps left it; `feed` gives what is stored from that step's
/// input, that sample and the feedback, `blend` what is returned from the
/// input, the sample and the mix.
pub open spec fn block_trace<S, P, F: Fn(S, S, P) -> S, G: Fn(S, S, P) -> S>(
    start: LineState<S>,
    requested: int,
    feedback: P,
    mix: P,
    inputs: Seq<S>,
    writes: Seq<S>,
    outputs: Seq<S>,
    feed: F,
    blend: G,
) -> bool {
    &&& writes.len() == inputs.len()
    &&& outputs.len() == inputs.len()
    &&& forall|i: int|
        0 <= i < inputs.len() ==> {
            let delayed = start.run(#[trigger] writes.take(i)).tap(requested);
            &&& call_ensures(feed, (inputs[i], delayed, feedback), writes[i])
            &&& call_ensures(blend, (inputs[i], delayed, mix), outputs[i])
        }
}

} // verus!
