//! The delay effect over exact arithmetic: what a line of real-valued samples
//! stores and returns when the two signal formulas are computed without
//! rounding.

use vstd::prelude::*;
use crate::state::LineState;

verus! {

/// What a step stores: the input plus the delayed sample scaled by the
/// feedback.
pub open spec fn stored_sample(dry: real, delayed: real, feedback: real) -> real {
    dry + delayed * feedback
}

/// What a step returns: the crossfade from the input, at a mix of 0, to the
/// delayed sample, at a mix of 1.
pub open spec fn mixed_output(dry: real, delayed: real, mix: real) -> real {
    dry * (1real - mix) + delayed * mix
}

/// The absolute value.
pub open spec fn magnitude(x: real) -> real {
    if x < 0real {
        -x
    } else {
        x
    }
}

/// `base` multiplied by itself `exponent` times.
pub open spec fn power(base: real, exponent: nat) -> real
    decreases exponent,
{
    if exponent == 0 {
        1real
    } else {
        base * power(base, (exponent - 1) as nat)
    }
}

/// `steps` input samples of silence.
pub open spec fn silence(steps: nat) -> Seq<real> {
    Seq::new(steps, |i: int| 0real)
}

impl LineState<real> {
    /// The line after one step of the effect on `input`.
    pub open spec fn effect_step(self, input: real, requested: int, feedback: real) -> Self {
        self.step(stored_sample(input, self.tap(requested), feedback))
    }

    /// What one step of the effect on `input` returns.
    pub open spec fn effect_output(self, input: real, requested: int, mix: real) -> real {
        mixed_output(input, self.tap(requested), mix)
    }

    /// What a run of the effect over `inputs` stores, step by step.
    pub open spec fn effect_writes(
        self,
        inputs: Seq<real>,
        requested: int,
        feedback: real,
    ) -> Seq<real>
        decreases inputs.len(),
    {
        if inputs.len() == 0 {
            Seq::empty()
        } else {
            let earlier = self.effect_writes(inputs.drop_last(), requested, feedback);
            earlier.push(stored_sample(inputs.last(), self.run(earlier).tap(requested), feedback))
        }
    }

    /// The line after a run of the effect over `inputs`.
    pub open spec fn effect_run(self, inputs: Seq<real>, requested: int, feedback: real) -> Self {
        self.run(self.effect_writes(inputs, requested, feedback))
    }

    /// What a run of the effect over `inputs` returns, step by step.
    pub open spec fn effect_outputs(
        self,
        inputs: Seq<real>,
        requested: int,
        feedback: real,
        mix: real,
    ) -> Seq<real> {
        Seq::new(
            inputs.len(),
            |i: int|
                self.effect_run(inputs.take(i), requested, feedback).effect_output(
                    inputs[i],
                    requested,
                    mix,
                ),
        )
    }

    /// Whether no stored sample is larger in magnitude than `bound`.
    pub open spec fn bounded_by(self, bound: real) -> bool {
        forall|slot: int| 0 <= slot < self.len() ==> magnitude(#[trigger] self.samples[slot]) <= bound
    }
}

} // verus!
