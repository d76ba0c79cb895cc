//! What holds of the delay effect over exact arithmetic.

use vstd::prelude::*;
use crate::effect::{magnitude, mixed_output, power, silence, stored_sample};
use crate::laws::{
    lemma_read_index_in_range, lemma_run_keeps_shape, lemma_run_tap, lemma_step_stores_newest,
    lemma_tap_reads_history,
};
use crate::state::LineState;

verus! {

/// The output is the input at a mix of 0, the delayed sample at a mix of 1,
/// and in between it moves from the one to the other in proportion to the
/// mix. The mix has no part in what the step stores.
pub proof fn lemma_output_affine_in_mix(
    line: LineState<real>,
    input: real,
    requested: int,
    mix: real,
)
    ensures
        line.effect_output(input, requested, 0real) == input,
        line.effect_output(input, requested, 1real) == line.tap(requested),
        line.effect_output(input, requested, mix) == line.effect_output(input, requested, 0real)
            + mix * (line.effect_output(input, requested, 1real) - line.effect_output(
            input,
            requested,
            0real,
        )),
{
    let delayed = line.tap(requested);
    assert(input * (1real - mix) + delayed * mix == input + mix * (delayed - input))
        by (nonlinear_arith);
}

/// Where the delayed sample equals the input, the output is the input,
/// whatever the mix.
pub proof fn lemma_blend_of_equal_samples(sample: real, mix: real)
    ensures
        mixed_output(sample, sample, mix) == sample,
{
    assert(sample * (1real - mix) + sample * mix == sample) by (nonlinear_arith);
}

/// One step keeps the stored samples within `bound` when the input is within
/// `amplitude` and the bound leaves room for it beside the feedback's share:
/// `amplitude + feedback * bound <= bound`.
pub proof fn lemma_step_stays_bounded(
    line: LineState<real>,
    input: real,
    requested: int,
    feedback: real,
    amplitude: real,
    bound: real,
)
    requires
        line.wf(),
        line.configured(),
        0real <= feedback,
        magnitude(input) <= amplitude,
        amplitude + feedback * bound <= bound,
        line.bounded_by(bound),
    ensures
        line.effect_step(input, requested, feedback).bounded_by(bound),
{
    let delayed = line.tap(requested);
    lemma_read_index_in_range(line, requested);
    assert(magnitude(delayed * feedback) <= feedback * bound) by (nonlinear_arith)
        requires
            magnitude(delayed) <= bound,
            0real <= feedback,
    ;
    let after = line.effect_step(input, requested, feedback);
    assert forall|slot: int| 0 <= slot < after.len() implies magnitude(
        #[trigger] after.samples[slot],
    ) <= bound by {
        if slot != line.cursor {
            assert(after.samples[slot] == line.samples[slot]);
        }
    }
}

/// A run of the effect stores one sample for each input, and what it stores
/// up to a step does not depend on the inputs after that step.
pub proof fn lemma_effect_writes_prefix(
    line: LineState<real>,
    inputs: Seq<real>,
    upto: int,
    requested: int,
    feedback: real,
)
    requires
        0 <= upto <= inputs.len(),
    ensures
        line.effect_writes(inputs, requested, feedback).len() == inputs.len(),
        line.effect_writes(inputs.take(upto), requested, feedback) == line.effect_writes(
            inputs,
            requested,
            feedback,
        ).take(upto),
    decreases inputs.len(),
{
    if inputs.len() > 0 {
        if upto == inputs.len() {
            lemma_effect_writes_prefix(line, inputs.drop_last(), upto - 1, requested, feedback);
            assert(inputs.take(upto) =~= inputs);
        } else {
            lemma_effect_writes_prefix(line, inputs.drop_last(), upto, requested, feedback);
            assert(inputs.drop_last().take(upto) =~= inputs.take(upto));
        }
    }
}

/// What a run of the effect stores at a step is the formula applied to that
/// step's input and to the delayed sample of the line as the steps before
/// left it.
pub proof fn lemma_effect_write_at(
    line: LineState<real>,
    inputs: Seq<real>,
    at: int,
    requested: int,
    feedback: real,
)
    requires
        0 <= at < inputs.len(),
    ensures
        line.effect_writes(inputs, requested, feedback)[at] == stored_sample(
            inputs[at],
            line.effect_run(inputs.take(at), requested, feedback).tap(requested),
            feedback,
        ),
{
    let upto = inputs.take(at + 1);
    lemma_effect_writes_prefix(line, inputs, at + 1, requested, feedback);
    assert(upto.drop_last() =~= inputs.take(at));
    lemma_effect_writes_prefix(line, inputs.take(at), at, requested, feedback);
    assert(line.effect_writes(inputs, requested, feedback)[at] == line.effect_writes(
        inputs,
        requested,
        feedback,
    ).take(at + 1)[at]);
}

/// A run of the effect over one more input is the run over the inputs before
/// it, followed by one step of the effect on that input.
pub proof fn lemma_effect_run_unfolds(
    line: LineState<real>,
    inputs: Seq<real>,
    input: real,
    requested: int,
    feedback: real,
)
    ensures
        line.effect_run(inputs.push(input), requested, feedback) == line.effect_run(
            inputs,
            requested,
            feedback,
        ).effect_step(input, requested, feedback),
{
    let longer = inputs.push(input);
    assert(longer.drop_last() =~= inputs);
    let earlier = line.effect_writes(inputs, requested, feedback);
    let writes = line.effect_writes(longer, requested, feedback);
    assert(writes.drop_last() =~= earlier);
}

/// No divergence: while every input is within `amplitude`, a run of the
/// effect keeps the stored samples within any `bound` that they were within
/// before and that leaves room for the input beside the feedback's share,
/// `amplitude + feedback * bound <= bound`. For a feedback below 1 that is
/// every bound from `amplitude / (1 - feedback)` on.
pub proof fn lemma_run_stays_bounded(
    line: LineState<real>,
    inputs: Seq<real>,
    requested: int,
    feedback: real,
    amplitude: real,
    bound: real,
)
    requires
        line.wf(),
        line.configured(),
        0real <= feedback,
        forall|i: int| 0 <= i < inputs.len() ==> magnitude(#[trigger] inputs[i]) <= amplitude,
        amplitude + feedback * bound <= bound,
        line.bounded_by(bound),
    ensures
        line.effect_run(inputs, requested, feedback).bounded_by(bound),
        line.effect_run(inputs, requested, feedback).wf(),
        line.effect_run(inputs, requested, feedback).len() == line.len(),
    decreases inputs.len(),
{
    lemma_run_keeps_shape(line, line.effect_writes(inputs, requested, feedback));
    if inputs.len() > 0 {
        let before = line.effect_run(inputs.drop_last(), requested, feedback);
        lemma_run_stays_bounded(line, inputs.drop_last(), requested, feedback, amplitude, bound);
        assert(inputs.drop_last().push(inputs.last()) =~= inputs);
        lemma_effect_run_unfolds(line, inputs.drop_last(), inputs.last(), requested, feedback);
        lemma_step_stays_bounded(before, inputs.last(), requested, feedback, amplitude, bound);
    }
}

/// Geometric decay: once the input has gone silent, with the stored samples
/// within `bound`, the delayed sample is within `bound` times the feedback to
/// the power of `periods` after so many whole delay periods, and stays so.
pub proof fn lemma_echo_decays(
    line: LineState<real>,
    steps: nat,
    periods: nat,
    requested: int,
    feedback: real,
    bound: real,
)
    requires
        line.wf(),
        line.configured(),
        0real <= feedback <= 1real,
        line.bounded_by(bound),
        steps >= periods * line.lookback(requested),
    ensures
        magnitude(line.effect_run(silence(steps), requested, feedback).tap(requested)) <= bound
            * power(feedback, periods),
    decreases periods,
{
    let period = line.lookback(requested);
    let after = line.effect_run(silence(steps), requested, feedback);
    lemma_tap_reads_history(line, requested);
    if periods == 0 {
        assert(0real + feedback * bound <= bound) by (nonlinear_arith)
            requires
                0real <= feedback <= 1real,
                0real <= bound,
        ;
        lemma_run_stays_bounded(line, silence(steps), requested, feedback, 0real, bound);
        lemma_read_index_in_range(after, requested);
    } else {
        assert(periods * period == (periods - 1) * period + period) by (nonlinear_arith);
        let stored_at = steps - period;
        let writes = line.effect_writes(silence(steps), requested, feedback);
        lemma_effect_writes_prefix(line, silence(steps), steps as int, requested, feedback);
        lemma_run_tap(line, writes, requested);
        lemma_effect_write_at(line, silence(steps), stored_at, requested, feedback);
        assert(silence(steps).take(stored_at) =~= silence(stored_at as nat));
        lemma_echo_decays(
            line,
            stored_at as nat,
            (periods - 1) as nat,
            requested,
            feedback,
            bound,
        );
        let earlier = line.effect_run(silence(stored_at as nat), requested, feedback).tap(
            requested,
        );
        let smaller = power(feedback, (periods - 1) as nat);
        assert(after.tap(requested) == earlier * feedback);
        assert(magnitude(earlier * feedback) <= bound * (feedback * smaller)) by (nonlinear_arith)
            requires
                magnitude(earlier) <= bound * smaller,
                0real <= feedback,
        ;
    }
}

/// After so many whole delay periods of silence at the input, what a further
/// silent step returns is within `bound` times the feedback to the power of
/// `periods`, for every mix from 0 to 1, and what it stores is smaller by the
/// feedback once more.
pub proof fn lemma_silent_step_decays(
    line: LineState<real>,
    steps: nat,
    periods: nat,
    requested: int,
    feedback: real,
    mix: real,
    bound: real,
)
    requires
        line.wf(),
        line.configured(),
        0real <= feedback <= 1real,
        0real <= mix <= 1real,
        line.bounded_by(bound),
        steps >= periods * line.lookback(requested),
    ensures
        magnitude(
            line.effect_run(silence(steps), requested, feedback).effect_output(
                0real,
                requested,
                mix,
            ),
        ) <= bound * power(feedback, periods),
        magnitude(
            line.effect_run(silence(steps), requested, feedback).effect_step(
                0real,
                requested,
                feedback,
            ).newest(),
        ) <= bound * power(feedback, periods + 1),
{
    let after = line.effect_run(silence(steps), requested, feedback);
    let delayed = after.tap(requested);
    let limit = bound * power(feedback, periods);
    lemma_echo_decays(line, steps, periods, requested, feedback, bound);
    lemma_run_keeps_shape(line, line.effect_writes(silence(steps), requested, feedback));
    lemma_step_stores_newest(after, stored_sample(0real, delayed, feedback));
    assert(magnitude(0real * (1real - mix) + delayed * mix) <= limit) by (nonlinear_arith)
        requires
            magnitude(delayed) <= limit,
            0real <= mix <= 1real,
    ;
    assert(magnitude(0real + delayed * feedback) <= bound * (feedback * power(feedback, periods)))
        by (nonlinear_arith)
        requires
            magnitude(delayed) <= bound * power(feedback, periods),
            0real <= feedback,
    ;
}

/// With a feedback of zero a run of the effect stores its inputs unchanged.
pub proof fn lemma_zero_feedback_stores_inputs(
    line: LineState<real>,
    inputs: Seq<real>,
    requested: int,
)
    ensures
        line.effect_writes(inputs, requested, 0real) == inputs,
    decreases inputs.len(),
{
    if inputs.len() > 0 {
        lemma_zero_feedback_stores_inputs(line, inputs.drop_last(), requested);
    }
}

/// Identity at zero delay and zero feedback: where the input equals the
/// sample of one buffer length earlier (the input of that step or, in the
/// first round, what the buffer was seeded with), the output equals the
/// input, whatever the mix. It holds of every input of a signal that repeats
/// with the buffer length, from the second round on.
pub proof fn lemma_identity_at_zero_delay_zero_feedback(
    line: LineState<real>,
    inputs: Seq<real>,
    at: int,
    mix: real,
)
    requires
        line.wf(),
        line.configured(),
        0 <= at < inputs.len(),
        inputs[at] == if at >= line.len() {
            inputs[at - line.len()]
        } else {
            line.ago(line.len() - at)
        },
    ensures
        line.effect_run(inputs.take(at), 0, 0real).effect_output(inputs[at], 0, mix) == inputs[at],
{
    lemma_zero_feedback_stores_inputs(line, inputs.take(at), 0);
    lemma_run_tap(line, inputs.take(at), 0);
    lemma_blend_of_equal_samples(inputs[at], mix);
}

} // verus!
