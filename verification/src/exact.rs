//! Where the functions handed to a step compute without rounding, the step
//! is a step of the effect over exact arithmetic.

use vstd::prelude::*;
use crate::effect::{mixed_output, stored_sample};
use crate::laws::{lemma_read_index_in_range, lemma_run_keeps_shape};
use crate::state::{block_trace, step_trace, LineState};

verus! {

/// The line of real-valued samples that `line` stands for when each of its
/// samples is read through `value`.
pub open spec fn interpret<S>(line: LineState<S>, value: spec_fn(S) -> real) -> LineState<real> {
    LineState { samples: line.samples.map_values(value), cursor: line.cursor }
}

/// Whether `feed` computes the stored sample without rounding, samples read
/// through `value` and the feedback through `gain`.
pub open spec fn feeds_exactly<S, P, F: Fn(S, S, P) -> S>(
    feed: F,
    value: spec_fn(S) -> real,
    gain: spec_fn(P) -> real,
) -> bool {
    forall|dry: S, delayed: S, feedback: P, stored: S|
        call_ensures(feed, (dry, delayed, feedback), stored) ==> value(stored) == stored_sample(
            value(dry),
            value(delayed),
            gain(feedback),
        )
}

/// Whether `blend` computes the output without rounding, samples read
/// through `value` and the mix through `gain`.
pub open spec fn blends_exactly<S, P, G: Fn(S, S, P) -> S>(
    blend: G,
    value: spec_fn(S) -> real,
    gain: spec_fn(P) -> real,
) -> bool {
    forall|dry: S, delayed: S, mix: P, output: S|
        call_ensures(blend, (dry, delayed, mix), output) ==> value(output) == mixed_output(
            value(dry),
            value(delayed),
            gain(mix),
        )
}

/// Whether a step from `before` to `after` that returned `output` is a step
/// of the effect over exact arithmetic, under every reading of the samples
/// and of the feedback and mix as real numbers under which the function
/// concerned computes without rounding: `feed` for where the line ends,
/// `blend` for the output.
pub open spec fn step_follows_effect<S, P, F: Fn(S, S, P) -> S, G: Fn(S, S, P) -> S>(
    before: LineState<S>,
    requested: int,
    feedback: P,
    mix: P,
    input: S,
    after: LineState<S>,
    output: S,
    feed: F,
    blend: G,
) -> bool {
    &&& forall|value: spec_fn(S) -> real, gain: spec_fn(P) -> real| #[trigger]
        feeds_exactly(feed, value, gain) ==> interpret(after, value) == interpret(
            before,
            value,
        ).effect_step(value(input), requested, gain(feedback))
    &&& forall|value: spec_fn(S) -> real, gain: spec_fn(P) -> real| #[trigger]
        blends_exactly(blend, value, gain) ==> value(output) == interpret(
            before,
            value,
        ).effect_output(value(input), requested, gain(mix))
}

/// Whether a block processed from `start` to `end`, with `inputs` replaced by
/// `outputs`, is a run of the effect over exact arithmetic, under every
/// reading of the samples and of the feedback and mix as real numbers under
/// which the functions concerned compute without rounding: `feed` for where
/// the line ends, `feed` and `blend` for the outputs.
pub open spec fn block_follows_effect<S, P, F: Fn(S, S, P) -> S, G: Fn(S, S, P) -> S>(
    start: LineState<S>,
    requested: int,
    feedback: P,
    mix: P,
    inputs: Seq<S>,
    end: LineState<S>,
    outputs: Seq<S>,
    feed: F,
    blend: G,
) -> bool {
    &&& forall|value: spec_fn(S) -> real, gain: spec_fn(P) -> real| #[trigger]
        feeds_exactly(feed, value, gain) ==> interpret(end, value) == interpret(
            start,
            value,
        ).effect_run(inputs.map_values(value), requested, gain(feedback))
    &&& forall|value: spec_fn(S) -> real, gain: spec_fn(P) -> real|
        feeds_exactly(feed, value, gain) && #[trigger] blends_exactly(blend, value, gain)
            ==> outputs.map_values(value) == interpret(start, value).effect_outputs(
            inputs.map_values(value),
            requested,
            gain(feedback),
            gain(mix),
        )
}

/// Reading the samples through `value` goes along with the line's own
/// operations: the delayed sample of the line read is the delayed sample
/// read, and a step on the line read stores the sample read.
pub proof fn lemma_interpret_follows<S>(
    line: LineState<S>,
    value: spec_fn(S) -> real,
    requested: int,
    stored: S,
)
    requires
        line.wf(),
        line.configured(),
    ensures
        interpret(line, value).wf(),
        interpret(line, value).len() == line.len(),
        interpret(line, value).tap(requested) == value(line.tap(requested)),
        interpret(line.step(stored), value) == interpret(line, value).step(value(stored)),
{
    lemma_read_index_in_range(line, requested);
    assert(interpret(line.step(stored), value) =~= interpret(line, value).step(value(stored)));
}

/// Reading the samples through `value` goes along with a run of steps.
pub proof fn lemma_interpret_follows_run<S>(
    line: LineState<S>,
    value: spec_fn(S) -> real,
    writes: Seq<S>,
)
    requires
        line.wf(),
        line.configured(),
    ensures
        interpret(line.run(writes), value) == interpret(line, value).run(writes.map_values(value)),
    decreases writes.len(),
{
    let stored = writes.map_values(value);
    if writes.len() > 0 {
        lemma_interpret_follows_run(line, value, writes.drop_last());
        lemma_run_keeps_shape(line, writes.drop_last());
        lemma_interpret_follows(line.run(writes.drop_last()), value, 0, writes.last());
        assert(stored.drop_last() =~= writes.drop_last().map_values(value));
    }
}

/// A processing step is a step of the effect wherever its functions compute
/// without rounding.
pub proof fn lemma_step_follows_effect<S, P, F: Fn(S, S, P) -> S, G: Fn(S, S, P) -> S>(
    before: LineState<S>,
    requested: int,
    feedback: P,
    mix: P,
    input: S,
    after: LineState<S>,
    output: S,
    feed: F,
    blend: G,
)
    requires
        before.wf(),
        before.configured(),
        step_trace(before, requested, feedback, mix, input, after, output, feed, blend),
    ensures
        step_follows_effect(before, requested, feedback, mix, input, after, output, feed, blend),
{
    assert forall|value: spec_fn(S) -> real, gain: spec_fn(P) -> real| #[trigger]
        feeds_exactly(feed, value, gain) implies interpret(after, value) == interpret(
        before,
        value,
    ).effect_step(value(input), requested, gain(feedback)) by {
        lemma_interpret_follows(before, value, requested, after.newest());
    }
    assert forall|value: spec_fn(S) -> real, gain: spec_fn(P) -> real| #[trigger]
        blends_exactly(blend, value, gain) implies value(output) == interpret(
        before,
        value,
    ).effect_output(value(input), requested, gain(mix)) by {
        lemma_interpret_follows(before, value, requested, output);
    }
}

/// The first steps of a block's trace are a trace of their own.
pub proof fn lemma_block_trace_prefix<S, P, F: Fn(S, S, P) -> S, G: Fn(S, S, P) -> S>(
    start: LineState<S>,
    requested: int,
    feedback: P,
    mix: P,
    inputs: Seq<S>,
    writes: Seq<S>,
    outputs: Seq<S>,
    feed: F,
    blend: G,
    upto: int,
)
    requires
        block_trace(start, requested, feedback, mix, inputs, writes, outputs, feed, blend),
        0 <= upto <= inputs.len(),
    ensures
        block_trace(
            start,
            requested,
            feedback,
            mix,
            inputs.take(upto),
            writes.take(upto),
            outputs.take(upto),
            feed,
            blend,
        ),
{
    assert forall|i: int| 0 <= i < upto implies {
        let delayed = start.run(#[trigger] writes.take(upto).take(i)).tap(requested);
        &&& call_ensures(feed, (inputs.take(upto)[i], delayed, feedback), writes.take(upto)[i])
        &&& call_ensures(blend, (inputs.take(upto)[i], delayed, mix), outputs.take(upto)[i])
    } by {
        assert(writes.take(upto).take(i) =~= writes.take(i));
    }
}

/// A block processed with an exact `feed` is a run of the effect: what it
/// stores, read through `value`, is what the effect's run over the inputs
/// read stores, and the line ends where that run ends.
pub proof fn lemma_exact_block_is_effect_run<S, P, F: Fn(S, S, P) -> S, G: Fn(S, S, P) -> S>(
    start: LineState<S>,
    requested: int,
    feedback: P,
    mix: P,
    inputs: Seq<S>,
    writes: Seq<S>,
    outputs: Seq<S>,
    feed: F,
    blend: G,
    value: spec_fn(S) -> real,
    gain: spec_fn(P) -> real,
)
    requires
        start.wf(),
        start.configured(),
        feeds_exactly(feed, value, gain),
        block_trace(start, requested, feedback, mix, inputs, writes, outputs, feed, blend),
    ensures
        writes.map_values(value) == interpret(start, value).effect_writes(
            inputs.map_values(value),
            requested,
            gain(feedback),
        ),
        interpret(start.run(writes), value) == interpret(start, value).effect_run(
            inputs.map_values(value),
            requested,
            gain(feedback),
        ),
    decreases inputs.len(),
{
    let ideal = interpret(start, value);
    let ins = inputs.map_values(value);
    let stored = writes.map_values(value);
    lemma_interpret_follows_run(start, value, writes);
    if inputs.len() == 0 {
        assert(stored =~= ideal.effect_writes(ins, requested, gain(feedback)));
    } else {
        let last = inputs.len() - 1;
        lemma_block_trace_prefix(
            start,
            requested,
            feedback,
            mix,
            inputs,
            writes,
            outputs,
            feed,
            blend,
            last,
        );
        assert(inputs.take(last) =~= inputs.drop_last());
        assert(writes.take(last) =~= writes.drop_last());
        lemma_exact_block_is_effect_run(
            start,
            requested,
            feedback,
            mix,
            inputs.drop_last(),
            writes.drop_last(),
            outputs.take(last),
            feed,
            blend,
            value,
            gain,
        );
        lemma_run_keeps_shape(start, writes.drop_last());
        lemma_interpret_follows(start.run(writes.drop_last()), value, requested, writes.last());
        assert(inputs.drop_last().map_values(value) =~= ins.drop_last());
        assert(stored.drop_last() =~= writes.drop_last().map_values(value));
        assert(stored =~= ideal.effect_writes(ins, requested, gain(feedback)));
    }
}

/// A block processed with an exact `feed` and an exact `blend` returns, read
/// through `value`, what the effect's run over the inputs read returns.
pub proof fn lemma_exact_block_gives_effect_outputs<
    S,
    P,
    F: Fn(S, S, P) -> S,
    G: Fn(S, S, P) -> S,
>(
    start: LineState<S>,
    requested: int,
    feedback: P,
    mix: P,
    inputs: Seq<S>,
    writes: Seq<S>,
    outputs: Seq<S>,
    feed: F,
    blend: G,
    value: spec_fn(S) -> real,
    gain: spec_fn(P) -> real,
)
    requires
        start.wf(),
        start.configured(),
        feeds_exactly(feed, value, gain),
        blends_exactly(blend, value, gain),
        block_trace(start, requested, feedback, mix, inputs, writes, outputs, feed, blend),
    ensures
        outputs.map_values(value) == interpret(start, value).effect_outputs(
            inputs.map_values(value),
            requested,
            gain(feedback),
            gain(mix),
        ),
{
    let ideal = interpret(start, value);
    let ins = inputs.map_values(value);
    let expected = ideal.effect_outputs(ins, requested, gain(feedback), gain(mix));
    assert forall|i: int| 0 <= i < inputs.len() implies outputs.map_values(value)[i]
        == expected[i] by {
        lemma_block_trace_prefix(
            start,
            requested,
            feedback,
            mix,
            inputs,
            writes,
            outputs,
            feed,
            blend,
            i,
        );
        lemma_exact_block_is_effect_run(
            start,
            requested,
            feedback,
            mix,
            inputs.take(i),
            writes.take(i),
            outputs.take(i),
            feed,
            blend,
            value,
            gain,
        );
        assert(inputs.take(i).map_values(value) =~= ins.take(i));
        lemma_run_keeps_shape(start, writes.take(i));
        lemma_interpret_follows(start.run(writes.take(i)), value, requested, outputs[i]);
    }
    assert(outputs.map_values(value) =~= expected);
}

/// A processed block is a run of the effect wherever its functions compute
/// without rounding.
pub proof fn lemma_block_follows_effect<S, P, F: Fn(S, S, P) -> S, G: Fn(S, S, P) -> S>(
    start: LineState<S>,
    requested: int,
    feedback: P,
    mix: P,
    inputs: Seq<S>,
    writes: Seq<S>,
    outputs: Seq<S>,
    feed: F,
    blend: G,
)
    requires
        start.wf(),
        start.configured(),
        block_trace(start, requested, feedback, mix, inputs, writes, outputs, feed, blend),
    ensures
        block_follows_effect(
            start,
            requested,
            feedback,
            mix,
            inputs,
            start.run(writes),
            outputs,
            feed,
            blend,
        ),
{
    assert forall|value: spec_fn(S) -> real, gain: spec_fn(P) -> real| #[trigger]
        feeds_exactly(feed, value, gain) implies interpret(start.run(writes), value) == interpret(
        start,
        value,
    ).effect_run(inputs.map_values(value), requested, gain(feedback)) by {
        lemma_exact_block_is_effect_run(
            start,
            requested,
            feedback,
            mix,
            inputs,
            writes,
            outputs,
            feed,
            blend,
            value,
            gain,
        );
    }
    assert forall|value: spec_fn(S) -> real, gain: spec_fn(P) -> real|
        feeds_exactly(feed, value, gain) && #[trigger] blends_exactly(
            blend,
            value,
            gain,
        ) implies outputs.map_values(value) == interpret(start, value).effect_outputs(
        inputs.map_values(value),
        requested,
        gain(feedback),
        gain(mix),
    ) by {
        lemma_exact_block_gives_effect_outputs(
            start,
            requested,
            feedback,
            mix,
            inputs,
            writes,
            outputs,
            feed,
            blend,
            value,
            gain,
        );
    }
}

} // verus!
