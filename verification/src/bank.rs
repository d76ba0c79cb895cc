//! Several delay lines side by side, one for each audio channel.

use vstd::prelude::*;
use crate::exact::step_follows_effect;
use crate::line::DelayLine;
use crate::state::{step_trace, LineState};

verus! {

/// Whether every line can be stepped.
pub open spec fn all_configured<S>(lines: Seq<LineState<S>>) -> bool {
    forall|c: int| 0 <= c < lines.len() ==> (#[trigger] lines[c]).configured()
}

/// A bank of delay lines. Each channel has a buffer and a write cursor of its
/// own; a step on one channel reads and writes that channel's line only.
pub struct DelayBank<S> {
    lines: Vec<DelayLine<S>>,
}

impl<S> View for DelayBank<S> {
    type V = Seq<LineState<S>>;

    closed spec fn view(&self) -> Seq<LineState<S>> {
        Seq::new(self.lines@.len(), |c: int| self.lines@[c]@)
    }
}

impl<S: Copy> Default for DelayBank<S> {
    /// A bank without channels.
    fn default() -> (bank: Self)
        ensures
            bank@.len() == 0,
    {
        DelayBank::new(0)
    }
}

impl<S: Copy> DelayBank<S> {
    /// A bank of `channels` lines, none of them configured yet.
    pub fn new(channels: usize) -> (bank: Self)
        ensures
            bank@.len() == channels,
            forall|c: int|
                0 <= c < channels ==> #[trigger] bank@[c] == (LineState::<S> {
                    samples: Seq::empty(),
                    cursor: 0,
                }),
    {
        let mut lines: Vec<DelayLine<S>> = Vec::with_capacity(channels);
        let mut made: usize = 0;
        while made < channels
            invariant
                made <= channels,
                lines@.len() == made,
                forall|c: int|
                    0 <= c < made ==> (#[trigger] lines@[c])@ == (LineState::<S> {
                        samples: Seq::empty(),
                        cursor: 0,
                    }),
            decreases channels - made,
        {
            lines.push(DelayLine::new());
            made = made + 1;
        }
        DelayBank { lines }
    }

    /// Gives every channel a fresh buffer of `length` slots of `silence`,
    /// with the write cursor on slot 0.
    pub fn configure(&mut self, length: usize, silence: S)
        ensures
            final(self)@.len() == old(self)@.len(),
            forall|c: int|
                0 <= c < final(self)@.len() ==> #[trigger] final(self)@[c] == LineState::silent(
                    length as nat,
                    silence,
                ),
            length > 0 ==> all_configured(final(self)@),
    {
        let channels = self.lines.len();
        let mut lines: Vec<DelayLine<S>> = Vec::with_capacity(channels);
        let mut made: usize = 0;
        while made < channels
            invariant
                made <= channels,
                lines@.len() == made,
                forall|c: int|
                    0 <= c < made ==> (#[trigger] lines@[c])@ == LineState::silent(
                        length as nat,
                        silence,
                    ),
            decreases channels - made,
        {
            let mut line: DelayLine<S> = DelayLine::new();
            line.configure(length, silence);
            lines.push(line);
            made = made + 1;
        }
        self.lines = lines;
    }

    /// The number of channels.
    pub fn channels(&self) -> (n: usize)
        ensures
            n == self@.len(),
    {
        self.lines.len()
    }

    /// Whether the bank has a channel and every line can be stepped.
    pub fn is_configured(&self) -> (yes: bool)
        ensures
            yes <==> self@.len() > 0 && all_configured(self@),
    {
        let channels = self.lines.len();
        let mut channel: usize = 0;
        while channel < channels
            invariant
                channel <= channels,
                channels == self.lines@.len(),
                forall|c: int| 0 <= c < channel ==> (#[trigger] self@[c]).configured(),
            decreases channels - channel,
        {
            if !self.lines[channel].is_configured() {
                assert(!self@[channel as int].configured());
                return false;
            }
            channel = channel + 1;
        }
        channels > 0
    }

    /// The line of one channel.
    pub fn line(&self, channel: usize) -> (line: &DelayLine<S>)
        requires
            channel < self@.len(),
        ensures
            line@ == self@[channel as int],
            line@.wf(),
    {
        let line = &self.lines[channel];
        proof {
            use_type_invariant(line);
        }
        line
    }

    /// One processing step on one channel, as `DelayLine::process_sample`
    /// does it. Every other channel is left as it is.
    pub fn process_sample<P: Copy, F, G>(
        &mut self,
        channel: usize,
        input: S,
        delay_samples: usize,
        feedback: P,
        mix: P,
        feed: &F,
        blend: &G,
    ) -> (output: S) where F: Fn(S, S, P) -> S, G: Fn(S, S, P) -> S
        requires
            channel < old(self)@.len(),
            old(self)@[channel as int].configured(),
            feed.requires((input, old(self)@[channel as int].tap(delay_samples as int), feedback)),
            blend.requires((input, old(self)@[channel as int].tap(delay_samples as int), mix)),
        ensures
            final(self)@.len() == old(self)@.len(),
            forall|c: int|
                0 <= c < old(self)@.len() && c != channel ==> #[trigger] final(self)@[c] == old(
                    self,
                )@[c],
            step_trace(
                old(self)@[channel as int],
                delay_samples as int,
                feedback,
                mix,
                input,
                final(self)@[channel as int],
                output,
                *feed,
                *blend,
            ),
            step_follows_effect(
                old(self)@[channel as int],
                delay_samples as int,
                feedback,
                mix,
                input,
                final(self)@[channel as int],
                output,
                *feed,
                *blend,
            ),
            final(self)@[channel as int].wf(),
            final(self)@[channel as int].len() == old(self)@[channel as int].len(),
    {
        let ghost before = self@;
        let output = self.lines[channel].process_sample(
            input,
            delay_samples,
            feedback,
            mix,
            feed,
            blend,
        );
        proof {
            assert(self@[channel as int] == self.lines@[channel as int]@);
            assert forall|c: int| 0 <= c < before.len() && c != channel implies #[trigger] self@[c]
                == before[c] by {}
        }
        output
    }

    /// One processing step on every channel, with one requested delay, one
    /// feedback and one mix for all of them: `frame` holds one input sample
    /// for each channel and gets that channel's output in its place. Each
    /// channel is stepped on its own line, with its own sample: what a
    /// channel stores and returns has nothing of another channel in it.
    pub fn process_frame<P: Copy, F, G>(
        &mut self,
        frame: &mut [S],
        delay_samples: usize,
        feedback: P,
        mix: P,
        feed: &F,
        blend: &G,
    ) where F: Fn(S, S, P) -> S, G: Fn(S, S, P) -> S
        requires
            old(frame)@.len() == old(self)@.len(),
            all_configured(old(self)@),
            forall|c: int|
                0 <= c < old(self)@.len() ==> feed.requires(
                    (old(frame)@[c], (#[trigger] old(self)@[c]).tap(delay_samples as int), feedback),
                ),
            forall|c: int|
                0 <= c < old(self)@.len() ==> blend.requires(
                    (old(frame)@[c], (#[trigger] old(self)@[c]).tap(delay_samples as int), mix),
                ),
        ensures
            final(self)@.len() == old(self)@.len(),
            final(frame)@.len() == old(frame)@.len(),
            forall|c: int|
                #![trigger final(self)@[c]]
                #![trigger final(frame)@[c]]
                0 <= c < old(self)@.len() ==> {
                    &&& step_trace(
                        old(self)@[c],
                        delay_samples as int,
                        feedback,
                        mix,
                        old(frame)@[c],
                        final(self)@[c],
                        final(frame)@[c],
                        *feed,
                        *blend,
                    )
                    &&& step_follows_effect(
                        old(self)@[c],
                        delay_samples as int,
                        feedback,
                        mix,
                        old(frame)@[c],
                        final(self)@[c],
                        final(frame)@[c],
                        *feed,
                        *blend,
                    )
                    &&& final(self)@[c].wf()
                    &&& final(self)@[c].len() == old(self)@[c].len()
                },
    {
        let ghost before = self@;
        let ghost inputs = frame@;
        let channels = frame.len();
        let mut channel: usize = 0;
        while channel < channels
            invariant
                channel <= channels,
                channels == before.len(),
                self@.len() == channels,
                frame@.len() == channels,
                inputs.len() == channels,
                all_configured(before),
                forall|c: int| channel <= c < channels ==> #[trigger] self@[c] == before[c],
                forall|c: int| channel <= c < channels ==> #[trigger] frame@[c] == inputs[c],
                forall|c: int|
                    0 <= c < channels ==> feed.requires(
                        (inputs[c], (#[trigger] before[c]).tap(delay_samples as int), feedback),
                    ),
                forall|c: int|
                    0 <= c < channels ==> blend.requires(
                        (inputs[c], (#[trigger] before[c]).tap(delay_samples as int), mix),
                    ),
                forall|c: int|
                    #![trigger self@[c]]
                    #![trigger frame@[c]]
                    0 <= c < channel ==> {
                        &&& step_trace(
                            before[c],
                            delay_samples as int,
                            feedback,
                            mix,
                            inputs[c],
                            self@[c],
                            frame@[c],
                            *feed,
                            *blend,
                        )
                        &&& step_follows_effect(
                            before[c],
                            delay_samples as int,
                            feedback,
                            mix,
                            inputs[c],
                            self@[c],
                            frame@[c],
                            *feed,
                            *blend,
                        )
                        &&& self@[c].wf()
                        &&& self@[c].len() == before[c].len()
                    },
            decreases channels - channel,
        {
            let input = frame[channel];
            let output = self.process_sample(
                channel,
                input,
                delay_samples,
                feedback,
                mix,
                feed,
                blend,
            );
            frame[channel] = output;
            channel = channel + 1;
        }
    }
}

} // verus!
