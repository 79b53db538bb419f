//! The delay effect: a single-tap feedback delay line, kept in a circular buffer of fixed
//! length with a write cursor.

use vstd::prelude::*;
use crate::effects::AudioEffect;
use crate::sample::{is_mix, is_silence, lemma_mix_single_valued, mix, single_valued, Sample};

verus! {

/// What a delay line holds, as contracts see it.
pub struct DelayState<S> {
    /// The samples in the line, oldest first: `window[0]` leaves next, and a stored
    /// sample enters at the end.
    pub window: Seq<S>,
    pub feedback: S,
    pub mix: S,
}

/// A single-tap delay line.
pub struct SimpleDelay<S> {
    buffer: Vec<S>,
    write_pos: usize,
    pub feedback: S,
    pub mix: S,
}

impl<S> View for SimpleDelay<S> {
    type V = DelayState<S>;

    closed spec fn view(&self) -> DelayState<S> {
        DelayState {
            window: Seq::new(
                self.buffer@.len(),
                |k: int|
                    if self.write_pos + k < self.buffer@.len() {
                        self.buffer@[self.write_pos + k]
                    } else {
                        self.buffer@[self.write_pos + k - self.buffer@.len()]
                    },
            ),
            feedback: self.feedback,
            mix: self.mix,
        }
    }
}

/// The window after `sample` has been stored: the oldest sample has left, `sample` is the
/// newest.
pub open spec fn shifted<S>(window: Seq<S>, sample: S) -> Seq<S> {
    window.drop_first().push(sample)
}

/// The sample that leaves the line at step `i` of a run that started with `window` in
/// the line and in which `stored` entered it: one of the line's first contents while
/// `i < window.len()`, and later the sample that entered `window.len()` steps earlier.
pub open spec fn leaving<S>(window: Seq<S>, stored: Seq<S>, i: int) -> S {
    if i < window.len() {
        window[i]
    } else {
        stored[i - window.len()]
    }
}

/// What the line holds after `stored` has entered a line that held `window`: the last
/// `window.len()` samples of the two together.
pub open spec fn window_after<S>(window: Seq<S>, stored: Seq<S>) -> Seq<S> {
    (window + stored).skip(stored.len() as int)
}

/// Step `i` of a run of the delay: what enters the line is the input sample plus
/// `feedback` times the leaving one, and what goes out is the input sample plus `mix`
/// times the leaving one.
pub open spec fn delay_step<S: Sample>(
    before: DelayState<S>,
    input: Seq<S>,
    stored: Seq<S>,
    output: Seq<S>,
    i: int,
) -> bool {
    let delayed = leaving(before.window, stored, i);
    &&& is_mix(input[i], delayed, before.feedback, stored[i])
    &&& is_mix(input[i], delayed, before.mix, output[i])
}

/// A run of the delay over the block `input`, where `stored` are the samples that entered
/// the line, one for each input sample.
pub open spec fn delay_trace<S: Sample>(
    before: DelayState<S>,
    input: Seq<S>,
    stored: Seq<S>,
    after: DelayState<S>,
    output: Seq<S>,
) -> bool {
    &&& stored.len() == input.len()
    &&& output.len() == input.len()
    &&& after == (DelayState { window: window_after(before.window, stored), ..before })
    &&& forall|i: int|
        0 <= i < input.len() ==> #[trigger] delay_step(before, input, stored, output, i)
}

/// The delay in state `before` turns the block `input` into `output` and is left in state
/// `after`.
pub open spec fn delayed_by<S: Sample>(
    before: DelayState<S>,
    input: Seq<S>,
    after: DelayState<S>,
    output: Seq<S>,
) -> bool {
    exists|stored: Seq<S>| delay_trace(before, input, stored, after, output)
}

impl<S: Sample> SimpleDelay<S> {
    /// The cursor lies inside the buffer (or at 0 when the buffer is empty).
    pub closed spec fn wf(&self) -> bool {
        if self.buffer@.len() == 0 {
            self.write_pos == 0
        } else {
            self.write_pos < self.buffer@.len()
        }
    }

    /// A silent line of `delay_samples` samples
    /// (`delay_samples` is the sample rate times the delay in seconds).
    pub fn new(delay_samples: usize, feedback: S, mix: S) -> (line: Self)
        ensures
            line.wf(),
            line@.window.len() == delay_samples,
            forall|k: int| 0 <= k < delay_samples ==> is_silence(#[trigger] line@.window[k]),
            line@.feedback == feedback,
            line@.mix == mix,
    {
        let mut buffer: Vec<S> = Vec::new();
        let mut filled: usize = 0;
        while filled < delay_samples
            invariant
                filled <= delay_samples,
                buffer@.len() == filled,
                forall|k: int| 0 <= k < filled ==> is_silence(#[trigger] buffer@[k]),
            decreases delay_samples - filled,
        {
            buffer.push(S::silence());
            filled = filled + 1;
        }
        SimpleDelay { buffer, write_pos: 0, feedback, mix }
    }

    /// The length of the line, fixed when it was made.
    pub fn len(&self) -> (n: usize)
        ensures
            n == self@.window.len(),
    {
        self.buffer.len()
    }

    /// The sample that was stored `self.len()` stores ago.
    fn delayed(&self) -> (sample: S)
        requires
            self.wf(),
            self@.window.len() > 0,
        ensures
            sample == self@.window[0],
    {
        self.buffer[self.write_pos]
    }

    /// Stores `sample` in place of the oldest one and moves the cursor on.
    fn store(&mut self, sample: S)
        requires
            old(self).wf(),
            old(self)@.window.len() > 0,
        ensures
            final(self).wf(),
            final(self)@ == (DelayState {
                window: shifted(old(self)@.window, sample),
                ..old(self)@
            }),
    {
        let len = self.buffer.len();
        self.buffer.set(self.write_pos, sample);
        let next = self.write_pos + 1;
        self.write_pos = if next == len { 0 } else { next };
        assert(self@.window =~= shifted(old(self)@.window, sample));
    }
}

/// A run over no samples changes nothing.
pub proof fn lemma_delay_nothing<S: Sample>(start: DelayState<S>)
    ensures
        delayed_by(start, Seq::<S>::empty(), start, Seq::<S>::empty()),
{
    let stored = Seq::<S>::empty();
    assert(window_after(start.window, stored) =~= start.window);
    assert(delay_trace(start, Seq::<S>::empty(), stored, start, Seq::<S>::empty()));
}

/// The line after two blocks is the line after their concatenation.
proof fn lemma_window_after_twice<S>(window: Seq<S>, stored1: Seq<S>, stored2: Seq<S>)
    ensures
        window_after(window_after(window, stored1), stored2) == window_after(
            window,
            stored1 + stored2,
        ),
{
    assert(window_after(window_after(window, stored1), stored2) =~= window_after(
        window,
        stored1 + stored2,
    ));
}

/// What leaves the line in the second of two blocks is what leaves it at the same step
/// of their concatenation.
proof fn lemma_leaving_in_second<S>(window: Seq<S>, stored1: Seq<S>, stored2: Seq<S>, j: int)
    requires
        0 <= j < stored2.len(),
    ensures
        leaving(window_after(window, stored1), stored2, j) == leaving(
            window,
            stored1 + stored2,
            stored1.len() + j,
        ),
{
}

/// Block boundaries do not show: a run over `first` followed by a run over `second`,
/// which starts in the state that the first run left, is a run over `first + second`.
pub proof fn lemma_delay_blocks<S: Sample>(
    start: DelayState<S>,
    first: Seq<S>,
    middle: DelayState<S>,
    first_out: Seq<S>,
    second: Seq<S>,
    end: DelayState<S>,
    second_out: Seq<S>,
)
    requires
        delayed_by(start, first, middle, first_out),
        delayed_by(middle, second, end, second_out),
    ensures
        delayed_by(start, first + second, end, first_out + second_out),
{
    let stored1 = choose|stored: Seq<S>| delay_trace(start, first, stored, middle, first_out);
    let stored2 = choose|stored: Seq<S>| delay_trace(middle, second, stored, end, second_out);
    let stored = stored1 + stored2;
    let input = first + second;
    let output = first_out + second_out;
    let n1 = first.len() as int;
    assert forall|i: int| 0 <= i < input.len() implies #[trigger] delay_step(
        start,
        input,
        stored,
        output,
        i,
    ) by {
        if i < n1 {
            assert(delay_step(start, first, stored1, first_out, i));
        } else {
            assert(delay_step(middle, second, stored2, second_out, i - n1));
            lemma_leaving_in_second(start.window, stored1, stored2, i - n1);
        }
    }
    lemma_window_after_twice(start.window, stored1, stored2);
    assert(delay_trace(start, input, stored, end, output));
}

/// The state of a delay after the first `cut` steps of a run from `start` in which
/// `stored` entered the line.
pub open spec fn state_at<S>(start: DelayState<S>, stored: Seq<S>, cut: int) -> DelayState<S> {
    DelayState { window: window_after(start.window, stored.take(cut)), ..start }
}

/// The first `cut` steps of a run are a run.
proof fn lemma_trace_head<S: Sample>(
    start: DelayState<S>,
    input: Seq<S>,
    stored: Seq<S>,
    end: DelayState<S>,
    output: Seq<S>,
    cut: int,
)
    requires
        delay_trace(start, input, stored, end, output),
        0 <= cut <= input.len(),
    ensures
        delay_trace(
            start,
            input.take(cut),
            stored.take(cut),
            state_at(start, stored, cut),
            output.take(cut),
        ),
{
    assert forall|i: int| 0 <= i < cut implies #[trigger] delay_step(
        start,
        input.take(cut),
        stored.take(cut),
        output.take(cut),
        i,
    ) by {
        assert(delay_step(start, input, stored, output, i));
    }
}

/// The steps of a run after the first `cut` are a run from the state that those left.
proof fn lemma_trace_tail<S: Sample>(
    start: DelayState<S>,
    input: Seq<S>,
    stored: Seq<S>,
    end: DelayState<S>,
    output: Seq<S>,
    cut: int,
)
    requires
        delay_trace(start, input, stored, end, output),
        0 <= cut <= input.len(),
    ensures
        delay_trace(
            state_at(start, stored, cut),
            input.skip(cut),
            stored.skip(cut),
            end,
            output.skip(cut),
        ),
{
    let middle = state_at(start, stored, cut);
    let stored1 = stored.take(cut);
    let stored2 = stored.skip(cut);
    assert(stored1 + stored2 =~= stored);
    assert forall|j: int| 0 <= j < input.len() - cut implies #[trigger] delay_step(
        middle,
        input.skip(cut),
        stored2,
        output.skip(cut),
        j,
    ) by {
        assert(delay_step(start, input, stored, output, cut + j));
        lemma_leaving_in_second(start.window, stored1, stored2, j);
    }
    lemma_window_after_twice(start.window, stored1, stored2);
}

/// A run over `first + second` is a run over `first` followed by a run over `second`:
/// the state between the two blocks is the result.
pub proof fn lemma_delay_splits<S: Sample>(
    start: DelayState<S>,
    first: Seq<S>,
    second: Seq<S>,
    end: DelayState<S>,
    output: Seq<S>,
) -> (middle: DelayState<S>)
    requires
        delayed_by(start, first + second, end, output),
    ensures
        delayed_by(start, first, middle, output.take(first.len() as int)),
        delayed_by(middle, second, end, output.skip(first.len() as int)),
{
    let input = first + second;
    let stored = choose|stored: Seq<S>| delay_trace(start, input, stored, end, output);
    let cut = first.len() as int;
    assert(input.take(cut) =~= first);
    assert(input.skip(cut) =~= second);
    lemma_trace_head(start, input, stored, end, output, cut);
    lemma_trace_tail(start, input, stored, end, output, cut);
    state_at(start, stored, cut)
}

/// Two runs from one state over one input store the same samples, where every operation
/// has one result.
proof fn lemma_same_stored<S: Sample>(
    start: DelayState<S>,
    input: Seq<S>,
    stored1: Seq<S>,
    end1: DelayState<S>,
    output1: Seq<S>,
    stored2: Seq<S>,
    end2: DelayState<S>,
    output2: Seq<S>,
    upto: int,
)
    requires
        single_valued::<S>(),
        start.window.len() >= 1,
        delay_trace(start, input, stored1, end1, output1),
        delay_trace(start, input, stored2, end2, output2),
        0 <= upto <= input.len(),
    ensures
        forall|j: int| 0 <= j < upto ==> stored1[j] == stored2[j],
    decreases upto,
{
    if upto > 0 {
        lemma_same_stored(start, input, stored1, end1, output1, stored2, end2, output2, upto - 1);
        let i = upto - 1;
        assert(delay_step(start, input, stored1, output1, i));
        assert(delay_step(start, input, stored2, output2, i));
        let delayed = leaving(start.window, stored1, i);
        assert(delayed == leaving(start.window, stored2, i));
        lemma_mix_single_valued(input[i], delayed, start.feedback, stored1[i], stored2[i]);
    }
}

/// Where every operation has one result, a delay in a given state gives one output for a
/// block and is left in one state.
pub proof fn lemma_delay_single_valued<S: Sample>(
    start: DelayState<S>,
    input: Seq<S>,
    end: DelayState<S>,
    output: Seq<S>,
    other_end: DelayState<S>,
    other_output: Seq<S>,
)
    requires
        single_valued::<S>(),
        start.window.len() >= 1,
        delayed_by(start, input, end, output),
        delayed_by(start, input, other_end, other_output),
    ensures
        output == other_output,
        end == other_end,
{
    let stored1 = choose|stored: Seq<S>| delay_trace(start, input, stored, end, output);
    let stored2 = choose|stored: Seq<S>|
        delay_trace(start, input, stored, other_end, other_output);
    lemma_same_stored(
        start,
        input,
        stored1,
        end,
        output,
        stored2,
        other_end,
        other_output,
        input.len() as int,
    );
    assert(stored1 =~= stored2);
    assert forall|i: int| 0 <= i < input.len() implies output[i] == other_output[i] by {
        assert(delay_step(start, input, stored1, output, i));
        assert(delay_step(start, input, stored1, other_output, i));
        lemma_mix_single_valued(
            input[i],
            leaving(start.window, stored1, i),
            start.mix,
            output[i],
            other_output[i],
        );
    }
    assert(output =~= other_output);
}

/// The delay runs over the blocks `blocks` one after the other, each run starting in the
/// state that the one before it left, and gives the blocks `outputs`.
pub open spec fn delayed_in_blocks<S: Sample>(
    start: DelayState<S>,
    blocks: Seq<Seq<S>>,
    end: DelayState<S>,
    outputs: Seq<Seq<S>>,
) -> bool
    decreases blocks.len(),
{
    if blocks.len() == 0 {
        end == start && outputs.len() == 0
    } else {
        &&& outputs.len() == blocks.len()
        &&& exists|middle: DelayState<S>| #[trigger]
            delayed_by(start, blocks.first(), middle, outputs.first()) && delayed_in_blocks(
                middle,
                blocks.drop_first(),
                end,
                outputs.drop_first(),
            )
    }
}

/// However a sequence of samples is cut into blocks, running the delay over the blocks
/// in order is one run over the whole sequence.
pub proof fn lemma_delay_any_blocks<S: Sample>(
    start: DelayState<S>,
    blocks: Seq<Seq<S>>,
    end: DelayState<S>,
    outputs: Seq<Seq<S>>,
)
    requires
        delayed_in_blocks(start, blocks, end, outputs),
    ensures
        delayed_by(start, blocks.flatten(), end, outputs.flatten()),
    decreases blocks.len(),
{
    if blocks.len() == 0 {
        lemma_delay_nothing(start);
    } else {
        let middle = choose|middle: DelayState<S>| #[trigger]
            delayed_by(start, blocks.first(), middle, outputs.first()) && delayed_in_blocks(
                middle,
                blocks.drop_first(),
                end,
                outputs.drop_first(),
            );
        lemma_delay_any_blocks(middle, blocks.drop_first(), end, outputs.drop_first());
        lemma_delay_blocks(
            start,
            blocks.first(),
            middle,
            outputs.first(),
            blocks.drop_first().flatten(),
            end,
            outputs.drop_first().flatten(),
        );
    }
}

/// The output of a delay does not depend on how the stream is cut into blocks: where
/// every operation has one result, two cuts of one sequence of samples, run from one
/// state, give the same samples and leave the delay in the same state.
pub proof fn lemma_delay_segmentation<S: Sample>(
    start: DelayState<S>,
    blocks: Seq<Seq<S>>,
    end: DelayState<S>,
    outputs: Seq<Seq<S>>,
    other_blocks: Seq<Seq<S>>,
    other_end: DelayState<S>,
    other_outputs: Seq<Seq<S>>,
)
    requires
        single_valued::<S>(),
        start.window.len() >= 1,
        blocks.flatten() == other_blocks.flatten(),
        delayed_in_blocks(start, blocks, end, outputs),
        delayed_in_blocks(start, other_blocks, other_end, other_outputs),
    ensures
        outputs.flatten() == other_outputs.flatten(),
        end == other_end,
{
    lemma_delay_any_blocks(start, blocks, end, outputs);
    lemma_delay_any_blocks(start, other_blocks, other_end, other_outputs);
    lemma_delay_single_valued(
        start,
        blocks.flatten(),
        end,
        outputs.flatten(),
        other_end,
        other_outputs.flatten(),
    );
}

/// A delay without feedback is a pure delay: where `dry + delayed * feedback` is `dry`
/// for every `dry` and `delayed`, the line holds the input itself, so the sample mixed
/// into output `i` is the input sample of `start.window.len()` steps earlier, or one of
/// the line's first contents while `i < start.window.len()`.
pub proof fn lemma_pure_delay<S: Sample>(
    start: DelayState<S>,
    input: Seq<S>,
    end: DelayState<S>,
    output: Seq<S>,
)
    requires
        forall|dry: S, delayed: S, r: S| #[trigger]
            is_mix(dry, delayed, start.feedback, r) ==> r == dry,
        delayed_by(start, input, end, output),
    ensures
        output.len() == input.len(),
        end == (DelayState { window: window_after(start.window, input), ..start }),
        forall|i: int|
            0 <= i < input.len() ==> is_mix(
                input[i],
                leaving(start.window, input, i),
                start.mix,
                #[trigger] output[i],
            ),
{
    let stored = choose|stored: Seq<S>| delay_trace(start, input, stored, end, output);
    assert forall|i: int| 0 <= i < input.len() implies stored[i] == input[i] by {
        assert(delay_step(start, input, stored, output, i));
    }
    assert(stored =~= input);
    assert forall|i: int| 0 <= i < input.len() implies is_mix(
        input[i],
        leaving(start.window, input, i),
        start.mix,
        #[trigger] output[i],
    ) by {
        assert(delay_step(start, input, stored, output, i));
    }
}

/// The first `done` steps of a run: what entered the line and what went out so far.
#[verifier::opaque]
spec fn trace_prefix<S: Sample>(
    first: DelayState<S>,
    input: Seq<S>,
    stored: Seq<S>,
    output: Seq<S>,
    done: int,
) -> bool {
    &&& stored.len() == done
    &&& forall|k: int| 0 <= k < done ==> #[trigger] delay_step(first, input, stored, output, k)
}

/// One more step of a run: `delayed` left the line, `entering` entered it, `out` went out.
proof fn lemma_trace_step<S: Sample>(
    first: DelayState<S>,
    input: Seq<S>,
    stored: Seq<S>,
    output: Seq<S>,
    done: int,
    delayed: S,
    entering: S,
    out: S,
)
    requires
        trace_prefix(first, input, stored, output, done),
        0 <= done < input.len(),
        done < output.len(),
        first.window.len() >= 1,
        delayed == window_after(first.window, stored)[0],
        is_mix(input[done], delayed, first.feedback, entering),
        is_mix(input[done], delayed, first.mix, out),
    ensures
        trace_prefix(first, input, stored.push(entering), output.update(done, out), done + 1),
        shifted(window_after(first.window, stored), entering) == window_after(
            first.window,
            stored.push(entering),
        ),
{
    reveal(trace_prefix);
    let grown = stored.push(entering);
    let output2 = output.update(done, out);
    assert(delayed == leaving(first.window, grown, done));
    assert forall|k: int| 0 <= k < done + 1 implies #[trigger] delay_step(
        first,
        input,
        grown,
        output2,
        k,
    ) by {
        if k < done {
            assert(delay_step(first, input, stored, output, k));
            assert(leaving(first.window, grown, k) == leaving(first.window, stored, k));
        }
    }
    assert(shifted(window_after(first.window, stored), entering) =~= window_after(
        first.window,
        grown,
    ));
}

impl<S: Sample> AudioEffect<S> for SimpleDelay<S> {
    /// The line holds at least one sample.
    open spec fn ready(&self) -> bool {
        self.wf() && self@.window.len() >= 1
    }

    fn process(&mut self, samples: &mut Vec<S>)
        ensures
            delayed_by(old(self)@, old(samples)@, final(self)@, final(samples)@),
    {
        let n = samples.len();
        let ghost first = self@;
        let ghost mut stored: Seq<S> = Seq::empty();
        let mut i: usize = 0;
        proof {
            reveal(trace_prefix);
            assert(self@.window =~= window_after(first.window, stored));
        }
        while i < n
            invariant
                i <= n,
                n == old(samples)@.len(),
                samples@.len() == n,
                first == old(self)@,
                first.window.len() >= 1,
                self.wf(),
                stored.len() == i,
                self@ == (DelayState { window: window_after(first.window, stored), ..first }),
                trace_prefix(first, old(samples)@, stored, samples@, i as int),
                forall|k: int| i <= k < n ==> samples@[k] == old(samples)@[k],
            decreases n - i,
        {
            let ghost output = samples@;
            let dry = samples[i];
            let delayed = self.delayed();
            let entering = mix(dry, delayed, self.feedback);
            let out = mix(dry, delayed, self.mix);
            samples[i] = out;
            self.store(entering);
            proof {
                lemma_trace_step(
                    first,
                    old(samples)@,
                    stored,
                    output,
                    i as int,
                    delayed,
                    entering,
                    out,
                );
                assert(samples@ == output.update(i as int, out));
                stored = stored.push(entering);
            }
            i = i + 1;
        }
        proof {
            reveal(trace_prefix);
            assert(delay_trace(old(self)@, old(samples)@, stored, self@, samples@));
        }
    }
}

} // verus!
