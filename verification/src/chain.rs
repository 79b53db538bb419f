//! The effect chain: effects in a fixed order, each one's output the next one's input.

use vstd::prelude::*;
use crate::config::{ConfigError, EffectConfig};
use crate::delay::{
    delay_trace, delayed_by, lemma_delay_blocks, lemma_delay_single_valued, DelayState,
    SimpleDelay,
};
use crate::effects::{
    crushed, gained, lemma_crush_blocks, lemma_crush_single_valued, lemma_gain_blocks,
    lemma_gain_single_valued, AudioEffect, BitCrusher, Gain,
};
use crate::sample::{single_valued, Sample};

verus! {

/// One effect of a chain: one of the three kinds.
pub enum Effect<S> {
    BitCrusher(BitCrusher),
    Delay(SimpleDelay<S>),
    Gain(Gain<S>),
}

/// An effect as contracts see it: its kind, its parameters and, for a delay, what its
/// line holds.
pub enum EffectState<S> {
    BitCrusher { bits: u32 },
    Delay(DelayState<S>),
    Gain { amount: S },
}

impl<S> View for Effect<S> {
    type V = EffectState<S>;

    open spec fn view(&self) -> EffectState<S> {
        match self {
            Effect::BitCrusher(crusher) => EffectState::BitCrusher { bits: crusher.bits },
            Effect::Delay(delay) => EffectState::Delay(delay@),
            Effect::Gain(gain) => EffectState::Gain { amount: gain.amount },
        }
    }
}

/// The effect in state `before` turns the block `input` into `output` and is left in
/// state `after`.
pub open spec fn transformed<S: Sample>(
    before: EffectState<S>,
    input: Seq<S>,
    after: EffectState<S>,
    output: Seq<S>,
) -> bool {
    match before {
        EffectState::BitCrusher { bits } => after == before && crushed(bits, input, output),
        EffectState::Delay(line) => {
            &&& after matches EffectState::Delay(next)
            &&& delayed_by(line, input, next, output)
        },
        EffectState::Gain { amount } => after == before && gained(amount, input, output),
    }
}

impl<S: Sample> AudioEffect<S> for Effect<S> {
    open spec fn ready(&self) -> bool {
        match self {
            Effect::BitCrusher(crusher) => AudioEffect::<S>::ready(crusher),
            Effect::Delay(delay) => delay.ready(),
            Effect::Gain(gain) => gain.ready(),
        }
    }

    fn process(&mut self, samples: &mut Vec<S>)
        ensures
            transformed(old(self)@, old(samples)@, final(self)@, final(samples)@),
    {
        match self {
            Effect::BitCrusher(crusher) => crusher.process(samples),
            Effect::Delay(delay) => delay.process(samples),
            Effect::Gain(gain) => gain.process(samples),
        }
    }
}

/// The chain in state `before` turns the block `input` into `output` and is left in state
/// `after`: the first effect works on `input`, every later one on what the one before it
/// gave, and `output` is what the last one gives.
pub open spec fn chained<S: Sample>(
    before: Seq<EffectState<S>>,
    input: Seq<S>,
    after: Seq<EffectState<S>>,
    output: Seq<S>,
) -> bool
    decreases before.len(),
{
    if before.len() == 0 {
        after.len() == 0 && output == input
    } else {
        &&& after.len() == before.len()
        &&& exists|mid: Seq<S>|
            chained(before.drop_last(), input, after.drop_last(), mid) && #[trigger] transformed(
                before.last(),
                mid,
                after.last(),
                output,
            )
    }
}

/// `after` is an effect of the same kind and with the same settings as `before`. A delay
/// line keeps its length.
pub open spec fn same_settings<S>(before: EffectState<S>, after: EffectState<S>) -> bool {
    match before {
        EffectState::BitCrusher { .. } => after == before,
        EffectState::Delay(line) => {
            &&& after matches EffectState::Delay(next)
            &&& next.feedback == line.feedback
            &&& next.mix == line.mix
            &&& next.window.len() == line.window.len()
        },
        EffectState::Gain { .. } => after == before,
    }
}

/// An effect never changes the length of a block, nor its own kind and settings.
pub proof fn lemma_effect_keeps_shape<S: Sample>(
    before: EffectState<S>,
    input: Seq<S>,
    after: EffectState<S>,
    output: Seq<S>,
)
    requires
        transformed(before, input, after, output),
    ensures
        output.len() == input.len(),
        same_settings(before, after),
{
    if let EffectState::Delay(line) = before {
        let next = after->Delay_0;
        let stored = choose|stored: Seq<S>| delay_trace(line, input, stored, next, output);
        assert(next.window.len() == line.window.len());
    }
}

/// A chain never changes the length of a block, and it stays the chain that was built:
/// the same effects in the same order, each with its settings.
pub proof fn lemma_chain_keeps_shape<S: Sample>(
    before: Seq<EffectState<S>>,
    input: Seq<S>,
    after: Seq<EffectState<S>>,
    output: Seq<S>,
)
    requires
        chained(before, input, after, output),
    ensures
        output.len() == input.len(),
        after.len() == before.len(),
        forall|i: int| 0 <= i < before.len() ==> same_settings(#[trigger] before[i], after[i]),
    decreases before.len(),
{
    if before.len() > 0 {
        let mid = choose|mid: Seq<S>|
            chained(before.drop_last(), input, after.drop_last(), mid) && #[trigger] transformed(
                before.last(),
                mid,
                after.last(),
                output,
            );
        lemma_chain_keeps_shape(before.drop_last(), input, after.drop_last(), mid);
        lemma_effect_keeps_shape(before.last(), mid, after.last(), output);
        assert forall|i: int| 0 <= i < before.len() implies same_settings(
            #[trigger] before[i],
            after[i],
        ) by {
            if i < before.len() - 1 {
                assert(before[i] == before.drop_last()[i]);
                assert(after[i] == after.drop_last()[i]);
            }
        }
    }
}

/// The line of a delay holds at least one sample.
pub open spec fn has_line<S>(state: EffectState<S>) -> bool {
    state matches EffectState::Delay(line) ==> line.window.len() >= 1
}

/// Where every operation has one result, an effect that works on two adjacent blocks one
/// after the other does what it does on their concatenation.
pub proof fn lemma_effect_blocks<S: Sample>(
    start: EffectState<S>,
    first: Seq<S>,
    middle: EffectState<S>,
    first_out: Seq<S>,
    second: Seq<S>,
    end: EffectState<S>,
    second_out: Seq<S>,
)
    requires
        single_valued::<S>(),
        transformed(start, first, middle, first_out),
        transformed(middle, second, end, second_out),
    ensures
        transformed(start, first + second, end, first_out + second_out),
{
    match start {
        EffectState::BitCrusher { bits } => {
            lemma_crush_blocks(bits, first, second, first_out, second_out);
        },
        EffectState::Delay(line) => {
            lemma_delay_blocks(
                line,
                first,
                middle->Delay_0,
                first_out,
                second,
                end->Delay_0,
                second_out,
            );
        },
        EffectState::Gain { amount } => {
            lemma_gain_blocks(amount, first, second, first_out, second_out);
        },
    }
}

/// Where every operation has one result, an effect in a given state gives one output
/// for a block and is left in one state.
pub proof fn lemma_effect_single_valued<S: Sample>(
    start: EffectState<S>,
    input: Seq<S>,
    end: EffectState<S>,
    output: Seq<S>,
    other_end: EffectState<S>,
    other_output: Seq<S>,
)
    requires
        single_valued::<S>(),
        has_line(start),
        transformed(start, input, end, output),
        transformed(start, input, other_end, other_output),
    ensures
        output == other_output,
        end == other_end,
{
    match start {
        EffectState::BitCrusher { bits } => {
            lemma_crush_single_valued(bits, input, output, other_output);
        },
        EffectState::Delay(line) => {
            lemma_delay_single_valued(
                line,
                input,
                end->Delay_0,
                output,
                other_end->Delay_0,
                other_output,
            );
        },
        EffectState::Gain { amount } => {
            lemma_gain_single_valued(amount, input, output, other_output);
        },
    }
}

/// Block boundaries do not show in what a chain does: where every operation has one
/// result, a chain that works on two adjacent blocks one after the other does what it
/// does on their concatenation.
pub proof fn lemma_chain_blocks<S: Sample>(
    start: Seq<EffectState<S>>,
    first: Seq<S>,
    middle: Seq<EffectState<S>>,
    first_out: Seq<S>,
    second: Seq<S>,
    end: Seq<EffectState<S>>,
    second_out: Seq<S>,
)
    requires
        single_valued::<S>(),
        chained(start, first, middle, first_out),
        chained(middle, second, end, second_out),
    ensures
        chained(start, first + second, end, first_out + second_out),
    decreases start.len(),
{
    if start.len() > 0 {
        let mid1 = choose|mid: Seq<S>|
            chained(start.drop_last(), first, middle.drop_last(), mid) && #[trigger] transformed(
                start.last(),
                mid,
                middle.last(),
                first_out,
            );
        let mid2 = choose|mid: Seq<S>|
            chained(middle.drop_last(), second, end.drop_last(), mid) && #[trigger] transformed(
                middle.last(),
                mid,
                end.last(),
                second_out,
            );
        lemma_chain_blocks(
            start.drop_last(),
            first,
            middle.drop_last(),
            mid1,
            second,
            end.drop_last(),
            mid2,
        );
        lemma_effect_blocks(
            start.last(),
            mid1,
            middle.last(),
            first_out,
            mid2,
            end.last(),
            second_out,
        );
        lemma_chained_extends(start, first + second, end, mid1 + mid2, first_out + second_out);
    }
}

/// Where every operation has one result, a chain in a given state gives one output for
/// a block and is left in one state.
pub proof fn lemma_chain_single_valued<S: Sample>(
    start: Seq<EffectState<S>>,
    input: Seq<S>,
    end: Seq<EffectState<S>>,
    output: Seq<S>,
    other_end: Seq<EffectState<S>>,
    other_output: Seq<S>,
)
    requires
        single_valued::<S>(),
        forall|i: int| 0 <= i < start.len() ==> has_line(#[trigger] start[i]),
        chained(start, input, end, output),
        chained(start, input, other_end, other_output),
    ensures
        output == other_output,
        end == other_end,
    decreases start.len(),
{
    if start.len() > 0 {
        let mid1 = choose|mid: Seq<S>|
            chained(start.drop_last(), input, end.drop_last(), mid) && #[trigger] transformed(
                start.last(),
                mid,
                end.last(),
                output,
            );
        let mid2 = choose|mid: Seq<S>|
            chained(start.drop_last(), input, other_end.drop_last(), mid)
                && #[trigger] transformed(start.last(), mid, other_end.last(), other_output);
        assert forall|i: int| 0 <= i < start.drop_last().len() implies has_line(
            #[trigger] start.drop_last()[i],
        ) by {
            assert(start.drop_last()[i] == start[i]);
        }
        lemma_chain_single_valued(
            start.drop_last(),
            input,
            end.drop_last(),
            mid1,
            other_end.drop_last(),
            mid2,
        );
        assert(has_line(start.last()));
        lemma_effect_single_valued(
            start.last(),
            mid1,
            end.last(),
            output,
            other_end.last(),
            other_output,
        );
        assert(end =~= end.drop_last().push(end.last()));
        assert(other_end =~= other_end.drop_last().push(other_end.last()));
    } else {
        assert(end =~= other_end);
    }
}

/// A chain that has turned `input` into `mid`, followed by one more effect that turns `mid`
/// into `output`, is a chain that turns `input` into `output`.
pub proof fn lemma_chained_extends<S: Sample>(
    before: Seq<EffectState<S>>,
    input: Seq<S>,
    after: Seq<EffectState<S>>,
    mid: Seq<S>,
    output: Seq<S>,
)
    requires
        before.len() >= 1,
        after.len() == before.len(),
        chained(before.drop_last(), input, after.drop_last(), mid),
        transformed(before.last(), mid, after.last(), output),
    ensures
        chained(before, input, after, output),
{
}

/// The effects of one job, in the order in which the job lists them. A chain belongs to
/// one job and one stream: the state of its effects is never carried over to another.
pub struct EffectChain<S> {
    effects: Vec<Effect<S>>,
}

impl<S> View for EffectChain<S> {
    type V = Seq<EffectState<S>>;

    closed spec fn view(&self) -> Seq<EffectState<S>> {
        Seq::new(self.effects@.len(), |i: int| self.effects@[i]@)
    }
}

impl<S: Sample> EffectChain<S> {
    /// Every effect of the chain can process a block.
    pub closed spec fn ready(&self) -> bool {
        forall|i: int| 0 <= i < self.effects@.len() ==> (#[trigger] self.effects@[i]).ready()
    }

    /// `r` is what building a chain from `configs` at `sample_rate` gives: a chain with
    /// one effect for each configuration, in the same order and each in its first state,
    /// where every configuration can be built; else the error of the first one that
    /// cannot.
    pub open spec fn built(
        configs: Seq<EffectConfig<S>>,
        sample_rate: usize,
        r: Result<Self, ConfigError>,
    ) -> bool {
        match r {
            Ok(chain) => {
                &&& chain.ready()
                &&& chain@.len() == configs.len()
                &&& forall|i: int|
                    0 <= i < configs.len() ==> {
                        &&& (#[trigger] configs[i]).fault_at(sample_rate) is None
                        &&& configs[i].describes(sample_rate, chain@[i])
                    }
            },
            Err(e) => exists|i: int|
                {
                    &&& 0 <= i < configs.len()
                    &&& (#[trigger] configs[i]).fault_at(sample_rate) == Some(e)
                    &&& forall|j: int|
                        0 <= j < i ==> (#[trigger] configs[j]).fault_at(sample_rate) is None
                },
        }
    }

    /// Builds the chain for a stream of `sample_rate` samples per second.
    pub fn build(configs: Vec<EffectConfig<S>>, sample_rate: usize) -> (r: Result<
        Self,
        ConfigError,
    >)
        ensures
            Self::built(configs@, sample_rate, r),
    {
        let mut effects: Vec<Effect<S>> = Vec::new();
        let n = configs.len();
        let mut i: usize = 0;
        while i < n
            invariant
                i <= n,
                n == configs@.len(),
                effects@.len() == i,
                forall|k: int| 0 <= k < i ==> (#[trigger] effects@[k]).ready(),
                forall|k: int|
                    0 <= k < i ==> {
                        &&& (#[trigger] configs@[k]).fault_at(sample_rate) is None
                        &&& configs@[k].describes(sample_rate, effects@[k]@)
                    },
            decreases n - i,
        {
            let config = configs[i];
            match config.into_effect(sample_rate) {
                Ok(effect) => {
                    effects.push(effect);
                },
                Err(e) => {
                    return Err(e);
                },
            }
            i = i + 1;
        }
        let chain = EffectChain { effects };
        Ok(chain)
    }

    /// The number of effects in the chain.
    pub fn len(&self) -> (n: usize)
        ensures
            n == self@.len(),
    {
        self.effects.len()
    }

    /// Applies every effect of the chain to the block, in the chain's order, each effect
    /// to the output of the one before it. Blocks are handed to a chain in stream order.
    pub fn process_block(&mut self, block: &mut Vec<S>)
        requires
            old(self).ready(),
        ensures
            final(self).ready(),
            chained(old(self)@, old(block)@, final(self)@, final(block)@),
            final(self)@.len() == old(self)@.len(),
            final(block)@.len() == old(block)@.len(),
    {
        let n = self.effects.len();
        let mut i: usize = 0;
        assert(old(self)@.take(0) =~= Seq::empty());
        assert(self@.take(0) =~= Seq::empty());
        while i < n
            invariant
                i <= n,
                n == old(self).effects@.len(),
                self.effects@.len() == n,
                block@.len() == old(block)@.len(),
                forall|k: int| 0 <= k < n ==> (#[trigger] self.effects@[k]).ready(),
                forall|k: int| i <= k < n ==> self.effects@[k] == old(self).effects@[k],
                chained(old(self)@.take(i as int), old(block)@, self@.take(i as int), block@),
            decreases n - i,
        {
            let ghost mid = block@;
            let ghost states = self@;
            self.effects[i].process(block);
            proof {
                let before = old(self)@.take(i + 1);
                let after = self@.take(i + 1);
                assert(before.drop_last() =~= old(self)@.take(i as int));
                assert(after.drop_last() =~= states.take(i as int));
                assert(chained(before.drop_last(), old(block)@, after.drop_last(), mid));
                assert(transformed(before.last(), mid, after.last(), block@));
                assert(before.len() == i + 1 && after.len() == i + 1);
                lemma_chained_extends(before, old(block)@, after, mid, block@);
            }
            i = i + 1;
        }
        assert(old(self)@.take(n as int) =~= old(self)@);
        assert(self@.take(n as int) =~= self@);
    }
}

} // verus!
