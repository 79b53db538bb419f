//! The stateless effects, and the interface that every effect offers.

use vstd::prelude::*;
use crate::sample::{
    is_power_of_two, is_product, is_quantized, lemma_quantize_single_valued, quantize,
    single_valued, Sample,
};

verus! {

/// An effect: a transformer of blocks of interleaved samples (`[L, R, L, R, ...]`), applied
/// in place. An effect never changes the length of a block.
pub trait AudioEffect<S: Sample> {
    /// The effect can process a block: its configuration is valid and its state is sound.
    spec fn ready(&self) -> bool;

    /// Processes one block in place. Blocks are handed to an effect in stream order.
    fn process(&mut self, samples: &mut Vec<S>)
        requires
            old(self).ready(),
        ensures
            final(self).ready(),
            final(samples)@.len() == old(samples)@.len(),
    ;
}

/// Multiplies every sample by `amount`. The amount may exceed one (amplification) or be
/// negative (phase inversion); nothing is clamped.
pub struct Gain<S> {
    pub amount: S,
}

/// `output` is `input` with every sample multiplied by `amount`.
pub open spec fn gained<S: Sample>(amount: S, input: Seq<S>, output: Seq<S>) -> bool {
    &&& output.len() == input.len()
    &&& forall|i: int| 0 <= i < input.len() ==> is_product(input[i], amount, #[trigger] output[i])
}

/// Gaining two adjacent blocks one after the other is gaining their concatenation.
pub proof fn lemma_gain_blocks<S: Sample>(
    amount: S,
    first: Seq<S>,
    second: Seq<S>,
    first_out: Seq<S>,
    second_out: Seq<S>,
)
    requires
        first_out.len() == first.len(),
        second_out.len() == second.len(),
    ensures
        gained(amount, first + second, first_out + second_out) <==> gained(
            amount,
            first,
            first_out,
        ) && gained(amount, second, second_out),
{
    let input = first + second;
    let output = first_out + second_out;
    if gained(amount, input, output) {
        assert forall|i: int| 0 <= i < first.len() implies is_product(
            first[i],
            amount,
            #[trigger] first_out[i],
        ) by {
            assert(input[i] == first[i] && output[i] == first_out[i]);
        }
        assert forall|i: int| 0 <= i < second.len() implies is_product(
            second[i],
            amount,
            #[trigger] second_out[i],
        ) by {
            assert(input[first.len() + i] == second[i] && output[first.len() + i] == second_out[i]);
        }
    }
    if gained(amount, first, first_out) && gained(amount, second, second_out) {
        assert forall|i: int| 0 <= i < input.len() implies is_product(
            input[i],
            amount,
            #[trigger] output[i],
        ) by {
            if i < first.len() {
                assert(input[i] == first[i] && output[i] == first_out[i]);
            } else {
                assert(input[i] == second[i - first.len()] && output[i] == second_out[i
                    - first.len()]);
            }
        }
    }
}

/// Where multiplication has one result, a block has one gained output. So a sequence
/// gained in two adjacent blocks comes out as it does when gained at once.
pub proof fn lemma_gain_single_valued<S: Sample>(
    amount: S,
    input: Seq<S>,
    output: Seq<S>,
    other: Seq<S>,
)
    requires
        single_valued::<S>(),
        gained(amount, input, output),
        gained(amount, input, other),
    ensures
        output == other,
{
    assert(output =~= other);
}

impl<S: Sample> AudioEffect<S> for Gain<S> {
    open spec fn ready(&self) -> bool {
        true
    }

    fn process(&mut self, samples: &mut Vec<S>)
        ensures
            *final(self) == *old(self),
            gained(old(self).amount, old(samples)@, final(samples)@),
    {
        let n = samples.len();
        let mut i: usize = 0;
        while i < n
            invariant
                i <= n,
                n == old(samples)@.len(),
                samples@.len() == n,
                *self == *old(self),
                forall|k: int| 0 <= k < i ==> is_product(old(samples)@[k], self.amount, #[trigger] samples@[k]),
                forall|k: int| i <= k < n ==> samples@[k] == old(samples)@[k],
            decreases n - i,
        {
            let x = samples[i];
            samples[i] = x.times(self.amount);
            i = i + 1;
        }
    }
}

/// Digital distortion: moves every sample to the nearest of the levels that are
/// `1 / 2^bits` apart.
pub struct BitCrusher {
    pub bits: u32,
}

/// `output` is `input` with every sample quantized to steps of `1 / 2^bits`, with one value
/// of `2^bits` for the whole block.
pub open spec fn crushed<S: Sample>(bits: u32, input: Seq<S>, output: Seq<S>) -> bool {
    &&& output.len() == input.len()
    &&& exists|steps: S| #[trigger]
        is_power_of_two(bits, steps) && crushed_with(steps, input, output)
}

/// `output` is `input` with every sample quantized to steps of `1 / steps`.
pub open spec fn crushed_with<S: Sample>(steps: S, input: Seq<S>, output: Seq<S>) -> bool {
    &&& output.len() == input.len()
    &&& forall|i: int| 0 <= i < input.len() ==> is_quantized(input[i], steps, #[trigger] output[i])
}

/// Where every operation has one result, a block has one crushed output.
pub proof fn lemma_crush_single_valued<S: Sample>(
    bits: u32,
    input: Seq<S>,
    output: Seq<S>,
    other: Seq<S>,
)
    requires
        single_valued::<S>(),
        crushed(bits, input, output),
        crushed(bits, input, other),
    ensures
        output == other,
{
    let steps1 = choose|steps: S| #[trigger]
        is_power_of_two(bits, steps) && crushed_with(steps, input, output);
    let steps2 = choose|steps: S| #[trigger]
        is_power_of_two(bits, steps) && crushed_with(steps, input, other);
    assert(steps1 == steps2);
    assert forall|i: int| 0 <= i < input.len() implies output[i] == other[i] by {
        lemma_quantize_single_valued(input[i], steps1, output[i], other[i]);
    }
    assert(output =~= other);
}

/// Where every operation has one result, crushing two adjacent blocks one after the
/// other is crushing their concatenation.
pub proof fn lemma_crush_blocks<S: Sample>(
    bits: u32,
    first: Seq<S>,
    second: Seq<S>,
    first_out: Seq<S>,
    second_out: Seq<S>,
)
    requires
        single_valued::<S>(),
        crushed(bits, first, first_out),
        crushed(bits, second, second_out),
    ensures
        crushed(bits, first + second, first_out + second_out),
{
    let steps1 = choose|steps: S| #[trigger]
        is_power_of_two(bits, steps) && crushed_with(steps, first, first_out);
    let steps2 = choose|steps: S| #[trigger]
        is_power_of_two(bits, steps) && crushed_with(steps, second, second_out);
    assert(steps1 == steps2);
    let input = first + second;
    let output = first_out + second_out;
    assert forall|i: int| 0 <= i < input.len() implies is_quantized(
        input[i],
        steps1,
        #[trigger] output[i],
    ) by {
        if i < first.len() {
            assert(input[i] == first[i] && output[i] == first_out[i]);
        } else {
            assert(input[i] == second[i - first.len()] && output[i] == second_out[i
                - first.len()]);
        }
    }
    assert(is_power_of_two(bits, steps1) && crushed_with(steps1, input, output));
}

impl<S: Sample> AudioEffect<S> for BitCrusher {
    open spec fn ready(&self) -> bool {
        self.bits >= 1
    }

    fn process(&mut self, samples: &mut Vec<S>)
        ensures
            *final(self) == *old(self),
            crushed(old(self).bits, old(samples)@, final(samples)@),
    {
        let steps = S::power_of_two(self.bits);
        let n = samples.len();
        let mut i: usize = 0;
        while i < n
            invariant
                i <= n,
                n == old(samples)@.len(),
                samples@.len() == n,
                forall|k: int| 0 <= k < i ==> is_quantized(old(samples)@[k], steps, #[trigger] samples@[k]),
                forall|k: int| i <= k < n ==> samples@[k] == old(samples)@[k],
            decreases n - i,
        {
            let x = samples[i];
            samples[i] = quantize(x, steps);
            i = i + 1;
        }
        assert(is_power_of_two(self.bits, steps) && crushed_with(steps, old(samples)@, samples@));
    }
}

} // verus!
