//! The arithmetic of audio samples.
//!
//! The effects are written once, for any sample type that offers the few operations
//! below. The library never looks into a sample: it passes samples to these operations
//! and stores what they return. What an effect guarantees of its output is therefore
//! stated through the operations: "`r` is a result of `plus` on `a` and `b`". A sample
//! type whose operations promise more gives its callers more.

use vstd::prelude::*;

verus! {

/// One audio sample, with the arithmetic that the effects need.
pub trait Sample: Copy {
    /// The sample of a silent signal: zero.
    fn silence() -> Self;

    /// `self + other`.
    fn plus(self, other: Self) -> Self;

    /// `self * factor`.
    fn times(self, factor: Self) -> Self;

    /// `self / divisor`.
    fn over(self, divisor: Self) -> Self;

    /// The nearest whole number to `self`.
    fn rounded(self) -> Self;

    /// Two to the power `bits`.
    fn power_of_two(bits: u32) -> Self;
}

/// `r` is a result of `S::silence()`.
pub open spec fn is_silence<S: Sample>(r: S) -> bool {
    call_ensures(S::silence, (), r)
}

/// `r` is a result of `a.plus(b)`.
pub open spec fn is_sum<S: Sample>(a: S, b: S, r: S) -> bool {
    call_ensures(S::plus, (a, b), r)
}

/// `r` is a result of `a.times(b)`.
pub open spec fn is_product<S: Sample>(a: S, b: S, r: S) -> bool {
    call_ensures(S::times, (a, b), r)
}

/// `r` is a result of `a.over(b)`.
pub open spec fn is_quotient<S: Sample>(a: S, b: S, r: S) -> bool {
    call_ensures(S::over, (a, b), r)
}

/// `r` is a result of `a.rounded()`.
pub open spec fn is_rounded<S: Sample>(a: S, r: S) -> bool {
    call_ensures(S::rounded, (a,), r)
}

/// `r` is a result of `S::power_of_two(bits)`.
pub open spec fn is_power_of_two<S: Sample>(bits: u32, r: S) -> bool {
    call_ensures(S::power_of_two, (bits,), r)
}

/// `r` is a result of `dry + delayed * factor`: the product first, then the sum.
pub open spec fn is_mix<S: Sample>(dry: S, delayed: S, factor: S, r: S) -> bool {
    exists|wet: S| #[trigger] is_product(delayed, factor, wet) && is_sum(dry, wet, r)
}

/// `r` is a result of `round(x * steps) / steps`.
pub open spec fn is_quantized<S: Sample>(x: S, steps: S, r: S) -> bool {
    exists|scaled: S, whole: S|
        #![trigger is_product(x, steps, scaled), is_rounded(scaled, whole)]
        is_product(x, steps, scaled) && is_rounded(scaled, whole) && is_quotient(whole, steps, r)
}

/// Every operation of `S` has one result for given operands: two results of the same
/// operation on the same operands are equal.
pub open spec fn single_valued<S: Sample>() -> bool {
    &&& forall|r1: S, r2: S| #![trigger is_silence(r1), is_silence(r2)]
        is_silence(r1) && is_silence(r2) ==> r1 == r2
    &&& forall|a: S, b: S, r1: S, r2: S| #![trigger is_sum(a, b, r1), is_sum(a, b, r2)]
        is_sum(a, b, r1) && is_sum(a, b, r2) ==> r1 == r2
    &&& forall|a: S, b: S, r1: S, r2: S| #![trigger is_product(a, b, r1), is_product(a, b, r2)]
        is_product(a, b, r1) && is_product(a, b, r2) ==> r1 == r2
    &&& forall|a: S, b: S, r1: S, r2: S| #![trigger is_quotient(a, b, r1), is_quotient(a, b, r2)]
        is_quotient(a, b, r1) && is_quotient(a, b, r2) ==> r1 == r2
    &&& forall|a: S, r1: S, r2: S| #![trigger is_rounded(a, r1), is_rounded(a, r2)]
        is_rounded(a, r1) && is_rounded(a, r2) ==> r1 == r2
    &&& forall|bits: u32, r1: S, r2: S| #![trigger is_power_of_two(bits, r1), is_power_of_two(bits, r2)]
        is_power_of_two(bits, r1) && is_power_of_two(bits, r2) ==> r1 == r2
}

/// Where every operation has one result, so has `dry + delayed * factor`.
pub proof fn lemma_mix_single_valued<S: Sample>(dry: S, delayed: S, factor: S, r1: S, r2: S)
    requires
        single_valued::<S>(),
        is_mix(dry, delayed, factor, r1),
        is_mix(dry, delayed, factor, r2),
    ensures
        r1 == r2,
{
    let wet1 = choose|wet: S| #[trigger] is_product(delayed, factor, wet) && is_sum(dry, wet, r1);
    let wet2 = choose|wet: S| #[trigger] is_product(delayed, factor, wet) && is_sum(dry, wet, r2);
    assert(wet1 == wet2);
}

/// Where every operation has one result, so has `round(x * steps) / steps`.
pub proof fn lemma_quantize_single_valued<S: Sample>(x: S, steps: S, r1: S, r2: S)
    requires
        single_valued::<S>(),
        is_quantized(x, steps, r1),
        is_quantized(x, steps, r2),
    ensures
        r1 == r2,
{
    let (scaled1, whole1) = choose|scaled: S, whole: S|
        #![trigger is_product(x, steps, scaled), is_rounded(scaled, whole)]
        is_product(x, steps, scaled) && is_rounded(scaled, whole) && is_quotient(whole, steps, r1);
    let (scaled2, whole2) = choose|scaled: S, whole: S|
        #![trigger is_product(x, steps, scaled), is_rounded(scaled, whole)]
        is_product(x, steps, scaled) && is_rounded(scaled, whole) && is_quotient(whole, steps, r2);
    assert(scaled1 == scaled2);
    assert(whole1 == whole2);
}

/// Quantizing is idempotent: a quantized sample is not changed by quantizing it again
/// with the same steps.
///
/// This holds where every operation has one result and where, for every whole number
/// `w` that rounding gives, rounding `w` again gives `w`, and dividing `w` by `steps` and
/// multiplying the quotient by `steps` gives `w` back.
pub proof fn lemma_quantize_idempotent<S: Sample>(x: S, steps: S, once: S, twice: S)
    requires
        single_valued::<S>(),
        forall|a: S, w: S, r: S| #![trigger is_rounded(a, w), is_rounded(w, r)]
            is_rounded(a, w) && is_rounded(w, r) ==> r == w,
        forall|a: S, w: S, q: S, p: S|
            #![trigger is_rounded(a, w), is_quotient(w, steps, q), is_product(q, steps, p)]
            is_rounded(a, w) && is_quotient(w, steps, q) && is_product(q, steps, p) ==> p == w,
        is_quantized(x, steps, once),
        is_quantized(once, steps, twice),
    ensures
        twice == once,
{
    let (scaled1, whole1) = choose|scaled: S, whole: S|
        #![trigger is_product(x, steps, scaled), is_rounded(scaled, whole)]
        is_product(x, steps, scaled) && is_rounded(scaled, whole) && is_quotient(
            whole,
            steps,
            once,
        );
    let (scaled2, whole2) = choose|scaled: S, whole: S|
        #![trigger is_product(once, steps, scaled), is_rounded(scaled, whole)]
        is_product(once, steps, scaled) && is_rounded(scaled, whole) && is_quotient(
            whole,
            steps,
            twice,
        );
    assert(scaled2 == whole1);
    assert(whole2 == whole1);
}

/// `dry + delayed * factor`.
pub fn mix<S: Sample>(dry: S, delayed: S, factor: S) -> (r: S)
    ensures
        is_mix(dry, delayed, factor, r),
{
    let wet = delayed.times(factor);
    assert(is_product(delayed, factor, wet));
    dry.plus(wet)
}

/// `round(x * steps) / steps`: `x` moved to the nearest multiple of `1 / steps`.
pub fn quantize<S: Sample>(x: S, steps: S) -> (r: S)
    ensures
        is_quantized(x, steps, r),
{
    let scaled = x.times(steps);
    let whole = scaled.rounded();
    assert(is_product(x, steps, scaled) && is_rounded(scaled, whole));
    whole.over(steps)
}

} // verus!
