//! Random draws, and how a draw is spread over a span.

use vstd::prelude::*;

verus! {

/// The point of `0 .. span` that a draw of 64 bits stands for: the draw's upper
/// 53 bits, read as a fraction of one, times `span`, rounded down.
pub open spec fn sampled(draw: u64, span: int) -> int {
    ((draw as int / 2048) * span) / 0x20_0000_0000_0000
}

/// The point of `0 .. span` that `draw` stands for. Equal draws give equal
/// points; draws that are uniform over all 64-bit values give points that are
/// uniform over the span, as far as 53 bits can spread.
pub fn sample(draw: u64, span: u64) -> (r: u64)
    ensures
        r == sampled(draw, span as int),
        span > 0 ==> r < span,
        span == 0 ==> r == 0,
{
    let fraction: u128 = (draw / 2048) as u128;
    assert(fraction * span <= 0x1F_FFFF_FFFF_FFFF * 0xFFFF_FFFF_FFFF_FFFF) by (nonlinear_arith)
        requires
            0 <= fraction <= 0x1F_FFFF_FFFF_FFFF,
            0 <= span <= 0xFFFF_FFFF_FFFF_FFFF,
    ;
    let product: u128 = fraction * (span as u128);
    assert(span > 0 ==> product / 0x20_0000_0000_0000 < span) by (nonlinear_arith)
        requires
            product == fraction * span,
            0 <= fraction < 0x20_0000_0000_0000,
            0 <= span,
    ;
    assert(span == 0 ==> product == 0) by (nonlinear_arith)
        requires
            product == fraction * span,
    ;
    (product / 0x20_0000_0000_0000) as u64
}

/// Draws 64 random bits with `rand::random`, from the generator that `rand`
/// keeps for the calling thread. Nothing is claimed of the bits: any value may
/// come back, and two calls need not agree. `rand` panics where the operating
/// system gives it no seed for that generator.
#[verifier::external_body]
pub(crate) fn random_u64() -> (draw: u64) {
    rand::random::<u64>()
}

} // verus!
