//! Choice of the text scale that fits a canvas.

use vstd::prelude::*;
use vstd::arithmetic::div_mod::lemma_div_is_ordered;
use vstd::arithmetic::power2::lemma2_to64;
use vstd::arithmetic::power2::lemma2_to64_rest;
use vstd::arithmetic::power2::lemma_pow2_pos;
use vstd::arithmetic::power2::lemma_pow2_strictly_increases;
use vstd::arithmetic::power2::lemma_pow2_unfold;
use vstd::arithmetic::power2::pow2;

verus! {

/// The number of binary digits of `n`: the position of its highest set bit,
/// counted from one, and zero for zero.
pub open spec fn bit_length(n: nat) -> nat
    decreases n,
{
    if n == 0 {
        0
    } else {
        1 + bit_length(n / 2)
    }
}

/// How many times the text, inflated by the safety multiplier, fits into
/// the canvas along one axis.
pub open spec fn fit_budget(canvas: nat, cells: nat, safety_multiplier: nat) -> nat {
    canvas / (cells * safety_multiplier)
}

/// The smaller of the bit lengths of the two budgets: that of the width,
/// which `glyph_count` glyphs of eight cells share, and that of the height
/// of sixteen cells.
pub open spec fn min_bit_length(
    canvas_width: nat,
    canvas_height: nat,
    glyph_count: nat,
    safety_multiplier: nat,
) -> nat {
    let width_bits = bit_length(fit_budget(canvas_width, glyph_count * 8, safety_multiplier));
    let height_bits = bit_length(fit_budget(canvas_height, 16, safety_multiplier));
    if width_bits <= height_bits {
        width_bits
    } else {
        height_bits
    }
}

/// The scale chosen for a canvas: two to the power of the smaller bit
/// length less one, and one where a budget is zero.
pub open spec fn scale_for(
    canvas_width: nat,
    canvas_height: nat,
    glyph_count: nat,
    safety_multiplier: nat,
) -> nat {
    let bits = min_bit_length(canvas_width, canvas_height, glyph_count, safety_multiplier);
    if bits > 0 {
        pow2((bits - 1) as nat)
    } else {
        1
    }
}

/// A positive number lies between the power of two of its bit length less
/// one and the next power of two.
pub proof fn lemma_bit_length_bounds(n: nat)
    requires
        n > 0,
    ensures
        bit_length(n) > 0,
        pow2((bit_length(n) - 1) as nat) <= n < pow2(bit_length(n)),
    decreases n,
{
    if n == 1 {
        assert(bit_length(1) == 1 + bit_length(0));
        lemma2_to64();
    } else {
        lemma_bit_length_bounds(n / 2);
        lemma_pow2_unfold(bit_length(n / 2));
        lemma_pow2_unfold(bit_length(n));
    }
}

/// The bit length never decreases as the number grows.
pub proof fn lemma_bit_length_monotonic(a: nat, b: nat)
    requires
        a <= b,
    ensures
        bit_length(a) <= bit_length(b),
    decreases b,
{
    if a > 0 {
        lemma_bit_length_monotonic(a / 2, b / 2);
    }
}

/// The number of binary digits of `n`.
fn bit_length_of(n: usize) -> (bits: u32)
    ensures
        bits == bit_length(n as nat),
        bits <= 64,
{
    let mut rest: usize = n;
    let mut bits: u32 = 0;
    proof {
        lemma2_to64();
    }
    while rest > 0
        invariant
            bits + bit_length(rest as nat) == bit_length(n as nat),
            bits <= 64,
            rest * pow2(bits as nat) <= n,
        decreases rest,
    {
        proof {
            lemma2_to64_rest();
            if bits >= 64 {
                lemma_pow2_strictly_increases(63, bits as nat);
                lemma_pow2_pos(bits as nat);
                assert(rest * pow2(bits as nat) >= pow2(bits as nat)) by (nonlinear_arith)
                    requires
                        rest >= 1,
                        pow2(bits as nat) > 0,
                ;
            }
            lemma_pow2_unfold((bits + 1) as nat);
            assert((rest / 2) * (2 * pow2(bits as nat)) <= rest * pow2(bits as nat))
                by (nonlinear_arith)
                requires
                    rest >= 0,
                    pow2(bits as nat) >= 0,
            ;
        }
        rest = rest / 2;
        bits = bits + 1;
    }
    bits
}

/// How many times `cells * safety_multiplier` fits into `canvas`; zero
/// where the product is larger than any canvas.
fn budget_of(canvas: usize, cells: usize, safety_multiplier: usize) -> (budget: usize)
    requires
        cells > 0,
        safety_multiplier > 0,
    ensures
        budget == fit_budget(canvas as nat, cells as nat, safety_multiplier as nat),
{
    assert(cells * safety_multiplier > 0) by (nonlinear_arith)
        requires
            cells > 0,
            safety_multiplier > 0,
    ;
    match cells.checked_mul(safety_multiplier) {
        Some(span) => canvas / span,
        None => {
            proof {
                let span = cells * safety_multiplier;
                assert(canvas as int / span == 0) by (nonlinear_arith)
                    requires
                        0 <= canvas < span,
                ;
            }
            0
        },
    }
}

/// The largest power-of-two scale at which `glyph_count` glyphs, inflated
/// by `safety_multiplier`, fit the canvas in both directions, and one where
/// they do not fit at all.
pub fn compute_scale(canvas_size: (usize, usize), glyph_count: usize, safety_multiplier: usize) -> (scale: isize)
    requires
        glyph_count > 0,
        safety_multiplier > 0,
    ensures
        scale == scale_for(
            canvas_size.0 as nat,
            canvas_size.1 as nat,
            glyph_count as nat,
            safety_multiplier as nat,
        ),
        scale >= 1,
        exists|k: nat| scale == pow2(k),
{
    proof {
        lemma_scale_is_power_of_two(
            canvas_size.0 as nat,
            canvas_size.1 as nat,
            glyph_count as nat,
            safety_multiplier as nat,
        );
    }
    let width_budget = match glyph_count.checked_mul(8) {
        Some(cells) => budget_of(canvas_size.0, cells, safety_multiplier),
        None => {
            proof {
                let span = glyph_count * 8 * safety_multiplier;
                assert(span > usize::MAX) by (nonlinear_arith)
                    requires
                        glyph_count * 8 > usize::MAX,
                        safety_multiplier >= 1,
                        span == glyph_count * 8 * safety_multiplier,
                ;
                assert(canvas_size.0 as int / span == 0) by (nonlinear_arith)
                    requires
                        0 <= canvas_size.0 < span,
                ;
            }
            0
        },
    };
    let height_budget = budget_of(canvas_size.1, 16, safety_multiplier);
    let width_bits = bit_length_of(width_budget);
    let height_bits = bit_length_of(height_budget);
    let bits = if width_bits <= height_bits {
        width_bits
    } else {
        height_bits
    };
    if bits == 0 {
        return 1;
    }
    proof {
        // The height budget is at most a sixteenth of the largest canvas.
        lemma_bit_length_bounds(height_budget as nat);
        assert(height_budget <= usize::MAX / 16) by {
            let span = 16 * safety_multiplier;
            assert(canvas_size.1 as int / span <= canvas_size.1 as int / 16) by (nonlinear_arith)
                requires
                    span >= 16,
                    canvas_size.1 >= 0,
            ;
        }
        if bits < height_bits {
            lemma_pow2_strictly_increases((bits - 1) as nat, (height_bits - 1) as nat);
        }
    }
    let mut scale: isize = 1;
    let mut k: u32 = 1;
    proof {
        lemma2_to64();
    }
    while k < bits
        invariant
            1 <= k <= bits,
            scale == pow2((k - 1) as nat),
            pow2((bits - 1) as nat) <= isize::MAX / 2,
        decreases bits - k,
    {
        proof {
            lemma_pow2_unfold(k as nat);
            if k < bits - 1 {
                lemma_pow2_strictly_increases(k as nat, (bits - 1) as nat);
            }
        }
        scale = scale * 2;
        k = k + 1;
    }
    proof {
        lemma_pow2_pos((bits - 1) as nat);
    }
    scale
}

/// The chosen scale is a power of two, and at least one.
pub proof fn lemma_scale_is_power_of_two(
    canvas_width: nat,
    canvas_height: nat,
    glyph_count: nat,
    safety_multiplier: nat,
)
    ensures
        scale_for(canvas_width, canvas_height, glyph_count, safety_multiplier) >= 1,
        exists|k: nat|
            scale_for(canvas_width, canvas_height, glyph_count, safety_multiplier) == pow2(k),
{
    let bits = min_bit_length(canvas_width, canvas_height, glyph_count, safety_multiplier);
    let scale = scale_for(canvas_width, canvas_height, glyph_count, safety_multiplier);
    if bits > 0 {
        lemma_pow2_pos((bits - 1) as nat);
        assert(scale == pow2((bits - 1) as nat));
    } else {
        lemma2_to64();
        assert(scale == pow2(0));
    }
}

/// A canvas that is at least as wide and as high never gets a smaller
/// scale.
pub proof fn lemma_scale_monotonic(
    canvas_width: nat,
    canvas_height: nat,
    wider: nat,
    higher: nat,
    glyph_count: nat,
    safety_multiplier: nat,
)
    requires
        glyph_count > 0,
        safety_multiplier > 0,
        canvas_width <= wider,
        canvas_height <= higher,
    ensures
        scale_for(canvas_width, canvas_height, glyph_count, safety_multiplier) <= scale_for(
            wider,
            higher,
            glyph_count,
            safety_multiplier,
        ),
{
    let width_span = glyph_count * 8 * safety_multiplier;
    let height_span = 16 * safety_multiplier;
    assert(width_span > 0) by (nonlinear_arith)
        requires
            glyph_count > 0,
            safety_multiplier > 0,
            width_span == glyph_count * 8 * safety_multiplier,
    ;
    lemma_div_is_ordered(canvas_width as int, wider as int, width_span as int);
    lemma_div_is_ordered(canvas_height as int, higher as int, height_span as int);
    lemma_bit_length_monotonic(canvas_width / width_span, wider / width_span);
    lemma_bit_length_monotonic(canvas_height / height_span, higher / height_span);
    let small = min_bit_length(canvas_width, canvas_height, glyph_count, safety_multiplier);
    let large = min_bit_length(wider, higher, glyph_count, safety_multiplier);
    assert(small <= large);
    lemma2_to64();
    if small > 0 {
        if small < large {
            lemma_pow2_strictly_increases((small - 1) as nat, (large - 1) as nat);
        }
    } else if large > 0 {
        lemma_pow2_pos((large - 1) as nat);
    }
}

/// Doubling the width and the height of the canvas together never
/// decreases the scale.
pub proof fn lemma_scale_doubling(
    canvas_width: nat,
    canvas_height: nat,
    glyph_count: nat,
    safety_multiplier: nat,
)
    requires
        glyph_count > 0,
        safety_multiplier > 0,
    ensures
        scale_for(canvas_width, canvas_height, glyph_count, safety_multiplier) <= scale_for(
            2 * canvas_width,
            2 * canvas_height,
            glyph_count,
            safety_multiplier,
        ),
{
    lemma_scale_monotonic(
        canvas_width,
        canvas_height,
        2 * canvas_width,
        2 * canvas_height,
        glyph_count,
        safety_multiplier,
    );
}

/// Where both budgets are positive, the text at the chosen scale, inflated
/// by the safety multiplier, fits the canvas in both directions; where one
/// is zero, the scale is one.
pub proof fn lemma_scale_fits(
    canvas_width: nat,
    canvas_height: nat,
    glyph_count: nat,
    safety_multiplier: nat,
)
    requires
        glyph_count > 0,
        safety_multiplier > 0,
    ensures
        ({
            let scale = scale_for(canvas_width, canvas_height, glyph_count, safety_multiplier);
            if min_bit_length(canvas_width, canvas_height, glyph_count, safety_multiplier) > 0 {
                &&& scale * (glyph_count * 8 * safety_multiplier) <= canvas_width
                &&& scale * (16 * safety_multiplier) <= canvas_height
            } else {
                scale == 1
            }
        }),
{
    let width_span = glyph_count * 8 * safety_multiplier;
    let height_span = 16 * safety_multiplier;
    let width_budget = canvas_width / width_span;
    let height_budget = canvas_height / height_span;
    let bits = min_bit_length(canvas_width, canvas_height, glyph_count, safety_multiplier);
    let scale = scale_for(canvas_width, canvas_height, glyph_count, safety_multiplier);
    assert(width_span > 0) by (nonlinear_arith)
        requires
            glyph_count > 0,
            safety_multiplier > 0,
            width_span == glyph_count * 8 * safety_multiplier,
    ;
    if bits > 0 {
        assert(width_budget > 0 && height_budget > 0);
        lemma_bit_length_bounds(width_budget);
        lemma_bit_length_bounds(height_budget);
        if bits < bit_length(width_budget) {
            lemma_pow2_strictly_increases((bits - 1) as nat, (bit_length(width_budget) - 1) as nat);
        }
        if bits < bit_length(height_budget) {
            lemma_pow2_strictly_increases(
                (bits - 1) as nat,
                (bit_length(height_budget) - 1) as nat,
            );
        }
        assert(scale * width_span <= canvas_width) by (nonlinear_arith)
            requires
                scale <= width_budget,
                width_budget == canvas_width / width_span,
                width_span > 0,
        ;
        assert(scale * height_span <= canvas_height) by (nonlinear_arith)
            requires
                scale <= height_budget,
                height_budget == canvas_height / height_span,
                height_span > 0,
        ;
    }
}

} // verus!
