//! The size of the thumbnail that stands for an image.
//!
//! The sizes are those of a computation in double precision: the proportion
//! of the image is taken as a double, the longest side allowed is divided or
//! multiplied by it, and the result loses its fraction. Both operations
//! round, so the scaled side is now and then one less than exact arithmetic
//! gives; `rounding` models the two operations over the integers.

use vstd::prelude::*;
use vstd::arithmetic::power2::{lemma2_to64, lemma2_to64_rest, lemma_pow2_adds, lemma_pow2_pos, pow2};
use crate::rounding::{
    int_over_double, int_times_double, lemma_one_is_exact, lemma_pow2_below, lemma_pow2_le,
    lemma_whole_part_bounded, nearest_double, nearest_double_of, power_of_two, saturated, shifted_up,
    truncate_to_u32, truncated,
};

verus! {

/// The longest side, in pixels, that a thumbnail may have.
pub const MAX_IMAGE_SIZE: u32 = 1280;

/// The shorter side of the thumbnail of an image that is wider than high:
/// the longest side divided by the proportion `width / height`, both
/// operations in double precision, without the fraction.
pub open spec fn scaled_height(width: int, height: int) -> int {
    saturated(truncated(int_over_double(MAX_IMAGE_SIZE as int, nearest_double(width, height))))
}

/// The shorter side of the thumbnail of an image that is not wider than
/// high: the longest side times the proportion `width / height`, both
/// operations in double precision, without the fraction.
pub open spec fn scaled_width(width: int, height: int) -> int {
    saturated(truncated(int_times_double(MAX_IMAGE_SIZE as int, nearest_double(width, height))))
}

/// The size of the thumbnail of an image of `width` by `height` pixels. An
/// image that fits is kept as it is; a larger one gets `MAX_IMAGE_SIZE` as
/// its longer side and the scaled other side. A side of no length stays so.
pub open spec fn thumbnail_dimensions(width: int, height: int) -> (int, int) {
    if width > MAX_IMAGE_SIZE || height > MAX_IMAGE_SIZE {
        if width > height {
            (
                MAX_IMAGE_SIZE as int,
                if height == 0 {
                    0
                } else {
                    scaled_height(width, height)
                },
            )
        } else {
            (
                if width == 0 {
                    0
                } else {
                    scaled_width(width, height)
                },
                MAX_IMAGE_SIZE as int,
            )
        }
    } else {
        (width, height)
    }
}

/// Computes the shorter side of the thumbnail of an image wider than high.
fn scale_height(width: u32, height: u32) -> (side: u32)
    requires
        width > height > 0,
    ensures
        side == scaled_height(width as int, height as int),
        side <= MAX_IMAGE_SIZE,
{
    proof {
        lemma2_to64();
        lemma2_to64_rest();
    }
    let (mantissa, up, down) = nearest_double_of(width as u128, height as u128);
    proof {
        // The proportion is below 2^32, so its exponent is below zero.
        lemma_pow2_pos(up as nat);
        assert(pow2(up as nat) <= height * pow2(up as nat)) by (nonlinear_arith)
            requires
                height >= 1,
                pow2(up as nat) >= 0,
        ;
        assert(pow2(0) == 1);
        assert(width * pow2(0) == width);
        lemma_pow2_below(up as nat, 32);
    }
    let shift: u128 = 52 - up;
    proof {
        lemma_pow2_le(shift as nat, 52);
        assert(1280 * pow2(shift as nat) <= 1280 * pow2(52)) by (nonlinear_arith)
            requires
                pow2(shift as nat) <= pow2(52),
        ;
    }
    let count = shifted_up(MAX_IMAGE_SIZE as u128, shift);
    let (mantissa2, up2, down2) = nearest_double_of(count, mantissa);
    proof {
        let proportion = nearest_double(width as int, height as int);
        assert(proportion.exponent == -(shift as int));
        assert(int_over_double(MAX_IMAGE_SIZE as int, proportion) == nearest_double(
            count as int,
            mantissa as int,
        ));
        // The proportion is at least one, so the quotient is at most 1280.
        assert(count <= 1280 * mantissa) by (nonlinear_arith)
            requires
                count == 1280 * pow2(shift as nat),
                pow2(shift as nat) <= mantissa,
        ;
        lemma_whole_part_bounded(count as int, mantissa as int, up2 as nat, down2 as nat, 1280);
    }
    truncate_to_u32(mantissa2, up2, down2)
}

/// Computes the shorter side of the thumbnail of an image not wider than
/// high.
fn scale_width(width: u32, height: u32) -> (side: u32)
    requires
        0 < width <= height,
    ensures
        side == scaled_width(width as int, height as int),
        side <= MAX_IMAGE_SIZE,
{
    proof {
        lemma2_to64();
        lemma2_to64_rest();
    }
    let (mantissa, up, down) = nearest_double_of(width as u128, height as u128);
    proof {
        // The proportion is at most one and at least 2^-32.
        assert(pow2(0) == 1);
        if width < height {
            lemma_pow2_pos(down as nat);
            assert(pow2(down as nat) <= width * pow2(down as nat)) by (nonlinear_arith)
                requires
                    width >= 1,
                    pow2(down as nat) >= 0,
            ;
            assert(height * pow2(0) == height);
            lemma_pow2_below(down as nat, 33);
        } else {
            assert(width * pow2(0) == width);
            if up > 0 {
                lemma_pow2_below(0, up as nat);
                assert(height * pow2(up as nat) >= height * 2) by (nonlinear_arith)
                    requires
                        pow2(up as nat) >= 2,
                        height >= 0,
                ;
            }
        }
        assert(up == 0);
        assert(down <= 32);
        assert(1280 * mantissa <= 1280 * pow2(53)) by (nonlinear_arith)
            requires
                mantissa <= pow2(53),
        ;
    }
    let shift: u128 = 52 + down;
    proof {
        lemma_pow2_le(shift as nat, 84);
        lemma_pow2_pos(shift as nat);
        lemma_pow2_adds(64, 20);
        assert(pow2(84) == 0x10_0000_0000_0000_0000_0000) by {
            assert(0x1_0000_0000_0000_0000int * 0x10_0000int == 0x10_0000_0000_0000_0000_0000int);
        }
    }
    let unit = power_of_two(shift);
    let count: u128 = (MAX_IMAGE_SIZE as u128) * mantissa;
    let (mantissa2, up2, down2) = nearest_double_of(count, unit);
    proof {
        let proportion = nearest_double(width as int, height as int);
        assert(proportion.exponent == -(shift as int));
        assert(int_times_double(MAX_IMAGE_SIZE as int, proportion) == nearest_double(
            count as int,
            unit as int,
        ));
        // The proportion is at most one, so the product is at most 1280.
        if down == 0 {
            lemma_one_is_exact(width as int);
            assert(width * pow2(0) * pow2(52) == width * pow2(52));
            assert(height * pow2(0) == width);
        } else {
            lemma_pow2_le(53, shift as nat);
        }
        assert(mantissa <= unit);
        lemma_whole_part_bounded(count as int, unit as int, up2 as nat, down2 as nat, 1280);
    }
    truncate_to_u32(mantissa2, up2, down2)
}

/// Computes the size of a thumbnail. Neither side of a scaled image is
/// longer than `MAX_IMAGE_SIZE`.
pub fn calculate_thumbnail_dimensions(width: u32, height: u32) -> (size: (u32, u32))
    ensures
        (size.0 as int, size.1 as int) == thumbnail_dimensions(width as int, height as int),
        width > MAX_IMAGE_SIZE || height > MAX_IMAGE_SIZE ==> size.0 <= MAX_IMAGE_SIZE && size.1
            <= MAX_IMAGE_SIZE,
{
    if width > MAX_IMAGE_SIZE || height > MAX_IMAGE_SIZE {
        if width > height {
            if height == 0 {
                (MAX_IMAGE_SIZE, 0)
            } else {
                (MAX_IMAGE_SIZE, scale_height(width, height))
            }
        } else {
            if width == 0 {
                (0, MAX_IMAGE_SIZE)
            } else {
                (scale_width(width, height), MAX_IMAGE_SIZE)
            }
        }
    } else {
        (width, height)
    }
}

} // verus!
