//! The image: quantised channels in a row-major buffer of RGB pixels.

use vstd::prelude::*;
use vstd::arithmetic::div_mod::*;
use vstd::arithmetic::power2::*;
use crate::rounding::round_to_significand;
use crate::rounding::SIGNIFICAND_LIMIT;
use crate::scalar::Scalar;
use crate::scalar::FRACTION_MASK;
use crate::scalar::HIDDEN_BIT;

verus! {

/// The 8-bit level of a channel: the channel is clamped to the numbers
/// from zero to one and multiplied by 255 as binary64 arithmetic
/// multiplies, and the level is the whole part of that product. A NaN
/// gives level 0.
pub open spec fn quantize_spec(channel: Scalar) -> int {
    if channel.is_nan_spec() || channel.value() <= 0 {
        0
    } else if channel.value() >= Scalar::one_spec().value() {
        255
    } else {
        (crate::rounding::rounded((255 * channel.value()) as nat) / pow2(1074)) as int
    }
}

/// The 8-bit level of a channel.
pub fn quantize(channel: Scalar) -> (level: u8)
    ensures
        level == quantize_spec(channel),
{
    if channel.is_nan() || !channel.gt(Scalar::zero()) {
        return 0;
    }
    if Scalar::one().le(channel) {
        return 255;
    }
    let bits: u64 = channel.bits;
    let exponent: u64 = bits >> 52;
    let fraction: u64 = bits & FRACTION_MASK;
    proof {
        crate::scalar::lemma_one_value();
        crate::scalar::lemma_magnitude_order(channel, Scalar::one_spec());
        assert(bits < 0x3FF0_0000_0000_0000);
        assert(bits >> 52 == bits / 0x10_0000_0000_0000) by (bit_vector);
        assert(bits & 0x000F_FFFF_FFFF_FFFF == bits % 0x10_0000_0000_0000) by (bit_vector);
        assert(exponent == channel.exponent());
        assert(fraction == channel.fraction());
        assert(exponent <= 1022);
        lemma2_to64();
        lemma2_to64_rest();
    }
    let significand: u64 = if exponent == 0 {
        fraction
    } else {
        HIDDEN_BIT + fraction
    };
    let scale: u64 = if exponent == 0 {
        0
    } else {
        exponent - 1
    };
    let exact: u64 = 255 * significand;
    let product: u64 = round_to_significand(exact);
    let shift: u64 = 1074 - scale;
    proof {
        let low = pow2(scale as nat);
        let high = pow2(shift as nat);
        lemma_pow2_pos(scale as nat);
        lemma_pow2_pos(shift as nat);
        lemma_pow2_adds(scale as nat, shift as nat);
        assert(pow2(1074) == low * high);
        assert(channel.value() == significand * low);
        assert(255 * channel.value() == exact * low) by (nonlinear_arith)
            requires
                channel.value() == significand * low,
                exact == 255 * significand,
        ;
        crate::rounding::lemma_rounded_scales(exact as nat, scale as nat);
        assert(crate::rounding::rounded((255 * channel.value()) as nat) == product * low);
        assert(product * low == low * product) by (nonlinear_arith);
        lemma_div_multiples_vanish_quotient(low as int, product as int, high as int);
        assert(quantize_spec(channel) == product as int / high as int);
        // the channel is below one, so the product is below 256
        assert(significand < high) by (nonlinear_arith)
            requires
                significand * low < low * high,
                low > 0,
        ;
        crate::rounding::lemma_rounded_upper(exact as nat);
        lemma_div_is_ordered_by_denominator(exact as int, 255, SIGNIFICAND_LIMIT as int);
        lemma_div_multiples_vanish(significand as int, 255);
        assert(product <= 256 * significand);
        assert(product as int / high as int <= 255) by {
            lemma_div_is_ordered(product as int, 256 * high - 1, high as int);
            lemma_fundamental_div_mod_converse(256 * high - 1, high as int, 255, high - 1);
        }
    }
    if shift >= 64 {
        proof {
            if shift > 64 {
                lemma_pow2_strictly_increases(64, shift as nat);
            }
            lemma_basic_div(product as int, pow2(shift as nat) as int);
        }
        return 0;
    }
    proof {
        vstd::bits::lemma_u64_shr_is_div(product, shift);
    }
    (product >> shift) as u8
}

/// The number of samples that a render of `width` by `height` pixels
/// takes at `samples` samples a pixel, or `None` where that number does not
/// fit.
pub fn sample_count(width: usize, height: usize, samples: usize) -> (count: Option<u64>)
    ensures
        count == (if width * height * samples <= u64::MAX {
            Some((width * height * samples) as u64)
        } else {
            None::<u64>
        }),
{
    if width == 0 || height == 0 || samples == 0 {
        assert(width * height * samples == 0) by (nonlinear_arith)
            requires
                width == 0 || height == 0 || samples == 0,
        ;
        return Some(0);
    }
    let pixels = match (width as u64).checked_mul(height as u64) {
        Some(pixels) => pixels,
        None => {
            assert(width * height * samples > u64::MAX) by (nonlinear_arith)
                requires
                    width * height > u64::MAX,
                    samples >= 1,
            ;
            return None;
        },
    };
    pixels.checked_mul(samples as u64)
}

/// A raster of 8-bit RGB pixels, stored row by row from the top, each row
/// from the left, three bytes a pixel.
pub struct ImageBuffer {
    width: usize,
    height: usize,
    data: Vec<u8>,
}

impl ImageBuffer {
    #[verifier::type_invariant]
    spec fn well_formed(self) -> bool {
        self.data@.len() == 3 * self.width * self.height
    }

    /// The number of pixels in a row.
    pub closed spec fn width_spec(self) -> nat {
        self.width as nat
    }

    /// The number of rows.
    pub closed spec fn height_spec(self) -> nat {
        self.height as nat
    }

    /// The bytes of the raster in the order in which they are stored.
    pub closed spec fn bytes(self) -> Seq<u8> {
        self.data@
    }

    /// Where the red byte of the pixel in column `x` of row `y` is stored;
    /// its green and blue bytes follow it.
    pub open spec fn offset(self, x: int, y: int) -> int {
        3 * (y * self.width_spec() + x)
    }

    /// The red, green and blue level of the pixel in column `x` of row `y`.
    pub open spec fn pixel_spec(self, x: int, y: int) -> (u8, u8, u8) {
        (
            self.bytes()[self.offset(x, y)],
            self.bytes()[self.offset(x, y) + 1],
            self.bytes()[self.offset(x, y) + 2],
        )
    }

    /// A black raster of `width` by `height` pixels, or `None` where the
    /// number of its bytes does not fit.
    pub fn new(width: usize, height: usize) -> (made: Option<ImageBuffer>)
        ensures
            made is Some <==> 3 * width * height <= usize::MAX,
            match made {
                Some(image) => {
                    &&& image.width_spec() == width
                    &&& image.height_spec() == height
                    &&& image.bytes() == Seq::new((3 * width * height) as nat, |i: int| 0u8)
                },
                None => true,
            },
    {
        let row = match width.checked_mul(3) {
            Some(row) => row,
            None => {
                if height == 0 {
                    // an image without rows has no bytes
                    assert(3 * width * height == 0) by (nonlinear_arith)
                        requires
                            height == 0,
                    ;
                    return Some(ImageBuffer { width, height, data: Vec::new() });
                }
                assert(3 * width * height > usize::MAX) by (nonlinear_arith)
                    requires
                        3 * width > usize::MAX,
                        height >= 1,
                ;
                return None;
            },
        };
        match row.checked_mul(height) {
            Some(size) => {
                let data = vec![0u8; size];
                assert(data@ =~= Seq::new((3 * width * height) as nat, |i: int| 0u8));
                Some(ImageBuffer { width, height, data })
            },
            None => None,
        }
    }

    /// The number of pixels in a row.
    pub fn width(&self) -> (w: usize)
        ensures
            w == self.width_spec(),
    {
        self.width
    }

    /// The number of rows.
    pub fn height(&self) -> (h: usize)
        ensures
            h == self.height_spec(),
    {
        self.height
    }

    /// Stores the levels of the pixel in column `x` of row `y`. No other
    /// pixel and no other byte changes.
    pub fn set_pixel(&mut self, x: usize, y: usize, red: u8, green: u8, blue: u8)
        requires
            x < old(self).width_spec(),
            y < old(self).height_spec(),
        ensures
            final(self).width_spec() == old(self).width_spec(),
            final(self).height_spec() == old(self).height_spec(),
            old(self).offset(x as int, y as int) + 2 < old(self).bytes().len(),
            final(self).bytes() == old(self).bytes()
                .update(old(self).offset(x as int, y as int), red)
                .update(old(self).offset(x as int, y as int) + 1, green)
                .update(old(self).offset(x as int, y as int) + 2, blue),
            final(self).pixel_spec(x as int, y as int) == (red, green, blue),
            forall|column: int, row: int|
                0 <= column < old(self).width_spec() && 0 <= row < old(self).height_spec()
                    && (column != x || row != y)
                    ==> #[trigger] final(self).pixel_spec(column, row)
                        == old(self).pixel_spec(column, row),
    {
        let size = self.data.len();
        proof {
            use_type_invariant(&*self);
            lemma_pixel_in_bounds(x as nat, y as nat, self.width as nat, self.height as nat);
            assert(3 * (y * self.width + x) + 2 < size);
        }
        let index: usize = 3 * (y * self.width + x);
        self.data[index] = red;
        self.data[index + 1] = green;
        self.data[index + 2] = blue;
        proof {
            let width = self.width as int;
            let height = self.height as int;
            assert forall|column: int, row: int|
                0 <= column < width && 0 <= row < height && (column != x || row != y)
                implies #[trigger] self.pixel_spec(column, row)
                    == old(self).pixel_spec(column, row) by {
                lemma_pixel_in_bounds(column as nat, row as nat, width as nat, height as nat);
                lemma_pixels_are_apart(column, row, x as int, y as int, width);
            }
        }
    }

    /// The red, green and blue level of the pixel in column `x` of row `y`.
    pub fn pixel(&self, x: usize, y: usize) -> (levels: (u8, u8, u8))
        requires
            x < self.width_spec(),
            y < self.height_spec(),
        ensures
            levels == self.pixel_spec(x as int, y as int),
            self.offset(x as int, y as int) + 2 < self.bytes().len(),
    {
        let size = self.data.len();
        proof {
            use_type_invariant(self);
            lemma_pixel_in_bounds(x as nat, y as nat, self.width as nat, self.height as nat);
            assert(3 * (y * self.width + x) + 2 < size);
        }
        let index: usize = 3 * (y * self.width + x);
        (self.data[index], self.data[index + 1], self.data[index + 2])
    }

    /// The bytes of the raster, `3 * width * height` of them, as an image
    /// encoder takes them.
    pub fn as_bytes(&self) -> (bytes: &Vec<u8>)
        ensures
            bytes@ == self.bytes(),
            bytes@.len() == 3 * self.width_spec() * self.height_spec(),
    {
        proof {
            use_type_invariant(self);
        }
        &self.data
    }
}

/// The pixels of the raster are numbered row by row below
/// `width * height`, and the three bytes of each lie within the
/// `3 * width * height` bytes of the raster.
pub proof fn lemma_pixel_in_bounds(x: nat, y: nat, width: nat, height: nat)
    requires
        x < width,
        y < height,
    ensures
        y * width + x < width * height,
        3 * (y * width + x) + 2 < 3 * width * height,
{
    assert(y * width + x + 1 <= width * height) by (nonlinear_arith)
        requires
            x < width,
            y < height,
    ;
    assert(3 * (width * height) == 3 * width * height) by (nonlinear_arith);
}

/// Two pixels of a raster share no byte: their numbers `y * width + x`
/// differ.
pub proof fn lemma_pixels_are_apart(x: int, y: int, other_x: int, other_y: int, width: int)
    requires
        0 <= x < width,
        0 <= other_x < width,
        0 <= y,
        0 <= other_y,
        x != other_x || y != other_y,
    ensures
        y * width + x != other_y * width + other_x,
{
    if y < other_y {
        assert(y * width + width <= other_y * width) by (nonlinear_arith)
            requires
                y + 1 <= other_y,
                width > 0,
        ;
    } else if other_y < y {
        assert(other_y * width + width <= y * width) by (nonlinear_arith)
            requires
                other_y + 1 <= y,
                width > 0,
        ;
    }
}

} // verus!
