//! The integer half of the spiral: lighting each pixel from the bin its map
//! entry names, and dimming a colour by a glow weight.

use vstd::prelude::*;

use super::{bytes_of_word, word_in, ByteOrder};

verus! {

/// What one pixel of the surface shows: which bin lights it and how much.
///
/// A weight of zero is black whatever the bin, so a pixel off the ribbon
/// needs no sentinel.
#[derive(Debug, Clone, Copy, PartialEq, Eq, Structural)]
pub struct Texel {
    /// Index into the spectrum's values.
    pub bin: u16,
    /// Glow, sRGB-encoded: 255 inside the ribbon's core and falling to 0 with
    /// distance past its edge.
    pub weight: u8,
}

/// One 8-bit channel of `colour`, the one `shift` bits up, scaled by
/// `(weight + 1) / 256`.
pub open spec fn dimmed_channel(colour: u32, weight: u8, shift: u32) -> int {
    ((colour as int / pow2_of(shift)) % 256) * (weight as int + 1) / 256
}

/// `2^shift` for the three channel positions.
pub open spec fn pow2_of(shift: u32) -> int {
    if shift == 16 {
        0x10000
    } else if shift == 8 {
        0x100
    } else {
        1
    }
}

/// The `0x00RRGGBB` word whose channels are `red`, `green` and `blue`.
pub open spec fn rgb_word(red: int, green: int, blue: int) -> int {
    red * 0x10000 + green * 0x100 + blue
}

/// `colour`, a `0x00RRGGBB` word, with every channel scaled by `weight / 255`.
///
/// Multiplying by `weight + 1` and dividing by 256 keeps both ends exact,
/// black at 0 and `colour` itself at 255, at the price of a multiply and a
/// shift.
pub fn dim(colour: u32, weight: u8) -> (dimmed: u32)
    ensures
        dimmed == rgb_word(
            dimmed_channel(colour, weight, 16),
            dimmed_channel(colour, weight, 8),
            dimmed_channel(colour, weight, 0),
        ),
        dimmed < 0x100_0000,
        (dimmed >> 16) & 0xff == ((colour >> 16) & 0xff) * (weight as u32 + 1) / 256,
        (dimmed >> 8) & 0xff == ((colour >> 8) & 0xff) * (weight as u32 + 1) / 256,
        dimmed & 0xff == (colour & 0xff) * (weight as u32 + 1) / 256,
{
    let factor: u32 = weight as u32 + 1;
    let r: u32 = (colour >> 16) & 0xff;
    let g: u32 = (colour >> 8) & 0xff;
    let b: u32 = colour & 0xff;
    proof {
        assert(r == (colour as int / 0x10000) % 256 && g == (colour as int / 0x100) % 256 && b
            == colour as int % 256) by (bit_vector)
            requires
                r == (colour >> 16) & 0xff,
                g == (colour >> 8) & 0xff,
                b == colour & 0xff,
        ;
        assert(r * factor <= 65280 && g * factor <= 65280 && b * factor <= 65280) by (nonlinear_arith)
            requires
                r < 256,
                g < 256,
                b < 256,
                1 <= factor <= 256,
        ;
    }
    let red: u32 = (r * factor) >> 8;
    let green: u32 = (g * factor) >> 8;
    let blue: u32 = (b * factor) >> 8;
    proof {
        let pr = (r * factor) as u32;
        let pg = (g * factor) as u32;
        let pb = (b * factor) as u32;
        assert(pr >> 8 == pr / 256 && pg >> 8 == pg / 256 && pb >> 8 == pb / 256) by (bit_vector);
    }
    let dimmed = (red << 16) | (green << 8) | blue;
    proof {
        assert(dimmed == red * 0x10000 + green * 0x100 + blue) by (bit_vector)
            requires
                red < 256,
                green < 256,
                blue < 256,
                dimmed == (red << 16) | (green << 8) | blue,
        ;
        assert(dimmed < 0x100_0000 && (dimmed >> 16) & 0xff == red && (dimmed >> 8) & 0xff == green
            && dimmed & 0xff == blue) by (bit_vector)
            requires
                red < 256,
                green < 256,
                blue < 256,
                dimmed == (red << 16) | (green << 8) | blue,
        ;
    }
    dimmed
}

/// Dimming by the full weight leaves a colour's channels as they were, and
/// dimming by nothing leaves black.
pub proof fn law_dim_keeps_both_ends(colour: u32)
    ensures
        rgb_word(
            dimmed_channel(colour, 255, 16),
            dimmed_channel(colour, 255, 8),
            dimmed_channel(colour, 255, 0),
        ) == colour as int % 0x1000000,
        rgb_word(
            dimmed_channel(colour, 0, 16),
            dimmed_channel(colour, 0, 8),
            dimmed_channel(colour, 0, 0),
        ) == 0,
{
    let c = colour as int;
    let r = (c / 0x10000) % 256;
    let g = (c / 0x100) % 256;
    let b = c % 256;
    assert(r * 256 / 256 == r && g * 256 / 256 == g && b * 256 / 256 == b);
    assert(0 <= r < 256 && 0 <= g < 256 && 0 <= b < 256);
    assert(r * 1 / 256 == 0 && g * 1 / 256 == 0 && b * 1 / 256 == 0);
    assert(r * 0x10000 + g * 0x100 + b == c % 0x1000000) by (nonlinear_arith)
        requires
            0 <= c,
            r == (c / 0x10000) % 256,
            g == (c / 0x100) % 256,
            b == c % 256,
    {
        vstd::arithmetic::div_mod::lemma_fundamental_div_mod(c, 0x100);
        vstd::arithmetic::div_mod::lemma_fundamental_div_mod(c / 0x100, 0x100);
        vstd::arithmetic::div_mod::lemma_div_denominator(c, 0x100, 0x100);
        vstd::arithmetic::div_mod::lemma_fundamental_div_mod(c, 0x1000000);
        vstd::arithmetic::div_mod::lemma_div_denominator(c, 0x10000, 0x100);
        vstd::arithmetic::div_mod::lemma_fundamental_div_mod(c / 0x10000, 0x100);
    }
}

/// Dimming scales each 8-bit channel on its own, for every weight: the
/// channel `shift` bits up comes out as the colour's channel there times
/// `weight + 1`, divided by 256 and rounded down. So a heavier glow never
/// gives a darker channel, and no channel ever comes out brighter than it was.
pub proof fn law_dim_scales_each_channel(colour: u32, weight: u8, heavier: u8, shift: u32)
    requires
        shift == 0 || shift == 8 || shift == 16,
        weight <= heavier,
    ensures
        ({
            let channel = ((colour >> shift) & 0xff) as int;
            let dimmed = dimmed_channel(colour, weight, shift);
            &&& 256 * dimmed <= channel * (weight as int + 1)
            &&& channel * (weight as int + 1) < 256 * dimmed + 256
            &&& 0 <= dimmed <= channel
        }),
        dimmed_channel(colour, weight, shift) <= dimmed_channel(colour, heavier, shift),
{
    let channel = ((colour >> shift) & 0xff) as int;
    if shift == 16 {
        assert((colour >> 16) & 0xff == (colour / 0x10000) % 256) by (bit_vector);
    } else if shift == 8 {
        assert((colour >> 8) & 0xff == (colour / 0x100) % 256) by (bit_vector);
    } else {
        assert((colour >> 0) & 0xff == colour % 256) by (bit_vector);
    }
    assert(channel == (colour as int / pow2_of(shift)) % 256);
    assert(0 <= channel < 256);
    let p = channel * (weight as int + 1);
    let q = channel * (heavier as int + 1);
    assert(0 <= p <= q) by (nonlinear_arith)
        requires
            p == channel * (weight as int + 1),
            q == channel * (heavier as int + 1),
            0 <= channel,
            weight <= heavier,
    ;
    assert(p <= channel * 256) by (nonlinear_arith)
        requires
            p == channel * (weight as int + 1),
            0 <= channel,
            weight < 256,
    ;
    vstd::arithmetic::div_mod::lemma_fundamental_div_mod(p, 256);
    vstd::arithmetic::div_mod::lemma_div_is_ordered(p, q, 256);
    vstd::arithmetic::div_mod::lemma_div_is_ordered(p, channel * 256, 256);
    vstd::arithmetic::div_mod::lemma_div_multiples_vanish(channel, 256);
}

/// The colour a texel lights its pixel with, given each bin's lit colour.
pub open spec fn texel_colour(texel: Texel, lit: Seq<u32>) -> u32 {
    if texel.weight == 0 {
        0
    } else {
        rgb_word(
            dimmed_channel(lit[texel.bin as int], texel.weight, 16),
            dimmed_channel(lit[texel.bin as int], texel.weight, 8),
            dimmed_channel(lit[texel.bin as int], texel.weight, 0),
        ) as u32
    }
}

/// The four bytes of pixel `index` in `pixels`.
pub open spec fn pixel_at(pixels: Seq<u8>, index: int) -> [u8; 4] {
    [pixels[4 * index], pixels[4 * index + 1], pixels[4 * index + 2], pixels[4 * index + 3]]
}

/// Whether every texel that lights its pixel names a bin `lit` has.
pub open spec fn bins_in_range(map: Seq<Texel>, lit: Seq<u32>) -> bool {
    forall|i: int| 0 <= i < map.len() && map[i].weight != 0 ==> (map[i].bin as int) < lit.len()
}

/// Lights `pixels` from `map`, one texel a pixel in row-major order, each
/// from the colour `lit` gives its bin, dimmed by its weight, as a word laid
/// out in `order`: the machine's own, which cairo's `Rgb24` reads. With no
/// map there is no grid yet, and the surface is black.
pub fn paint(pixels: &mut [u8], map: &[Texel], lit: &[u32], order: ByteOrder)
    requires
        map@.len() == 0 || old(pixels)@.len() == 4 * map@.len(),
        bins_in_range(map@, lit@),
    ensures
        final(pixels)@.len() == old(pixels)@.len(),
        map@.len() == 0 ==> forall|i: int| 0 <= i < final(pixels)@.len() ==> final(pixels)@[i] == 0,
        map@.len() != 0 ==> forall|i: int|
            0 <= i < map@.len() ==> word_in(#[trigger] pixel_at(final(pixels)@, i), order)
                == texel_colour(map@[i], lit@),
{
    if map.len() == 0 {
        let mut i: usize = 0;
        while i < pixels.len()
            invariant
                i <= pixels@.len(),
                pixels@.len() == old(pixels)@.len(),
                forall|j: int| 0 <= j < i ==> pixels@[j] == 0,
            decreases pixels@.len() - i,
        {
            pixels[i] = 0;
            i = i + 1;
        }
        return;
    }
    let mut i: usize = 0;
    while i < map.len()
        invariant
            i <= map@.len(),
            pixels@.len() == 4 * map@.len(),
            bins_in_range(map@, lit@),
            forall|j: int|
                0 <= j < i ==> word_in(#[trigger] pixel_at(pixels@, j), order) == texel_colour(
                    map@[j],
                    lit@,
                ),
        decreases map@.len() - i,
    {
        let n = pixels.len();
        assert(4 * i + 3 < n);
        let texel = map[i];
        let colour = if texel.weight == 0 {
            0
        } else {
            dim(lit[texel.bin as usize], texel.weight)
        };
        let bytes = bytes_of_word(colour, order);
        let ghost before = pixels@;
        pixels[4 * i] = bytes[0];
        pixels[4 * i + 1] = bytes[1];
        pixels[4 * i + 2] = bytes[2];
        pixels[4 * i + 3] = bytes[3];
        proof {
            assert(colour == texel_colour(texel, lit@));
            assert(pixel_at(pixels@, i as int) == bytes);
            assert forall|j: int| 0 <= j < i + 1 implies word_in(
                #[trigger] pixel_at(pixels@, j),
                order,
            ) == texel_colour(map@[j], lit@) by {
                if j < i {
                    assert(pixels@[4 * j] == before[4 * j]);
                    assert(pixels@[4 * j + 1] == before[4 * j + 1]);
                    assert(pixels@[4 * j + 2] == before[4 * j + 2]);
                    assert(pixels@[4 * j + 3] == before[4 * j + 3]);
                    assert(pixel_at(pixels@, j) == pixel_at(before, j));
                }
            }
        }
        i = i + 1;
    }
}

} // verus!
