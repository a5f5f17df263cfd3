//! Painting glyphs into the pixels of a texture.
//!
//! A texture holds the 256 glyphs of the character set one below the
//! other, each `8 * scale` pixels wide and `12 * scale` pixels high, three
//! bytes to a pixel: red, green, blue. A glyph's bitmap has a byte for
//! each of its twelve lines, the leftmost pixel in the highest bit.

use vstd::prelude::*;
use crate::video::BYTES_PER_PIXEL;
use crate::video::buffer::{ATTR_DIM, ATTR_REVERSE};

verus! {

pub const WHITE: u32 = 0xffffff;

pub const RED: u32 = 0xff0000;

pub const GREEN: u32 = 0x00ff00;

pub const BLUE: u32 = 0x0000ff;

pub const YELLOW: u32 = 0xffff00;

pub const CYAN: u32 = 0x00ffff;

pub const DARK_GREEN: u32 = 0x008000;

/// The green of the glyphs on an old screen.
pub const CRT_GREEN: u32 = 0x80ff80;

/// The colour of an old screen that shows nothing.
pub const CRT_BACKGROUND: u32 = 0x252919;

/// The red part of a colour.
pub open spec fn red_of(color: u32) -> int {
    (color as int / 0x10000) % 0x100
}

/// The green part of a colour.
pub open spec fn green_of(color: u32) -> int {
    (color as int / 0x100) % 0x100
}

/// The blue part of a colour.
pub open spec fn blue_of(color: u32) -> int {
    color as int % 0x100
}

/// The colour with these parts.
pub open spec fn rgb(red: int, green: int, blue: int) -> int {
    red * 0x10000 + green * 0x100 + blue
}

/// The colour at half its brightness.
pub open spec fn dimmed(color: u32) -> int {
    rgb(red_of(color) / 2, green_of(color) / 2, blue_of(color) / 2)
}

/// The colour half way between two colours, each taken at half its
/// brightness.
pub open spec fn blended(color1: u32, color2: u32) -> int {
    rgb(
        (red_of(color1) / 2 + red_of(color2) / 2) / 2,
        (green_of(color1) / 2 + green_of(color2) / 2) / 2,
        (blue_of(color1) / 2 + blue_of(color2) / 2) / 2,
    )
}

/// The red part of a colour.
pub fn red(color: u32) -> (part: u8)
    ensures
        part == red_of(color),
{
    assert((color >> 16) & 0xff == (color / 0x10000) % 0x100) by (bit_vector);
    assert((color >> 16) & 0xff < 0x100) by (bit_vector);
    ((color >> 16) & 0xff) as u8
}

/// The green part of a colour.
pub fn green(color: u32) -> (part: u8)
    ensures
        part == green_of(color),
{
    assert((color >> 8) & 0xff == (color / 0x100) % 0x100) by (bit_vector);
    assert((color >> 8) & 0xff < 0x100) by (bit_vector);
    ((color >> 8) & 0xff) as u8
}

/// The blue part of a colour.
pub fn blue(color: u32) -> (part: u8)
    ensures
        part == blue_of(color),
{
    assert(color & 0xff == color % 0x100) by (bit_vector);
    assert(color & 0xff < 0x100) by (bit_vector);
    (color & 0xff) as u8
}

/// Packs three parts into a colour.
fn pack(red: u32, green: u32, blue: u32) -> (color: u32)
    requires
        red < 0x100,
        green < 0x100,
        blue < 0x100,
    ensures
        color == rgb(red as int, green as int, blue as int),
        red_of(color) == red,
        green_of(color) == green,
        blue_of(color) == blue,
{
    assert((red << 16) | (green << 8) | blue == red * 0x10000 + green * 0x100 + blue) by (bit_vector)
        requires
            red < 0x100,
            green < 0x100,
            blue < 0x100,
    ;
    (red << 16) | (green << 8) | blue
}

/// Half of a part of a colour.
fn half(part: u8) -> (out: u32)
    ensures
        out == part / 2,
{
    (part as u32) * 2 / 4
}

/// The colour at half its brightness.
pub fn dim(color: u32) -> (out: u32)
    ensures
        out == dimmed(color),
{
    pack(half(red(color)), half(green(color)), half(blue(color)))
}

/// The colour half way between two colours, each taken at half its
/// brightness.
pub fn between(color1: u32, color2: u32) -> (out: u32)
    ensures
        out == blended(color1, color2),
{
    let red: u32 = (half(red(color1)) + half(red(color2))) / 2;
    let green: u32 = (half(green(color1)) + half(green(color2))) / 2;
    let blue: u32 = (half(blue(color1)) + half(blue(color2))) / 2;
    pack(red, green, blue)
}

/// Whether a line of a bitmap, seen through a mask that exchanges ink
/// and paper where it is set, has ink at the pixel `bit` from the left.
pub open spec fn inked(line: u8, xor_mask: u8, bit: int) -> bool {
    (line ^ xor_mask) & (0x80u8 >> (bit as u8)) != 0
}

/// Whether the part of a pixel in row `r` and column `c` of its square
/// is shaded towards the background to round the pixel off: at scale 2
/// the corner at the bottom right, at scales 3 and 4 the last row and
/// the last column.
pub open spec fn shaded(scale: int, r: int, c: int) -> bool {
    if scale == 2 {
        r == 1 && c == 1
    } else if scale == 3 {
        !(r < 2 && c < 2)
    } else if scale == 4 {
        !(r < 3 && c < 3)
    } else {
        false
    }
}

/// The colour of texture pixel number `k` of a bitmap painted at `scale`,
/// counting the pixels line after line from the start of the bitmap:
/// background where the bitmap has no ink, and the ink `fg` elsewhere,
/// blended with the background where the pixel is rounded off.
pub open spec fn painted(bitmap: Seq<u8>, fg: u32, xor_mask: u8, scale: int, k: int) -> int {
    let line = k / (8 * scale * scale);
    let r = (k / (8 * scale)) % scale;
    let bit = (k / scale) % 8;
    let c = k % scale;
    if inked(bitmap[line], xor_mask, bit) {
        if shaded(scale, r, c) {
            blended(fg, CRT_BACKGROUND)
        } else {
            fg as int
        }
    } else {
        CRT_BACKGROUND as int
    }
}

/// How many texture pixels a bitmap takes at `scale`.
pub open spec fn pixels_of(lines: int, scale: int) -> int {
    lines * 8 * scale * scale
}

/// Whether `after` is `before` with a bitmap painted over the pixels from
/// byte `offset` on, and nothing else changed.
pub open spec fn painted_over(
    after: Seq<u8>,
    before: Seq<u8>,
    bitmap: Seq<u8>,
    offset: int,
    fg: u32,
    xor_mask: u8,
    scale: int,
) -> bool {
    &&& after.len() == before.len()
    &&& 0 <= offset
    &&& offset + 3 * pixels_of(bitmap.len() as int, scale) <= after.len()
    &&& forall|k: int|
        0 <= k < pixels_of(bitmap.len() as int, scale) ==> {
            let color = painted(bitmap, fg, xor_mask, scale, k) as u32;
            &&& #[trigger] after[offset + 3 * k] == red_of(color)
            &&& after[offset + 3 * k + 1] == green_of(color)
            &&& after[offset + 3 * k + 2] == blue_of(color)
        }
    &&& forall|at: int|
        0 <= at < after.len() && !(offset <= at < offset + 3 * pixels_of(
            bitmap.len() as int,
            scale,
        )) ==> #[trigger] after[at] == before[at]
}

/// The mask of the pixel `bit` from the left of a line, and of the one
/// after it.
proof fn lemma_mask(mask: u8, bit: u8)
    requires
        bit < 8,
        mask == 0x80u8 >> bit,
    ensures
        mask != 0,
        bit < 7 ==> mask >> 1 == 0x80u8 >> ((bit + 1) as u8),
        bit == 7 ==> mask >> 1 == 0,
{
    assert(mask != 0 && (bit < 7 ==> mask >> 1 == 0x80u8 >> ((bit + 1) as u8)) && (bit == 7
        ==> mask >> 1 == 0)) by (bit_vector)
        requires
            bit < 8,
            mask == 0x80u8 >> bit,
    ;
}

/// The pixel number of a part of a pixel at scale 1 tells its line, its
/// row, its bit and its column.
proof fn lemma_pixel_number_1(line: int, r: int, bit: int, c: int)
    requires
        0 <= line,
        0 <= r < 1,
        0 <= bit < 8,
        0 <= c < 1,
    ensures
        ({
            let k = line * 8 + r * 8 + bit * 1 + c;
            &&& k / 8int == line
            &&& (k / 8int) % 1int == r
            &&& (k / 1int) % 8int == bit
            &&& k % 1int == c
        }),
{
    let k = line * 8 + r * 8 + bit * 1 + c;
    vstd::arithmetic::div_mod::lemma_fundamental_div_mod_converse(
        k,
        8,
        line,
        r * 8 + bit * 1 + c,
    );
    vstd::arithmetic::div_mod::lemma_fundamental_div_mod_converse(
        k,
        8,
        line * 1 + r,
        bit * 1 + c,
    );
    vstd::arithmetic::div_mod::lemma_fundamental_div_mod_converse(line * 1 + r, 1, line, r);
    vstd::arithmetic::div_mod::lemma_fundamental_div_mod_converse(
        k,
        1,
        line * 8 + r * 8 + bit,
        c,
    );
    vstd::arithmetic::div_mod::lemma_fundamental_div_mod_converse(
        line * 8 + r * 8 + bit,
        8,
        line * 1 + r,
        bit,
    );
}

/// Paints a bitmap into a texture at scale 1, from byte `offset` on:
/// a pixel of the texture for a pixel of the bitmap.
pub fn set_pixels_1x1(pixels: &mut [u8], bitmap: &[u8], offset: usize, fg: u32, xor_mask: u8)
    requires
        offset + 3 * pixels_of(bitmap@.len() as int, 1) <= old(pixels)@.len(),
    ensures
        painted_over(final(pixels)@, old(pixels)@, bitmap@, offset as int, fg, xor_mask, 1),
{
    let start: usize = offset;
    let mut offset: usize = offset;
    let lines: usize = bitmap.len();
    let mut line: usize = 0;
    let ghost mut done: int = 0;
    assert(pixels_of(lines as int, 1) == lines * 8) by (nonlinear_arith);
    while line < lines
        invariant
            lines == bitmap@.len(),
            line <= lines,
            done == line * 8,
            offset == start + 3 * done,
            start + 3 * (lines * 8) <= pixels@.len(),
            pixels@.len() == old(pixels)@.len(),
            forall|k: int|
                0 <= k < done ==> {
                    let color = painted(bitmap@, fg, xor_mask, 1, k) as u32;
                    &&& #[trigger] pixels@[start + 3 * k] == red_of(color)
                    &&& pixels@[start + 3 * k + 1] == green_of(color)
                    &&& pixels@[start + 3 * k + 2] == blue_of(color)
                },
            forall|at: int|
                0 <= at < pixels@.len() && !(start <= at < start + 3 * done)
                    ==> #[trigger] pixels@[at] == old(pixels)@[at],
        decreases lines - line,
    {
        let byte: u8 = bitmap[line];
        let mut r: usize = 0;
        while r < 1
            invariant
                lines == bitmap@.len(),
                line < lines,
                byte == bitmap@[line as int],
                r <= 1,
                done == line * 8 + r * 8,
                offset == start + 3 * done,
                start + 3 * (lines * 8) <= pixels@.len(),
                pixels@.len() == old(pixels)@.len(),
                forall|k: int|
                    0 <= k < done ==> {
                        let color = painted(bitmap@, fg, xor_mask, 1, k) as u32;
                        &&& #[trigger] pixels@[start + 3 * k] == red_of(color)
                        &&& pixels@[start + 3 * k + 1] == green_of(color)
                        &&& pixels@[start + 3 * k + 2] == blue_of(color)
                    },
                forall|at: int|
                    0 <= at < pixels@.len() && !(start <= at < start + 3 * done)
                        ==> #[trigger] pixels@[at] == old(pixels)@[at],
            decreases 1 - r,
        {
            let mut mask: u8 = 0x80;
            let ghost mut bit: u8 = 0;
            assert(0x80u8 >> 0u8 == 0x80u8) by (bit_vector);
            assert(mask != 0);
            while mask != 0
                invariant
                    lines == bitmap@.len(),
                    line < lines,
                    byte == bitmap@[line as int],
                    r < 1,
                    bit <= 8,
                    bit < 8 ==> mask == 0x80u8 >> bit && mask != 0,
                    bit == 8 ==> mask == 0,
                    done == line * 8 + r * 8 + bit * 1,
                    offset == start + 3 * done,
                    start + 3 * (lines * 8) <= pixels@.len(),
                    pixels@.len() == old(pixels)@.len(),
                    forall|k: int|
                        0 <= k < done ==> {
                            let color = painted(bitmap@, fg, xor_mask, 1, k) as u32;
                            &&& #[trigger] pixels@[start + 3 * k] == red_of(color)
                            &&& pixels@[start + 3 * k + 1] == green_of(color)
                            &&& pixels@[start + 3 * k + 2] == blue_of(color)
                        },
                    forall|at: int|
                        0 <= at < pixels@.len() && !(start <= at < start + 3 * done)
                            ==> #[trigger] pixels@[at] == old(pixels)@[at],
                decreases 8 - bit,
            {
                proof {
                    lemma_mask(mask, bit);
                }
                let mut c: usize = 0;
                while c < 1
                    invariant
                        lines == bitmap@.len(),
                        line < lines,
                        byte == bitmap@[line as int],
                        r < 1,
                        bit < 8,
                        mask == 0x80u8 >> bit,
                        c <= 1,
                        done == line * 8 + r * 8 + bit * 1 + c,
                        offset == start + 3 * done,
                        start + 3 * (lines * 8) <= pixels@.len(),
                        pixels@.len() == old(pixels)@.len(),
                        forall|k: int|
                            0 <= k < done ==> {
                                let color = painted(bitmap@, fg, xor_mask, 1, k) as u32;
                                &&& #[trigger] pixels@[start + 3 * k] == red_of(color)
                                &&& pixels@[start + 3 * k + 1] == green_of(color)
                                &&& pixels@[start + 3 * k + 2] == blue_of(color)
                            },
                        forall|at: int|
                            0 <= at < pixels@.len() && !(start <= at < start + 3 * done)
                                ==> #[trigger] pixels@[at] == old(pixels)@[at],
                    decreases 1 - c,
                {
                    let color: u32 = if (byte ^ xor_mask) & mask != 0 {
                        fg
                    } else {
                        CRT_BACKGROUND
                    };
                    proof {
                        assert(8int * 1 * 1 == 8 && 8int * 1 == 8);
                        lemma_pixel_number_1(line as int, r as int, bit as int, c as int);
                        assert(color == painted(bitmap@, fg, xor_mask, 1, done));
                    }
                    let ghost before = pixels@;
                    pixels[offset] = red(color);
                    pixels[offset + 1] = green(color);
                    pixels[offset + 2] = blue(color);
                    proof {
                        assert forall|k: int| 0 <= k < done + 1 implies {
                            let color = painted(bitmap@, fg, xor_mask, 1, k) as u32;
                            &&& #[trigger] pixels@[start + 3 * k] == red_of(color)
                            &&& pixels@[start + 3 * k + 1] == green_of(color)
                            &&& pixels@[start + 3 * k + 2] == blue_of(color)
                        } by {
                            if k < done {
                                assert(before[start + 3 * k] == pixels@[start + 3 * k]);
                            }
                        }
                        done = done + 1;
                    }
                    offset += BYTES_PER_PIXEL;
                    c += 1;
                }
                mask >>= 1;
                proof {
                    bit = (bit + 1) as u8;
                    if bit < 8 {
                        lemma_mask(mask, bit);
                    }
                }
            }
            r += 1;
        }
        line += 1;
    }
}

/// The pixel number of a part of a pixel at scale 2 tells its line, its
/// row, its bit and its column.
proof fn lemma_pixel_number_2(line: int, r: int, bit: int, c: int)
    requires
        0 <= line,
        0 <= r < 2,
        0 <= bit < 8,
        0 <= c < 2,
    ensures
        ({
            let k = line * 32 + r * 16 + bit * 2 + c;
            &&& k / 32int == line
            &&& (k / 16int) % 2int == r
            &&& (k / 2int) % 8int == bit
            &&& k % 2int == c
        }),
{
    let k = line * 32 + r * 16 + bit * 2 + c;
    vstd::arithmetic::div_mod::lemma_fundamental_div_mod_converse(
        k,
        32,
        line,
        r * 16 + bit * 2 + c,
    );
    vstd::arithmetic::div_mod::lemma_fundamental_div_mod_converse(
        k,
        16,
        line * 2 + r,
        bit * 2 + c,
    );
    vstd::arithmetic::div_mod::lemma_fundamental_div_mod_converse(line * 2 + r, 2, line, r);
    vstd::arithmetic::div_mod::lemma_fundamental_div_mod_converse(
        k,
        2,
        line * 16 + r * 8 + bit,
        c,
    );
    vstd::arithmetic::div_mod::lemma_fundamental_div_mod_converse(
        line * 16 + r * 8 + bit,
        8,
        line * 2 + r,
        bit,
    );
}

/// Paints a bitmap into a texture at scale 2, from byte `offset` on:
/// a square of four for a pixel of the bitmap, its bottom right corner
/// shaded.
pub fn set_pixels_2x2(pixels: &mut [u8], bitmap: &[u8], offset: usize, fg: u32, xor_mask: u8)
    requires
        offset + 3 * pixels_of(bitmap@.len() as int, 2) <= old(pixels)@.len(),
    ensures
        painted_over(final(pixels)@, old(pixels)@, bitmap@, offset as int, fg, xor_mask, 2),
{
    let start: usize = offset;
    let mut offset: usize = offset;
    let lines: usize = bitmap.len();
    let mut line: usize = 0;
    let ghost mut done: int = 0;
    assert(pixels_of(lines as int, 2) == lines * 32) by (nonlinear_arith);
    while line < lines
        invariant
            lines == bitmap@.len(),
            line <= lines,
            done == line * 32,
            offset == start + 3 * done,
            start + 3 * (lines * 32) <= pixels@.len(),
            pixels@.len() == old(pixels)@.len(),
            forall|k: int|
                0 <= k < done ==> {
                    let color = painted(bitmap@, fg, xor_mask, 2, k) as u32;
                    &&& #[trigger] pixels@[start + 3 * k] == red_of(color)
                    &&& pixels@[start + 3 * k + 1] == green_of(color)
                    &&& pixels@[start + 3 * k + 2] == blue_of(color)
                },
            forall|at: int|
                0 <= at < pixels@.len() && !(start <= at < start + 3 * done)
                    ==> #[trigger] pixels@[at] == old(pixels)@[at],
        decreases lines - line,
    {
        let byte: u8 = bitmap[line];
        let mut r: usize = 0;
        while r < 2
            invariant
                lines == bitmap@.len(),
                line < lines,
                byte == bitmap@[line as int],
                r <= 2,
                done == line * 32 + r * 16,
                offset == start + 3 * done,
                start + 3 * (lines * 32) <= pixels@.len(),
                pixels@.len() == old(pixels)@.len(),
                forall|k: int|
                    0 <= k < done ==> {
                        let color = painted(bitmap@, fg, xor_mask, 2, k) as u32;
                        &&& #[trigger] pixels@[start + 3 * k] == red_of(color)
                        &&& pixels@[start + 3 * k + 1] == green_of(color)
                        &&& pixels@[start + 3 * k + 2] == blue_of(color)
                    },
                forall|at: int|
                    0 <= at < pixels@.len() && !(start <= at < start + 3 * done)
                        ==> #[trigger] pixels@[at] == old(pixels)@[at],
            decreases 2 - r,
        {
            let mut mask: u8 = 0x80;
            let ghost mut bit: u8 = 0;
            assert(0x80u8 >> 0u8 == 0x80u8) by (bit_vector);
            assert(mask != 0);
            while mask != 0
                invariant
                    lines == bitmap@.len(),
                    line < lines,
                    byte == bitmap@[line as int],
                    r < 2,
                    bit <= 8,
                    bit < 8 ==> mask == 0x80u8 >> bit && mask != 0,
                    bit == 8 ==> mask == 0,
                    done == line * 32 + r * 16 + bit * 2,
                    offset == start + 3 * done,
                    start + 3 * (lines * 32) <= pixels@.len(),
                    pixels@.len() == old(pixels)@.len(),
                    forall|k: int|
                        0 <= k < done ==> {
                            let color = painted(bitmap@, fg, xor_mask, 2, k) as u32;
                            &&& #[trigger] pixels@[start + 3 * k] == red_of(color)
                            &&& pixels@[start + 3 * k + 1] == green_of(color)
                            &&& pixels@[start + 3 * k + 2] == blue_of(color)
                        },
                    forall|at: int|
                        0 <= at < pixels@.len() && !(start <= at < start + 3 * done)
                            ==> #[trigger] pixels@[at] == old(pixels)@[at],
                decreases 8 - bit,
            {
                proof {
                    lemma_mask(mask, bit);
                }
                let mut c: usize = 0;
                while c < 2
                    invariant
                        lines == bitmap@.len(),
                        line < lines,
                        byte == bitmap@[line as int],
                        r < 2,
                        bit < 8,
                        mask == 0x80u8 >> bit,
                        c <= 2,
                        done == line * 32 + r * 16 + bit * 2 + c,
                        offset == start + 3 * done,
                        start + 3 * (lines * 32) <= pixels@.len(),
                        pixels@.len() == old(pixels)@.len(),
                        forall|k: int|
                            0 <= k < done ==> {
                                let color = painted(bitmap@, fg, xor_mask, 2, k) as u32;
                                &&& #[trigger] pixels@[start + 3 * k] == red_of(color)
                                &&& pixels@[start + 3 * k + 1] == green_of(color)
                                &&& pixels@[start + 3 * k + 2] == blue_of(color)
                            },
                        forall|at: int|
                            0 <= at < pixels@.len() && !(start <= at < start + 3 * done)
                                ==> #[trigger] pixels@[at] == old(pixels)@[at],
                    decreases 2 - c,
                {
                    let color: u32 = if (byte ^ xor_mask) & mask != 0 {
                        if c == 1 && r == 1 {
                            between(fg, CRT_BACKGROUND)
                        } else {
                            fg
                        }
                    } else {
                        CRT_BACKGROUND
                    };
                    proof {
                        assert(8int * 2 * 2 == 32 && 8int * 2 == 16);
                        lemma_pixel_number_2(line as int, r as int, bit as int, c as int);
                        assert(color == painted(bitmap@, fg, xor_mask, 2, done));
                    }
                    let ghost before = pixels@;
                    pixels[offset] = red(color);
                    pixels[offset + 1] = green(color);
                    pixels[offset + 2] = blue(color);
                    proof {
                        assert forall|k: int| 0 <= k < done + 1 implies {
                            let color = painted(bitmap@, fg, xor_mask, 2, k) as u32;
                            &&& #[trigger] pixels@[start + 3 * k] == red_of(color)
                            &&& pixels@[start + 3 * k + 1] == green_of(color)
                            &&& pixels@[start + 3 * k + 2] == blue_of(color)
                        } by {
                            if k < done {
                                assert(before[start + 3 * k] == pixels@[start + 3 * k]);
                            }
                        }
                        done = done + 1;
                    }
                    offset += BYTES_PER_PIXEL;
                    c += 1;
                }
                mask >>= 1;
                proof {
                    bit = (bit + 1) as u8;
                    if bit < 8 {
                        lemma_mask(mask, bit);
                    }
                }
            }
            r += 1;
        }
        line += 1;
    }
}

/// The pixel number of a part of a pixel at scale 3 tells its line, its
/// row, its bit and its column.
proof fn lemma_pixel_number_3(line: int, r: int, bit: int, c: int)
    requires
        0 <= line,
        0 <= r < 3,
        0 <= bit < 8,
        0 <= c < 3,
    ensures
        ({
            let k = line * 72 + r * 24 + bit * 3 + c;
            &&& k / 72int == line
            &&& (k / 24int) % 3int == r
            &&& (k / 3int) % 8int == bit
            &&& k % 3int == c
        }),
{
    let k = line * 72 + r * 24 + bit * 3 + c;
    vstd::arithmetic::div_mod::lemma_fundamental_div_mod_converse(
        k,
        72,
        line,
        r * 24 + bit * 3 + c,
    );
    vstd::arithmetic::div_mod::lemma_fundamental_div_mod_converse(
        k,
        24,
        line * 3 + r,
        bit * 3 + c,
    );
    vstd::arithmetic::div_mod::lemma_fundamental_div_mod_converse(line * 3 + r, 3, line, r);
    vstd::arithmetic::div_mod::lemma_fundamental_div_mod_converse(
        k,
        3,
        line * 24 + r * 8 + bit,
        c,
    );
    vstd::arithmetic::div_mod::lemma_fundamental_div_mod_converse(
        line * 24 + r * 8 + bit,
        8,
        line * 3 + r,
        bit,
    );
}

/// Paints a bitmap into a texture at scale 3, from byte `offset` on:
/// a square of nine for a pixel of the bitmap, its last row and column
/// shaded.
pub fn set_pixels_3x3(pixels: &mut [u8], bitmap: &[u8], offset: usize, fg: u32, xor_mask: u8)
    requires
        offset + 3 * pixels_of(bitmap@.len() as int, 3) <= old(pixels)@.len(),
    ensures
        painted_over(final(pixels)@, old(pixels)@, bitmap@, offset as int, fg, xor_mask, 3),
{
    let start: usize = offset;
    let mut offset: usize = offset;
    let lines: usize = bitmap.len();
    let mut line: usize = 0;
    let ghost mut done: int = 0;
    assert(pixels_of(lines as int, 3) == lines * 72) by (nonlinear_arith);
    while line < lines
        invariant
            lines == bitmap@.len(),
            line <= lines,
            done == line * 72,
            offset == start + 3 * done,
            start + 3 * (lines * 72) <= pixels@.len(),
            pixels@.len() == old(pixels)@.len(),
            forall|k: int|
                0 <= k < done ==> {
                    let color = painted(bitmap@, fg, xor_mask, 3, k) as u32;
                    &&& #[trigger] pixels@[start + 3 * k] == red_of(color)
                    &&& pixels@[start + 3 * k + 1] == green_of(color)
                    &&& pixels@[start + 3 * k + 2] == blue_of(color)
                },
            forall|at: int|
                0 <= at < pixels@.len() && !(start <= at < start + 3 * done)
                    ==> #[trigger] pixels@[at] == old(pixels)@[at],
        decreases lines - line,
    {
        let byte: u8 = bitmap[line];
        let mut r: usize = 0;
        while r < 3
            invariant
                lines == bitmap@.len(),
                line < lines,
                byte == bitmap@[line as int],
                r <= 3,
                done == line * 72 + r * 24,
                offset == start + 3 * done,
                start + 3 * (lines * 72) <= pixels@.len(),
                pixels@.len() == old(pixels)@.len(),
                forall|k: int|
                    0 <= k < done ==> {
                        let color = painted(bitmap@, fg, xor_mask, 3, k) as u32;
                        &&& #[trigger] pixels@[start + 3 * k] == red_of(color)
                        &&& pixels@[start + 3 * k + 1] == green_of(color)
                        &&& pixels@[start + 3 * k + 2] == blue_of(color)
                    },
                forall|at: int|
                    0 <= at < pixels@.len() && !(start <= at < start + 3 * done)
                        ==> #[trigger] pixels@[at] == old(pixels)@[at],
            decreases 3 - r,
        {
            let mut mask: u8 = 0x80;
            let ghost mut bit: u8 = 0;
            assert(0x80u8 >> 0u8 == 0x80u8) by (bit_vector);
            assert(mask != 0);
            while mask != 0
                invariant
                    lines == bitmap@.len(),
                    line < lines,
                    byte == bitmap@[line as int],
                    r < 3,
                    bit <= 8,
                    bit < 8 ==> mask == 0x80u8 >> bit && mask != 0,
                    bit == 8 ==> mask == 0,
                    done == line * 72 + r * 24 + bit * 3,
                    offset == start + 3 * done,
                    start + 3 * (lines * 72) <= pixels@.len(),
                    pixels@.len() == old(pixels)@.len(),
                    forall|k: int|
                        0 <= k < done ==> {
                            let color = painted(bitmap@, fg, xor_mask, 3, k) as u32;
                            &&& #[trigger] pixels@[start + 3 * k] == red_of(color)
                            &&& pixels@[start + 3 * k + 1] == green_of(color)
                            &&& pixels@[start + 3 * k + 2] == blue_of(color)
                        },
                    forall|at: int|
                        0 <= at < pixels@.len() && !(start <= at < start + 3 * done)
                            ==> #[trigger] pixels@[at] == old(pixels)@[at],
                decreases 8 - bit,
            {
                proof {
                    lemma_mask(mask, bit);
                }
                let mut c: usize = 0;
                while c < 3
                    invariant
                        lines == bitmap@.len(),
                        line < lines,
                        byte == bitmap@[line as int],
                        r < 3,
                        bit < 8,
                        mask == 0x80u8 >> bit,
                        c <= 3,
                        done == line * 72 + r * 24 + bit * 3 + c,
                        offset == start + 3 * done,
                        start + 3 * (lines * 72) <= pixels@.len(),
                        pixels@.len() == old(pixels)@.len(),
                        forall|k: int|
                            0 <= k < done ==> {
                                let color = painted(bitmap@, fg, xor_mask, 3, k) as u32;
                                &&& #[trigger] pixels@[start + 3 * k] == red_of(color)
                                &&& pixels@[start + 3 * k + 1] == green_of(color)
                                &&& pixels@[start + 3 * k + 2] == blue_of(color)
                            },
                        forall|at: int|
                            0 <= at < pixels@.len() && !(start <= at < start + 3 * done)
                                ==> #[trigger] pixels@[at] == old(pixels)@[at],
                    decreases 3 - c,
                {
                    let color: u32 = if (byte ^ xor_mask) & mask != 0 {
                        if r < 2 && c < 2 {
                            fg
                        } else {
                            between(fg, CRT_BACKGROUND)
                        }
                    } else {
                        CRT_BACKGROUND
                    };
                    proof {
                        assert(8int * 3 * 3 == 72 && 8int * 3 == 24);
                        lemma_pixel_number_3(line as int, r as int, bit as int, c as int);
                        assert(color == painted(bitmap@, fg, xor_mask, 3, done));
                    }
                    let ghost before = pixels@;
                    pixels[offset] = red(color);
                    pixels[offset + 1] = green(color);
                    pixels[offset + 2] = blue(color);
                    proof {
                        assert forall|k: int| 0 <= k < done + 1 implies {
                            let color = painted(bitmap@, fg, xor_mask, 3, k) as u32;
                            &&& #[trigger] pixels@[start + 3 * k] == red_of(color)
                            &&& pixels@[start + 3 * k + 1] == green_of(color)
                            &&& pixels@[start + 3 * k + 2] == blue_of(color)
                        } by {
                            if k < done {
                                assert(before[start + 3 * k] == pixels@[start + 3 * k]);
                            }
                        }
                        done = done + 1;
                    }
                    offset += BYTES_PER_PIXEL;
                    c += 1;
                }
                mask >>= 1;
                proof {
                    bit = (bit + 1) as u8;
                    if bit < 8 {
                        lemma_mask(mask, bit);
                    }
                }
            }
            r += 1;
        }
        line += 1;
    }
}

/// The pixel number of a part of a pixel at scale 4 tells its line, its
/// row, its bit and its column.
proof fn lemma_pixel_number_4(line: int, r: int, bit: int, c: int)
    requires
        0 <= line,
        0 <= r < 4,
        0 <= bit < 8,
        0 <= c < 4,
    ensures
        ({
            let k = line * 128 + r * 32 + bit * 4 + c;
            &&& k / 128int == line
            &&& (k / 32int) % 4int == r
            &&& (k / 4int) % 8int == bit
            &&& k % 4int == c
        }),
{
    let k = line * 128 + r * 32 + bit * 4 + c;
    vstd::arithmetic::div_mod::lemma_fundamental_div_mod_converse(
        k,
        128,
        line,
        r * 32 + bit * 4 + c,
    );
    vstd::arithmetic::div_mod::lemma_fundamental_div_mod_converse(
        k,
        32,
        line * 4 + r,
        bit * 4 + c,
    );
    vstd::arithmetic::div_mod::lemma_fundamental_div_mod_converse(line * 4 + r, 4, line, r);
    vstd::arithmetic::div_mod::lemma_fundamental_div_mod_converse(
        k,
        4,
        line * 32 + r * 8 + bit,
        c,
    );
    vstd::arithmetic::div_mod::lemma_fundamental_div_mod_converse(
        line * 32 + r * 8 + bit,
        8,
        line * 4 + r,
        bit,
    );
}

/// Paints a bitmap into a texture at scale 4, from byte `offset` on:
/// a square of sixteen for a pixel of the bitmap, its last row and
/// column shaded.
pub fn set_pixels_4x4(pixels: &mut [u8], bitmap: &[u8], offset: usize, fg: u32, xor_mask: u8)
    requires
        offset + 3 * pixels_of(bitmap@.len() as int, 4) <= old(pixels)@.len(),
    ensures
        painted_over(final(pixels)@, old(pixels)@, bitmap@, offset as int, fg, xor_mask, 4),
{
    let start: usize = offset;
    let mut offset: usize = offset;
    let lines: usize = bitmap.len();
    let mut line: usize = 0;
    let ghost mut done: int = 0;
    assert(pixels_of(lines as int, 4) == lines * 128) by (nonlinear_arith);
    while line < lines
        invariant
            lines == bitmap@.len(),
            line <= lines,
            done == line * 128,
            offset == start + 3 * done,
            start + 3 * (lines * 128) <= pixels@.len(),
            pixels@.len() == old(pixels)@.len(),
            forall|k: int|
                0 <= k < done ==> {
                    let color = painted(bitmap@, fg, xor_mask, 4, k) as u32;
                    &&& #[trigger] pixels@[start + 3 * k] == red_of(color)
                    &&& pixels@[start + 3 * k + 1] == green_of(color)
                    &&& pixels@[start + 3 * k + 2] == blue_of(color)
                },
            forall|at: int|
                0 <= at < pixels@.len() && !(start <= at < start + 3 * done)
                    ==> #[trigger] pixels@[at] == old(pixels)@[at],
        decreases lines - line,
    {
        let byte: u8 = bitmap[line];
        let mut r: usize = 0;
        while r < 4
            invariant
                lines == bitmap@.len(),
                line < lines,
                byte == bitmap@[line as int],
                r <= 4,
                done == line * 128 + r * 32,
                offset == start + 3 * done,
                start + 3 * (lines * 128) <= pixels@.len(),
                pixels@.len() == old(pixels)@.len(),
                forall|k: int|
                    0 <= k < done ==> {
                        let color = painted(bitmap@, fg, xor_mask, 4, k) as u32;
                        &&& #[trigger] pixels@[start + 3 * k] == red_of(color)
                        &&& pixels@[start + 3 * k + 1] == green_of(color)
                        &&& pixels@[start + 3 * k + 2] == blue_of(color)
                    },
                forall|at: int|
                    0 <= at < pixels@.len() && !(start <= at < start + 3 * done)
                        ==> #[trigger] pixels@[at] == old(pixels)@[at],
            decreases 4 - r,
        {
            let mut mask: u8 = 0x80;
            let ghost mut bit: u8 = 0;
            assert(0x80u8 >> 0u8 == 0x80u8) by (bit_vector);
            assert(mask != 0);
            while mask != 0
                invariant
                    lines == bitmap@.len(),
                    line < lines,
                    byte == bitmap@[line as int],
                    r < 4,
                    bit <= 8,
                    bit < 8 ==> mask == 0x80u8 >> bit && mask != 0,
                    bit == 8 ==> mask == 0,
                    done == line * 128 + r * 32 + bit * 4,
                    offset == start + 3 * done,
                    start + 3 * (lines * 128) <= pixels@.len(),
                    pixels@.len() == old(pixels)@.len(),
                    forall|k: int|
                        0 <= k < done ==> {
                            let color = painted(bitmap@, fg, xor_mask, 4, k) as u32;
                            &&& #[trigger] pixels@[start + 3 * k] == red_of(color)
                            &&& pixels@[start + 3 * k + 1] == green_of(color)
                            &&& pixels@[start + 3 * k + 2] == blue_of(color)
                        },
                    forall|at: int|
                        0 <= at < pixels@.len() && !(start <= at < start + 3 * done)
                            ==> #[trigger] pixels@[at] == old(pixels)@[at],
                decreases 8 - bit,
            {
                proof {
                    lemma_mask(mask, bit);
                }
                let mut c: usize = 0;
                while c < 4
                    invariant
                        lines == bitmap@.len(),
                        line < lines,
                        byte == bitmap@[line as int],
                        r < 4,
                        bit < 8,
                        mask == 0x80u8 >> bit,
                        c <= 4,
                        done == line * 128 + r * 32 + bit * 4 + c,
                        offset == start + 3 * done,
                        start + 3 * (lines * 128) <= pixels@.len(),
                        pixels@.len() == old(pixels)@.len(),
                        forall|k: int|
                            0 <= k < done ==> {
                                let color = painted(bitmap@, fg, xor_mask, 4, k) as u32;
                                &&& #[trigger] pixels@[start + 3 * k] == red_of(color)
                                &&& pixels@[start + 3 * k + 1] == green_of(color)
                                &&& pixels@[start + 3 * k + 2] == blue_of(color)
                            },
                        forall|at: int|
                            0 <= at < pixels@.len() && !(start <= at < start + 3 * done)
                                ==> #[trigger] pixels@[at] == old(pixels)@[at],
                    decreases 4 - c,
                {
                    let color: u32 = if (byte ^ xor_mask) & mask != 0 {
                        if r < 3 && c < 3 {
                            fg
                        } else {
                            between(fg, CRT_BACKGROUND)
                        }
                    } else {
                        CRT_BACKGROUND
                    };
                    proof {
                        assert(8int * 4 * 4 == 128 && 8int * 4 == 32);
                        lemma_pixel_number_4(line as int, r as int, bit as int, c as int);
                        assert(color == painted(bitmap@, fg, xor_mask, 4, done));
                    }
                    let ghost before = pixels@;
                    pixels[offset] = red(color);
                    pixels[offset + 1] = green(color);
                    pixels[offset + 2] = blue(color);
                    proof {
                        assert forall|k: int| 0 <= k < done + 1 implies {
                            let color = painted(bitmap@, fg, xor_mask, 4, k) as u32;
                            &&& #[trigger] pixels@[start + 3 * k] == red_of(color)
                            &&& pixels@[start + 3 * k + 1] == green_of(color)
                            &&& pixels@[start + 3 * k + 2] == blue_of(color)
                        } by {
                            if k < done {
                                assert(before[start + 3 * k] == pixels@[start + 3 * k]);
                            }
                        }
                        done = done + 1;
                    }
                    offset += BYTES_PER_PIXEL;
                    c += 1;
                }
                mask >>= 1;
                proof {
                    bit = (bit + 1) as u8;
                    if bit < 8 {
                        lemma_mask(mask, bit);
                    }
                }
            }
            r += 1;
        }
        line += 1;
    }
}

/// How many bytes the texture of a character set takes at `scale`.
pub open spec fn texture_len(scale: int) -> int {
    256 * 3 * (8 * scale) * (12 * scale)
}

/// Where the glyph with the code `first` begins in a texture at `scale`.
pub open spec fn glyph_offset(first: int, scale: int) -> int {
    first * 3 * (8 * scale) * (12 * scale)
}

/// The ink for a colour under an attribute: dimmed, the colour at half
/// its brightness.
pub open spec fn ink(attrs: u8, color: u32) -> u32 {
    if attrs & ATTR_DIM == 0 {
        color
    } else {
        dimmed(color) as u32
    }
}

/// The mask that exchanges ink and paper under an attribute that is
/// reversed, and leaves them under one that is not.
pub open spec fn reversal(attrs: u8) -> u8 {
    if attrs & ATTR_REVERSE == 0 {
        0
    } else {
        0xff
    }
}

/// Paints the glyphs of a bitmap into the texture of one attribute, from
/// the glyph with the code `first` on, in `color`: dimmed and reversed as
/// the attribute says. At a scale other than 1 to 4 nothing is painted.
pub fn set_pixels(pixels: &mut [u8], bitmap: &[u8], first: u8, attrs: u8, scale: usize, color: u32)
    requires
        bitmap@.len() % 12 == 0,
        first + bitmap@.len() / 12 <= 256,
        1 <= scale <= 4 ==> old(pixels)@.len() == texture_len(scale as int),
    ensures
        1 <= scale <= 4 ==> painted_over(
            final(pixels)@,
            old(pixels)@,
            bitmap@,
            glyph_offset(first as int, scale as int),
            ink(attrs, color),
            reversal(attrs),
            scale as int,
        ),
        !(1 <= scale <= 4) ==> final(pixels)@ == old(pixels)@,
{
    let fg: u32 = if attrs & ATTR_DIM == 0 {
        color
    } else {
        dim(color)
    };
    let xor_mask: u8 = if attrs & ATTR_REVERSE == 0 {
        0
    } else {
        0xff
    };
    let glyph: usize = first as usize;
    let ghost lines = bitmap@.len() as int;
    proof {
        assert(pixels_of(lines, 1) == lines * 8) by (nonlinear_arith);
        assert(pixels_of(lines, 2) == lines * 32) by (nonlinear_arith);
        assert(pixels_of(lines, 3) == lines * 72) by (nonlinear_arith);
        assert(pixels_of(lines, 4) == lines * 128) by (nonlinear_arith);
        assert(glyph_offset(first as int, 1) == first * 288 && texture_len(1) == 256 * 288)
            by (nonlinear_arith);
        assert(glyph_offset(first as int, 2) == first * 1152 && texture_len(2) == 256 * 1152)
            by (nonlinear_arith);
        assert(glyph_offset(first as int, 3) == first * 2592 && texture_len(3) == 256 * 2592)
            by (nonlinear_arith);
        assert(glyph_offset(first as int, 4) == first * 4608 && texture_len(4) == 256 * 4608)
            by (nonlinear_arith);
        assert(lines <= (256 - first) * 12);
    }
    if scale == 1 {
        set_pixels_1x1(pixels, bitmap, glyph * 288, fg, xor_mask);
    } else if scale == 2 {
        set_pixels_2x2(pixels, bitmap, glyph * 1152, fg, xor_mask);
    } else if scale == 3 {
        set_pixels_3x3(pixels, bitmap, glyph * 2592, fg, xor_mask);
    } else if scale == 4 {
        set_pixels_4x4(pixels, bitmap, glyph * 4608, fg, xor_mask);
    }
}

/// The bitmaps of the four glyphs of a large glyph, one after another:
/// top left, top right, bottom left, bottom right. A large glyph has a
/// word for each of its twenty-four lines, the left half in the high
/// byte.
pub open spec fn quartered(wide: Seq<u16>) -> Seq<u8> {
    Seq::new(
        48,
        |i: int|
            if i < 12 {
                (wide[i] / 0x100) as u8
            } else if i < 24 {
                (wide[i - 12] % 0x100) as u8
            } else if i < 36 {
                (wide[i - 12] / 0x100) as u8
            } else {
                (wide[i - 24] % 0x100) as u8
            },
    )
}

/// The bitmaps of the glyphs of large glyphs, one after another.
pub open spec fn unfolded(wide: Seq<u16>) -> Seq<u8>
    decreases wide.len(),
{
    if wide.len() < 24 {
        Seq::empty()
    } else {
        unfolded(wide.subrange(0, wide.len() - 24)) + quartered(
            wide.subrange(wide.len() - 24, wide.len() as int),
        )
    }
}

/// The four glyphs of the large glyph that begins at word `from`.
fn quarters(bitmap: &[u16], from: usize) -> (out: Vec<u8>)
    requires
        from + 24 <= bitmap@.len(),
    ensures
        out@ == quartered(bitmap@.subrange(from as int, from + 24)),
{
    let mut out: Vec<u8> = Vec::new();
    let ghost wide = bitmap@.subrange(from as int, from + 24);
    let words: usize = bitmap.len();
    let mut i: usize = 0;
    while i < 48
        invariant
            words == bitmap@.len(),
            from + 24 <= bitmap@.len(),
            wide == bitmap@.subrange(from as int, from + 24),
            i <= 48,
            out@.len() == i,
            forall|k: int| 0 <= k < i ==> out@[k] == quartered(wide)[k],
        decreases 48 - i,
    {
        let row: usize = if i < 12 {
            i
        } else if i < 36 {
            i - 12
        } else {
            i - 24
        };
        let word: u16 = bitmap[from + row];
        assert(wide[row as int] == word);
        let left: bool = i < 12 || (24 <= i && i < 36);
        assert(word >> 8 == word / 0x100 && word & 0xff == word % 0x100 && word >> 8 < 0x100
            && word & 0xff < 0x100) by (bit_vector);
        let byte: u8 = if left {
            (word >> 8) as u8
        } else {
            (word & 0xff) as u8
        };
        out.push(byte);
        i += 1;
    }
    assert(out@ =~= quartered(wide));
    out
}

/// A pixel number at scale 1 that is moved on by whole lines keeps its
/// place within its line.
proof fn lemma_shifted_1(k: int, lines: int)
    requires
        0 <= lines,
        lines * 8 <= k,
    ensures
        k / 8int == (k - lines * 8) / 8int + lines,
        (k / 8int) % 1int == ((k - lines * 8) / 8int) % 1int,
        (k / 1int) % 8int == ((k - lines * 8) / 1int) % 8int,
        k % 1int == (k - lines * 8) % 1int,
{
    let j = k - lines * 8;
    vstd::arithmetic::div_mod::lemma_hoist_over_denominator(j, lines, 8nat);
    assert(j + lines * 8 == k);
    vstd::arithmetic::div_mod::lemma_hoist_over_denominator(j, lines * 1, 8nat);
    assert(j + (lines * 1) * 8 == k);
    vstd::arithmetic::div_mod::lemma_mod_multiples_vanish(lines, j / 8int, 1);
    assert(1 * lines + j / 8int == k / 8int);
    vstd::arithmetic::div_mod::lemma_hoist_over_denominator(j, lines * 8, 1nat);
    assert(j + (lines * 8) * 1 == k);
    vstd::arithmetic::div_mod::lemma_mod_multiples_vanish(lines * 1, j / 1int, 8);
    assert(8 * (lines * 1) + j / 1int == k / 1int);
    vstd::arithmetic::div_mod::lemma_mod_multiples_vanish(lines * 8, j, 1);
    assert(1 * (lines * 8) + j == k);
}

/// Painting one bitmap after another at scale 1 is painting the two as
/// one.
proof fn lemma_painted_in_turn_1(
    before: Seq<u8>,
    middle: Seq<u8>,
    after: Seq<u8>,
    first: Seq<u8>,
    second: Seq<u8>,
    offset: int,
    fg: u32,
    xor_mask: u8,
)
    requires
        painted_over(middle, before, first, offset, fg, xor_mask, 1),
        painted_over(
            after,
            middle,
            second,
            offset + 3 * pixels_of(first.len() as int, 1),
            fg,
            xor_mask,
            1,
        ),
    ensures
        painted_over(after, before, first + second, offset, fg, xor_mask, 1),
{
    let both = first + second;
    let next = offset + 3 * pixels_of(first.len() as int, 1);
    assert(both.len() == first.len() + second.len());
    assert(8int * 1 * 1 == 8 && 8int * 1 == 8);
    assert(pixels_of(first.len() as int, 1) == first.len() * 8) by (nonlinear_arith);
    assert(pixels_of(second.len() as int, 1) == second.len() * 8) by (nonlinear_arith);
    assert(pixels_of(both.len() as int, 1) == both.len() * 8) by (nonlinear_arith);
    assert forall|k: int| 0 <= k < pixels_of(both.len() as int, 1) implies {
        let color = painted(both, fg, xor_mask, 1, k) as u32;
        &&& #[trigger] after[offset + 3 * k] == red_of(color)
        &&& after[offset + 3 * k + 1] == green_of(color)
        &&& after[offset + 3 * k + 2] == blue_of(color)
    } by {
        if k < first.len() * 8 {
            assert(k / 8int < first.len());
            assert(both[k / 8int] == first[k / 8int]);
            assert(painted(both, fg, xor_mask, 1, k) == painted(first, fg, xor_mask, 1, k));
            assert(middle[offset + 3 * k] == after[offset + 3 * k]);
            assert(middle[offset + 3 * k + 1] == after[offset + 3 * k + 1]);
            assert(middle[offset + 3 * k + 2] == after[offset + 3 * k + 2]);
        } else {
            let j = k - first.len() * 8;
            lemma_shifted_1(k, first.len() as int);
            assert(both[k / 8int] == second[j / 8int]);
            assert(painted(both, fg, xor_mask, 1, k) == painted(second, fg, xor_mask, 1, j));
            assert(after[next + 3 * j] == after[offset + 3 * k]);
            assert(after[next + 3 * j + 1] == after[offset + 3 * k + 1]);
            assert(after[next + 3 * j + 2] == after[offset + 3 * k + 2]);
        }
    }
    assert forall|at: int|
        0 <= at < after.len() && !(offset <= at < offset + 3 * pixels_of(
            both.len() as int,
            1,
        )) implies #[trigger] after[at] == before[at] by {
        assert(after[at] == middle[at]);
    }
}

/// A pixel number at scale 2 that is moved on by whole lines keeps its
/// place within its line.
proof fn lemma_shifted_2(k: int, lines: int)
    requires
        0 <= lines,
        lines * 32 <= k,
    ensures
        k / 32int == (k - lines * 32) / 32int + lines,
        (k / 16int) % 2int == ((k - lines * 32) / 16int) % 2int,
        (k / 2int) % 8int == ((k - lines * 32) / 2int) % 8int,
        k % 2int == (k - lines * 32) % 2int,
{
    let j = k - lines * 32;
    vstd::arithmetic::div_mod::lemma_hoist_over_denominator(j, lines, 32nat);
    assert(j + lines * 32 == k);
    vstd::arithmetic::div_mod::lemma_hoist_over_denominator(j, lines * 2, 16nat);
    assert(j + (lines * 2) * 16 == k);
    vstd::arithmetic::div_mod::lemma_mod_multiples_vanish(lines, j / 16int, 2);
    assert(2 * lines + j / 16int == k / 16int);
    vstd::arithmetic::div_mod::lemma_hoist_over_denominator(j, lines * 16, 2nat);
    assert(j + (lines * 16) * 2 == k);
    vstd::arithmetic::div_mod::lemma_mod_multiples_vanish(lines * 2, j / 2int, 8);
    assert(8 * (lines * 2) + j / 2int == k / 2int);
    vstd::arithmetic::div_mod::lemma_mod_multiples_vanish(lines * 16, j, 2);
    assert(2 * (lines * 16) + j == k);
}

/// Painting one bitmap after another at scale 2 is painting the two as
/// one.
proof fn lemma_painted_in_turn_2(
    before: Seq<u8>,
    middle: Seq<u8>,
    after: Seq<u8>,
    first: Seq<u8>,
    second: Seq<u8>,
    offset: int,
    fg: u32,
    xor_mask: u8,
)
    requires
        painted_over(middle, before, first, offset, fg, xor_mask, 2),
        painted_over(
            after,
            middle,
            second,
            offset + 3 * pixels_of(first.len() as int, 2),
            fg,
            xor_mask,
            2,
        ),
    ensures
        painted_over(after, before, first + second, offset, fg, xor_mask, 2),
{
    let both = first + second;
    let next = offset + 3 * pixels_of(first.len() as int, 2);
    assert(both.len() == first.len() + second.len());
    assert(8int * 2 * 2 == 32 && 8int * 2 == 16);
    assert(pixels_of(first.len() as int, 2) == first.len() * 32) by (nonlinear_arith);
    assert(pixels_of(second.len() as int, 2) == second.len() * 32) by (nonlinear_arith);
    assert(pixels_of(both.len() as int, 2) == both.len() * 32) by (nonlinear_arith);
    assert forall|k: int| 0 <= k < pixels_of(both.len() as int, 2) implies {
        let color = painted(both, fg, xor_mask, 2, k) as u32;
        &&& #[trigger] after[offset + 3 * k] == red_of(color)
        &&& after[offset + 3 * k + 1] == green_of(color)
        &&& after[offset + 3 * k + 2] == blue_of(color)
    } by {
        if k < first.len() * 32 {
            assert(k / 32int < first.len());
            assert(both[k / 32int] == first[k / 32int]);
            assert(painted(both, fg, xor_mask, 2, k) == painted(first, fg, xor_mask, 2, k));
            assert(middle[offset + 3 * k] == after[offset + 3 * k]);
            assert(middle[offset + 3 * k + 1] == after[offset + 3 * k + 1]);
            assert(middle[offset + 3 * k + 2] == after[offset + 3 * k + 2]);
        } else {
            let j = k - first.len() * 32;
            lemma_shifted_2(k, first.len() as int);
            assert(both[k / 32int] == second[j / 32int]);
            assert(painted(both, fg, xor_mask, 2, k) == painted(second, fg, xor_mask, 2, j));
            assert(after[next + 3 * j] == after[offset + 3 * k]);
            assert(after[next + 3 * j + 1] == after[offset + 3 * k + 1]);
            assert(after[next + 3 * j + 2] == after[offset + 3 * k + 2]);
        }
    }
    assert forall|at: int|
        0 <= at < after.len() && !(offset <= at < offset + 3 * pixels_of(
            both.len() as int,
            2,
        )) implies #[trigger] after[at] == before[at] by {
        assert(after[at] == middle[at]);
    }
}

/// A pixel number at scale 3 that is moved on by whole lines keeps its
/// place within its line.
proof fn lemma_shifted_3(k: int, lines: int)
    requires
        0 <= lines,
        lines * 72 <= k,
    ensures
        k / 72int == (k - lines * 72) / 72int + lines,
        (k / 24int) % 3int == ((k - lines * 72) / 24int) % 3int,
        (k / 3int) % 8int == ((k - lines * 72) / 3int) % 8int,
        k % 3int == (k - lines * 72) % 3int,
{
    let j = k - lines * 72;
    vstd::arithmetic::div_mod::lemma_hoist_over_denominator(j, lines, 72nat);
    assert(j + lines * 72 == k);
    vstd::arithmetic::div_mod::lemma_hoist_over_denominator(j, lines * 3, 24nat);
    assert(j + (lines * 3) * 24 == k);
    vstd::arithmetic::div_mod::lemma_mod_multiples_vanish(lines, j / 24int, 3);
    assert(3 * lines + j / 24int == k / 24int);
    vstd::arithmetic::div_mod::lemma_hoist_over_denominator(j, lines * 24, 3nat);
    assert(j + (lines * 24) * 3 == k);
    vstd::arithmetic::div_mod::lemma_mod_multiples_vanish(lines * 3, j / 3int, 8);
    assert(8 * (lines * 3) + j / 3int == k / 3int);
    vstd::arithmetic::div_mod::lemma_mod_multiples_vanish(lines * 24, j, 3);
    assert(3 * (lines * 24) + j == k);
}

/// Painting one bitmap after another at scale 3 is painting the two as
/// one.
proof fn lemma_painted_in_turn_3(
    before: Seq<u8>,
    middle: Seq<u8>,
    after: Seq<u8>,
    first: Seq<u8>,
    second: Seq<u8>,
    offset: int,
    fg: u32,
    xor_mask: u8,
)
    requires
        painted_over(middle, before, first, offset, fg, xor_mask, 3),
        painted_over(
            after,
            middle,
            second,
            offset + 3 * pixels_of(first.len() as int, 3),
            fg,
            xor_mask,
            3,
        ),
    ensures
        painted_over(after, before, first + second, offset, fg, xor_mask, 3),
{
    let both = first + second;
    let next = offset + 3 * pixels_of(first.len() as int, 3);
    assert(both.len() == first.len() + second.len());
    assert(8int * 3 * 3 == 72 && 8int * 3 == 24);
    assert(pixels_of(first.len() as int, 3) == first.len() * 72) by (nonlinear_arith);
    assert(pixels_of(second.len() as int, 3) == second.len() * 72) by (nonlinear_arith);
    assert(pixels_of(both.len() as int, 3) == both.len() * 72) by (nonlinear_arith);
    assert forall|k: int| 0 <= k < pixels_of(both.len() as int, 3) implies {
        let color = painted(both, fg, xor_mask, 3, k) as u32;
        &&& #[trigger] after[offset + 3 * k] == red_of(color)
        &&& after[offset + 3 * k + 1] == green_of(color)
        &&& after[offset + 3 * k + 2] == blue_of(color)
    } by {
        if k < first.len() * 72 {
            assert(k / 72int < first.len());
            assert(both[k / 72int] == first[k / 72int]);
            assert(painted(both, fg, xor_mask, 3, k) == painted(first, fg, xor_mask, 3, k));
            assert(middle[offset + 3 * k] == after[offset + 3 * k]);
            assert(middle[offset + 3 * k + 1] == after[offset + 3 * k + 1]);
            assert(middle[offset + 3 * k + 2] == after[offset + 3 * k + 2]);
        } else {
            let j = k - first.len() * 72;
            lemma_shifted_3(k, first.len() as int);
            assert(both[k / 72int] == second[j / 72int]);
            assert(painted(both, fg, xor_mask, 3, k) == painted(second, fg, xor_mask, 3, j));
            assert(after[next + 3 * j] == after[offset + 3 * k]);
            assert(after[next + 3 * j + 1] == after[offset + 3 * k + 1]);
            assert(after[next + 3 * j + 2] == after[offset + 3 * k + 2]);
        }
    }
    assert forall|at: int|
        0 <= at < after.len() && !(offset <= at < offset + 3 * pixels_of(
            both.len() as int,
            3,
        )) implies #[trigger] after[at] == before[at] by {
        assert(after[at] == middle[at]);
    }
}

/// A pixel number at scale 4 that is moved on by whole lines keeps its
/// place within its line.
proof fn lemma_shifted_4(k: int, lines: int)
    requires
        0 <= lines,
        lines * 128 <= k,
    ensures
        k / 128int == (k - lines * 128) / 128int + lines,
        (k / 32int) % 4int == ((k - lines * 128) / 32int) % 4int,
        (k / 4int) % 8int == ((k - lines * 128) / 4int) % 8int,
        k % 4int == (k - lines * 128) % 4int,
{
    let j = k - lines * 128;
    vstd::arithmetic::div_mod::lemma_hoist_over_denominator(j, lines, 128nat);
    assert(j + lines * 128 == k);
    vstd::arithmetic::div_mod::lemma_hoist_over_denominator(j, lines * 4, 32nat);
    assert(j + (lines * 4) * 32 == k);
    vstd::arithmetic::div_mod::lemma_mod_multiples_vanish(lines, j / 32int, 4);
    assert(4 * lines + j / 32int == k / 32int);
    vstd::arithmetic::div_mod::lemma_hoist_over_denominator(j, lines * 32, 4nat);
    assert(j + (lines * 32) * 4 == k);
    vstd::arithmetic::div_mod::lemma_mod_multiples_vanish(lines * 4, j / 4int, 8);
    assert(8 * (lines * 4) + j / 4int == k / 4int);
    vstd::arithmetic::div_mod::lemma_mod_multiples_vanish(lines * 32, j, 4);
    assert(4 * (lines * 32) + j == k);
}

/// Painting one bitmap after another at scale 4 is painting the two as
/// one.
proof fn lemma_painted_in_turn_4(
    before: Seq<u8>,
    middle: Seq<u8>,
    after: Seq<u8>,
    first: Seq<u8>,
    second: Seq<u8>,
    offset: int,
    fg: u32,
    xor_mask: u8,
)
    requires
        painted_over(middle, before, first, offset, fg, xor_mask, 4),
        painted_over(
            after,
            middle,
            second,
            offset + 3 * pixels_of(first.len() as int, 4),
            fg,
            xor_mask,
            4,
        ),
    ensures
        painted_over(after, before, first + second, offset, fg, xor_mask, 4),
{
    let both = first + second;
    let next = offset + 3 * pixels_of(first.len() as int, 4);
    assert(both.len() == first.len() + second.len());
    assert(8int * 4 * 4 == 128 && 8int * 4 == 32);
    assert(pixels_of(first.len() as int, 4) == first.len() * 128) by (nonlinear_arith);
    assert(pixels_of(second.len() as int, 4) == second.len() * 128) by (nonlinear_arith);
    assert(pixels_of(both.len() as int, 4) == both.len() * 128) by (nonlinear_arith);
    assert forall|k: int| 0 <= k < pixels_of(both.len() as int, 4) implies {
        let color = painted(both, fg, xor_mask, 4, k) as u32;
        &&& #[trigger] after[offset + 3 * k] == red_of(color)
        &&& after[offset + 3 * k + 1] == green_of(color)
        &&& after[offset + 3 * k + 2] == blue_of(color)
    } by {
        if k < first.len() * 128 {
            assert(k / 128int < first.len());
            assert(both[k / 128int] == first[k / 128int]);
            assert(painted(both, fg, xor_mask, 4, k) == painted(first, fg, xor_mask, 4, k));
            assert(middle[offset + 3 * k] == after[offset + 3 * k]);
            assert(middle[offset + 3 * k + 1] == after[offset + 3 * k + 1]);
            assert(middle[offset + 3 * k + 2] == after[offset + 3 * k + 2]);
        } else {
            let j = k - first.len() * 128;
            lemma_shifted_4(k, first.len() as int);
            assert(both[k / 128int] == second[j / 128int]);
            assert(painted(both, fg, xor_mask, 4, k) == painted(second, fg, xor_mask, 4, j));
            assert(after[next + 3 * j] == after[offset + 3 * k]);
            assert(after[next + 3 * j + 1] == after[offset + 3 * k + 1]);
            assert(after[next + 3 * j + 2] == after[offset + 3 * k + 2]);
        }
    }
    assert forall|at: int|
        0 <= at < after.len() && !(offset <= at < offset + 3 * pixels_of(
            both.len() as int,
            4,
        )) implies #[trigger] after[at] == before[at] by {
        assert(after[at] == middle[at]);
    }
}

/// Painting one bitmap after another is painting the two as one.
pub proof fn lemma_painted_in_turn(
    before: Seq<u8>,
    middle: Seq<u8>,
    after: Seq<u8>,
    first: Seq<u8>,
    second: Seq<u8>,
    offset: int,
    fg: u32,
    xor_mask: u8,
    scale: int,
)
    requires
        1 <= scale <= 4,
        painted_over(middle, before, first, offset, fg, xor_mask, scale),
        painted_over(
            after,
            middle,
            second,
            offset + 3 * pixels_of(first.len() as int, scale),
            fg,
            xor_mask,
            scale,
        ),
    ensures
        painted_over(after, before, first + second, offset, fg, xor_mask, scale),
{
    if scale == 1 {
        lemma_painted_in_turn_1(before, middle, after, first, second, offset, fg, xor_mask);
    } else if scale == 2 {
        lemma_painted_in_turn_2(before, middle, after, first, second, offset, fg, xor_mask);
    } else if scale == 3 {
        lemma_painted_in_turn_3(before, middle, after, first, second, offset, fg, xor_mask);
    } else {
        lemma_painted_in_turn_4(before, middle, after, first, second, offset, fg, xor_mask);
    }
}

/// The glyphs of whole large glyphs unfold one large glyph after another.
proof fn lemma_unfolded_step(wide: Seq<u16>, glyphs: int)
    requires
        0 <= glyphs,
        24 * (glyphs + 1) <= wide.len(),
    ensures
        unfolded(wide.subrange(0, 24 * (glyphs + 1))) == unfolded(wide.subrange(0, 24 * glyphs))
            + quartered(wide.subrange(24 * glyphs, 24 * glyphs + 24)),
        unfolded(wide.subrange(0, 24 * glyphs)).len() == 48 * glyphs,
    decreases glyphs,
{
    let longer = wide.subrange(0, 24 * (glyphs + 1));
    assert(longer.subrange(0, longer.len() - 24) =~= wide.subrange(0, 24 * glyphs));
    assert(longer.subrange(longer.len() - 24, longer.len() as int) =~= wide.subrange(
        24 * glyphs,
        24 * glyphs + 24,
    ));
    if glyphs > 0 {
        lemma_unfolded_step(wide, glyphs - 1);
    } else {
        assert(wide.subrange(0, 0).len() == 0);
    }
}

/// Paints large glyphs into the texture of one attribute, from the glyph
/// with the code `first` on: each as four glyphs in a row, top left, top
/// right, bottom left, bottom right. At a scale other than 1 to 4 nothing
/// is painted.
pub fn set_pixels_wide(
    pixels: &mut [u8],
    bitmap: &[u16],
    first: u8,
    attrs: u8,
    scale: usize,
    color: u32,
)
    requires
        bitmap@.len() % 24 == 0,
        first + 4 * (bitmap@.len() / 24) <= 256,
        1 <= scale <= 4 ==> old(pixels)@.len() == texture_len(scale as int),
    ensures
        1 <= scale <= 4 ==> painted_over(
            final(pixels)@,
            old(pixels)@,
            unfolded(bitmap@),
            glyph_offset(first as int, scale as int),
            ink(attrs, color),
            reversal(attrs),
            scale as int,
        ),
        !(1 <= scale <= 4) ==> final(pixels)@ == old(pixels)@,
{
    let glyphs: usize = bitmap.len() / 24;
    let mut glyph: usize = 0;
    let ghost fg = ink(attrs, color);
    let ghost xor_mask = reversal(attrs);
    let ghost start = glyph_offset(first as int, scale as int);
    proof {
        assert(bitmap@.subrange(0, 0).len() == 0);
        assert(unfolded(bitmap@.subrange(0, 0)) =~= Seq::<u8>::empty());
        if 1 <= scale <= 4 {
            assert(pixels_of(0, scale as int) == 0) by (nonlinear_arith);
            assert(0 <= start <= texture_len(scale as int)) by (nonlinear_arith)
                requires
                    start == first * 3 * (8 * scale) * (12 * scale),
                    texture_len(scale as int) == 256 * 3 * (8 * scale) * (12 * scale),
                    0 <= first <= 256,
                    1 <= scale,
            ;
        }
    }
    while glyph < glyphs
        invariant
            glyphs == bitmap@.len() / 24,
            bitmap@.len() % 24 == 0,
            glyph <= glyphs,
            first + 4 * glyphs <= 256,
            fg == ink(attrs, color),
            xor_mask == reversal(attrs),
            start == glyph_offset(first as int, scale as int),
            1 <= scale <= 4 ==> 0 <= start,
            1 <= scale <= 4 ==> pixels@.len() == texture_len(scale as int),
            1 <= scale <= 4 ==> painted_over(
                pixels@,
                old(pixels)@,
                unfolded(bitmap@.subrange(0, 24 * glyph)),
                start,
                fg,
                xor_mask,
                scale as int,
            ),
            !(1 <= scale <= 4) ==> pixels@ == old(pixels)@,
        decreases glyphs - glyph,
    {
        let quarter: Vec<u8> = quarters(bitmap, glyph * 24);
        let ghost middle = pixels@;
        let code: u8 = (first as usize + 4 * glyph) as u8;
        set_pixels(pixels, quarter.as_slice(), code, attrs, scale, color);
        proof {
            lemma_unfolded_step(bitmap@, glyph as int);
            if 1 <= scale <= 4 {
                let done = unfolded(bitmap@.subrange(0, 24 * glyph));
                assert(glyph_offset(code as int, scale as int) == start + 3 * pixels_of(
                    done.len() as int,
                    scale as int,
                )) by (nonlinear_arith)
                    requires
                        code == first + 4 * glyph,
                        done.len() == 48 * glyph,
                        start == glyph_offset(first as int, scale as int),
                ;
                lemma_painted_in_turn(
                    old(pixels)@,
                    middle,
                    pixels@,
                    done,
                    quarter@,
                    start,
                    fg,
                    xor_mask,
                    scale as int,
                );
            }
        }
        glyph += 1;
    }
    proof {
        assert(bitmap@.subrange(0, 24 * glyphs) =~= bitmap@);
    }
}

/// A line of the glyph that stands for a code without a glyph of its
/// own: a small hollow square in the middle of the cell.
pub open spec fn empty_cell_line(line: int) -> u8 {
    if line == 4 || line == 7 {
        0x3c
    } else if line == 5 || line == 6 {
        0x24
    } else {
        0
    }
}

/// The red part of texture pixel number `k` of an empty character set at
/// `scale`: half red where the hollow square has ink.
pub open spec fn empty_red(scale: int, k: int) -> u8 {
    let line = (k / (8 * scale * scale)) % 12;
    let bit = (k / scale) % 8;
    if inked(empty_cell_line(line), 0, bit) {
        0x80
    } else {
        0
    }
}

/// A line of the glyph that stands for a code without a glyph of its
/// own.
pub fn empty_line(line: usize) -> (bits: u8)
    ensures
        bits == empty_cell_line(line as int),
{
    if line == 4 || line == 7 {
        0x3c
    } else if line == 5 || line == 6 {
        0x24
    } else {
        0
    }
}

/// The number of a part of a pixel among the pixels of a texture.
pub open spec fn pixel_number(scale: int, lines: int, r: int, bit: int, c: int) -> int {
    lines * (8 * scale * scale) + r * (8 * scale) + bit * scale + c
}

/// The number of a part of a pixel tells its line and its bit, and the
/// numbers follow one another through the columns, the bits, the rows
/// and the lines.
proof fn lemma_pixel_number(scale: int, lines: int, r: int, bit: int, c: int)
    requires
        1 <= scale,
        0 <= lines,
        0 <= r < scale,
        0 <= bit < 8,
        0 <= c < scale,
    ensures
        0 <= pixel_number(scale, lines, r, bit, c) < (lines + 1) * (8 * scale * scale),
        pixel_number(scale, lines, r, bit, c) / (8 * scale * scale) == lines,
        (pixel_number(scale, lines, r, bit, c) / scale) % 8 == bit,
        pixel_number(scale, lines, r, bit, c + 1) == pixel_number(scale, lines, r, bit, c) + 1,
        pixel_number(scale, lines, r, bit, scale) == pixel_number(scale, lines, r, bit + 1, 0),
        pixel_number(scale, lines, r, 8, 0) == pixel_number(scale, lines, r + 1, 0, 0),
        pixel_number(scale, lines, scale, 0, 0) == pixel_number(scale, lines + 1, 0, 0, 0),
{
    let k = pixel_number(scale, lines, r, bit, c);
    let per_line = 8 * scale * scale;
    let rest = r * (8 * scale) + bit * scale + c;
    assert(0 <= rest < per_line) by (nonlinear_arith)
        requires
            rest == r * (8 * scale) + bit * scale + c,
            per_line == 8 * scale * scale,
            1 <= scale,
            0 <= r < scale,
            0 <= bit < 8,
            0 <= c < scale,
    ;
    assert(0 <= lines * per_line && (lines + 1) * per_line == lines * per_line + per_line)
        by (nonlinear_arith)
        requires
            0 <= lines,
            0 <= per_line,
    ;
    vstd::arithmetic::div_mod::lemma_fundamental_div_mod_converse(k, per_line, lines, rest);
    let q = lines * (8 * scale) + r * 8 + bit;
    assert(k == q * scale + c) by (nonlinear_arith)
        requires
            k == lines * (8 * scale * scale) + r * (8 * scale) + bit * scale + c,
            q == lines * (8 * scale) + r * 8 + bit,
    ;
    vstd::arithmetic::div_mod::lemma_fundamental_div_mod_converse(k, scale, q, c);
    let p = lines * scale + r;
    assert(q == p * 8 + bit) by (nonlinear_arith)
        requires
            q == lines * (8 * scale) + r * 8 + bit,
            p == lines * scale + r,
    ;
    vstd::arithmetic::div_mod::lemma_fundamental_div_mod_converse(q, 8, p, bit);
    assert(pixel_number(scale, lines, r, bit, scale) == pixel_number(scale, lines, r, bit + 1, 0))
        by (nonlinear_arith)
        requires
            pixel_number(scale, lines, r, bit, scale) == lines * (8 * scale * scale) + r * (8
                * scale) + bit * scale + scale,
            pixel_number(scale, lines, r, bit + 1, 0) == lines * (8 * scale * scale) + r * (8
                * scale) + (bit + 1) * scale + 0,
    ;
    assert(pixel_number(scale, lines, r, 8, 0) == pixel_number(scale, lines, r + 1, 0, 0))
        by (nonlinear_arith)
        requires
            pixel_number(scale, lines, r, 8, 0) == lines * (8 * scale * scale) + r * (8 * scale)
                + 8 * scale + 0,
            pixel_number(scale, lines, r + 1, 0, 0) == lines * (8 * scale * scale) + (r + 1) * (8
                * scale) + 0 * scale + 0,
    ;
    assert(pixel_number(scale, lines, scale, 0, 0) == pixel_number(scale, lines + 1, 0, 0, 0))
        by (nonlinear_arith)
        requires
            pixel_number(scale, lines, scale, 0, 0) == lines * (8 * scale * scale) + scale * (8
                * scale) + 0 * scale + 0,
            pixel_number(scale, lines + 1, 0, 0, 0) == (lines + 1) * (8 * scale * scale) + 0 * (8
                * scale) + 0 * scale + 0,
    ;
}

/// Whether a texture shows the empty character set at `scale`: for every
/// code the hollow square, half red on black.
pub open spec fn shows_empty(pixels: Seq<u8>, scale: int) -> bool {
    &&& pixels.len() == texture_len(scale)
    &&& forall|k: int|
        0 <= k < 256 * 12 * (8 * scale * scale) ==> {
            &&& #[trigger] pixels[3 * k] == empty_red(scale, k)
            &&& pixels[3 * k + 1] == 0
            &&& pixels[3 * k + 2] == 0
        }
}

/// Paints the empty character set into a texture: for every code the
/// glyph that stands for a code without a glyph of its own.
pub fn set_pixels_empty(pixels: &mut [u8], scale: usize)
    requires
        1 <= scale,
        old(pixels)@.len() == texture_len(scale as int),
    ensures
        shows_empty(final(pixels)@, scale as int),
{
    let mut offset: usize = 0;
    let ghost n = scale as int;
    let ghost per_line = 8 * n * n;
    let ghost mut done: int = 0;
    proof {
        assert(texture_len(n) == 3 * (256 * 12 * per_line)) by (nonlinear_arith)
            requires
                texture_len(n) == 256 * 3 * (8 * n) * (12 * n),
                per_line == 8 * n * n,
        ;
        assert(0 <= per_line) by (nonlinear_arith)
            requires
                per_line == 8 * n * n,
        ;
    }
    let mut lines: usize = 0;
    while lines < 256 * 12
        invariant
            n == scale,
            1 <= n,
            per_line == 8 * n * n,
            0 <= per_line,
            lines <= 256 * 12,
            pixels@.len() == 3 * (256 * 12 * per_line),
            done == pixel_number(n, lines as int, 0, 0, 0),
            offset == 3 * done,
            forall|k: int|
                0 <= k < done ==> {
                    &&& #[trigger] pixels@[3 * k] == empty_red(n, k)
                    &&& pixels@[3 * k + 1] == 0
                    &&& pixels@[3 * k + 2] == 0
                },
        decreases 256 * 12 - lines,
    {
        let byte: u8 = empty_line(lines % 12);
        let mut r: usize = 0;
        while r < scale
            invariant
                n == scale,
                1 <= n,
                per_line == 8 * n * n,
                0 <= per_line,
                lines < 256 * 12,
                byte == empty_cell_line(lines as int % 12),
                r <= scale,
                pixels@.len() == 3 * (256 * 12 * per_line),
                done == pixel_number(n, lines as int, r as int, 0, 0),
                offset == 3 * done,
                forall|k: int|
                    0 <= k < done ==> {
                        &&& #[trigger] pixels@[3 * k] == empty_red(n, k)
                        &&& pixels@[3 * k + 1] == 0
                        &&& pixels@[3 * k + 2] == 0
                    },
            decreases scale - r,
        {
            let mut mask: u8 = 0x80;
            let ghost mut bit: u8 = 0;
            assert(0x80u8 >> 0u8 == 0x80u8) by (bit_vector);
            while mask != 0
                invariant
                    n == scale,
                    1 <= n,
                    per_line == 8 * n * n,
                    0 <= per_line,
                    lines < 256 * 12,
                    byte == empty_cell_line(lines as int % 12),
                    r < scale,
                    bit <= 8,
                    bit < 8 ==> mask == 0x80u8 >> bit && mask != 0,
                    bit == 8 ==> mask == 0,
                    pixels@.len() == 3 * (256 * 12 * per_line),
                    done == pixel_number(n, lines as int, r as int, bit as int, 0),
                    offset == 3 * done,
                    forall|k: int|
                        0 <= k < done ==> {
                            &&& #[trigger] pixels@[3 * k] == empty_red(n, k)
                            &&& pixels@[3 * k + 1] == 0
                            &&& pixels@[3 * k + 2] == 0
                        },
                decreases 8 - bit,
            {
                let mut c: usize = 0;
                while c < scale
                    invariant
                        n == scale,
                        1 <= n,
                        per_line == 8 * n * n,
                        0 <= per_line,
                        lines < 256 * 12,
                        byte == empty_cell_line(lines as int % 12),
                        r < scale,
                        bit < 8,
                        mask == 0x80u8 >> bit,
                        c <= scale,
                        pixels@.len() == 3 * (256 * 12 * per_line),
                        done == pixel_number(n, lines as int, r as int, bit as int, c as int),
                        offset == 3 * done,
                        forall|k: int|
                            0 <= k < done ==> {
                                &&& #[trigger] pixels@[3 * k] == empty_red(n, k)
                                &&& pixels@[3 * k + 1] == 0
                                &&& pixels@[3 * k + 2] == 0
                            },
                    decreases scale - c,
                {
                    proof {
                        lemma_pixel_number(n, lines as int, r as int, bit as int, c as int);
                        assert((lines + 1) * per_line <= 256 * 12 * per_line) by (nonlinear_arith)
                            requires
                                lines + 1 <= 256 * 12,
                                0 <= per_line,
                        ;
                        assert(byte ^ 0 == byte) by (bit_vector);
                    }
                    let ghost before = pixels@;
                    pixels[offset] = if byte & mask != 0 {
                        0x80
                    } else {
                        0
                    };
                    pixels[offset + 1] = 0;
                    pixels[offset + 2] = 0;
                    proof {
                        assert forall|k: int| 0 <= k < done + 1 implies {
                            &&& #[trigger] pixels@[3 * k] == empty_red(n, k)
                            &&& pixels@[3 * k + 1] == 0
                            &&& pixels@[3 * k + 2] == 0
                        } by {
                            if k < done {
                                assert(before[3 * k] == pixels@[3 * k]);
                            }
                        }
                        done = done + 1;
                    }
                    offset += BYTES_PER_PIXEL;
                    c += 1;
                }
                proof {
                    lemma_mask(mask, bit);
                    lemma_pixel_number(n, lines as int, r as int, bit as int, 0);
                }
                mask >>= 1;
                proof {
                    bit = (bit + 1) as u8;
                    if bit < 8 {
                        lemma_mask(mask, bit);
                    }
                }
            }
            proof {
                lemma_pixel_number(n, lines as int, r as int, 0, 0);
            }
            r += 1;
        }
        proof {
            lemma_pixel_number(n, lines as int, 0, 0, 0);
        }
        lines += 1;
    }
    proof {
        assert(done == 256 * 12 * per_line) by (nonlinear_arith)
            requires
                done == pixel_number(n, 3072, 0, 0, 0),
                pixel_number(n, 3072, 0, 0, 0) == 3072 * (8 * n * n) + 0 * (8 * n) + 0 * n + 0,
                per_line == 8 * n * n,
        ;
    }
}

} // verus!
