//! Pixels as bytes: the buffer that a display reads, four bytes for each
//! pixel in the order red, green, blue, alpha, row by row from the top.
//!
//! An intensity is clamped to the range from zero to one, multiplied by 255
//! and rounded to the nearest byte. Alpha is always 255.

use vstd::prelude::*;
use vstd::arithmetic::div_mod::lemma_basic_div;
use vstd::arithmetic::div_mod::lemma_div_pos_is_pos;
use vstd::arithmetic::div_mod::lemma_multiply_divide_lt;
use vstd::arithmetic::power2::lemma2_to64;
use vstd::arithmetic::power2::lemma2_to64_rest;
use vstd::arithmetic::power2::lemma_pow2_strictly_increases;
use vstd::arithmetic::power2::pow2;
use vstd::bits::lemma_u64_shl_is_mul;
use crate::canvas::lemma_place;
use crate::colour::Colour;
use crate::scalar::Scalar;
use crate::scalar::FRACTION_UNIT;
use crate::scalar::ONE_BITS;

verus! {

/// The alpha of every pixel: opaque.
pub const ALPHA: u8 = 255;

/// `p` divided by 2 to the power `k` and rounded to the nearest whole number,
/// a half going to the even neighbour: the rounding of binary64 arithmetic.
pub open spec fn nearest_even(p: int, k: nat) -> int {
    let unit = pow2(k) as int;
    let q = p / unit;
    let r = p % unit;
    if 2 * r > unit || (2 * r == unit && q % 2 == 1) {
        q + 1
    } else {
        q
    }
}

/// `m` divided by 2 to the power `s` and rounded to the nearest whole number,
/// a half going up.
pub open spec fn nearest_whole(m: int, s: nat) -> int {
    let unit = pow2(s) as int;
    (2 * m + unit) / (2 * unit)
}

/// The byte that shows an intensity: the intensity is clamped to the range
/// from zero to one and multiplied by 255 as binary64 numbers are, and the
/// product is rounded to the nearest whole number, a half going up. A NaN
/// shows as 0.
///
/// For an intensity strictly between zero and one, with significand `m` and
/// scale `e`, the product is `255 * m` at scale `e`. As a binary64 number it
/// keeps 53 bits, so it loses its lowest 7 or 8 bits to rounding, and what is
/// left is rounded once more to a whole number. A subnormal intensity is far
/// below half a step and shows as 0.
pub open spec fn spec_channel(value: Scalar) -> int {
    if !value.spec_gt(Scalar { bits: 0 }) {
        0
    } else if value.spec_ge(Scalar { bits: ONE_BITS }) {
        255
    } else if value.biased_exponent() == 0 {
        0
    } else {
        let p = 255 * (FRACTION_UNIT + value.fraction());
        let k: nat = if p >= pow2(60) {
            8
        } else {
            7
        };
        nearest_whole(nearest_even(p, k), (-(value.scale() + k)) as nat)
    }
}

/// The byte that shows an intensity.
#[verifier::when_used_as_spec(spec_channel_byte)]
pub fn channel(value: Scalar) -> (byte: u8)
    ensures
        byte == spec_channel(value),
{
    if !value.gt(Scalar::zero()) {
        return 0;
    }
    if value.ge(Scalar::one()) {
        return 255;
    }
    let bits: u64 = value.to_bits();
    let e: u64 = bits / FRACTION_UNIT;
    let f: u64 = bits % FRACTION_UNIT;
    if e == 0 {
        return 0;
    }
    proof {
        lemma2_to64();
        lemma2_to64_rest();
    }
    let p: u64 = 255 * (FRACTION_UNIT + f);
    let wide: bool = p >= 0x1000_0000_0000_0000;
    let unit: u64 = if wide {
        256
    } else {
        128
    };
    let k: u64 = if wide {
        8
    } else {
        7
    };
    let q: u64 = p / unit;
    let r: u64 = p % unit;
    let m: u64 = if 2 * r > unit || (2 * r == unit && q % 2 == 1) {
        q + 1
    } else {
        q
    };
    let s: u64 = 1075 - e - k;
    assert(m == nearest_even(p as int, k as nat));
    assert(s == -(value.scale() + k));
    if s > 62 {
        proof {
            if s > 63 {
                lemma_pow2_strictly_increases(63, s as nat);
            }
            let unit = pow2(s as nat) as int;
            lemma_basic_div(2 * m + unit, 2 * unit);
        }
        return 0;
    }
    proof {
        lemma_pow2_strictly_increases(s as nat, 63);
        lemma_u64_shl_is_mul(1, s);
        lemma_channel_is_a_byte(value);
    }
    let whole: u64 = 1u64 << s;
    let n: u64 = (2 * m + whole) / (2 * whole);
    n as u8
}

/// The byte that shows an intensity, as a byte.
pub open spec fn spec_channel_byte(value: Scalar) -> u8 {
    spec_channel(value) as u8
}

/// The bytes that show a colour: red, green and blue.
pub open spec fn spec_channels(colour: Colour) -> (u8, u8, u8) {
    (spec_channel_byte(colour.r), spec_channel_byte(colour.g), spec_channel_byte(colour.b))
}

/// The bytes that show a colour: red, green and blue.
#[verifier::when_used_as_spec(spec_channels)]
pub fn channels(colour: Colour) -> (bytes: (u8, u8, u8))
    ensures
        bytes == spec_channels(colour),
{
    (channel(colour.r), channel(colour.g), channel(colour.b))
}

/// Every intensity shows as a byte.
pub proof fn lemma_channel_is_a_byte(value: Scalar)
    ensures
        0 <= spec_channel(value) <= 255,
{
    if value.spec_gt(Scalar { bits: 0 }) && !value.spec_ge(Scalar { bits: ONE_BITS })
        && value.biased_exponent() != 0 {
        lemma2_to64();
        lemma2_to64_rest();
        let p = 255 * (FRACTION_UNIT + value.fraction());
        let k: nat = if p >= pow2(60) {
            8
        } else {
            7
        };
        let m = nearest_even(p, k);
        let s = (-(value.scale() + k)) as nat;
        let least = (53 - k) as nat;
        assert(value.biased_exponent() <= 1022);
        assert(0 <= value.fraction() < FRACTION_UNIT);
        assert(0 <= m <= 255 * pow2(least));
        if s > least {
            lemma_pow2_strictly_increases(least, s);
        }
        let unit = pow2(s) as int;
        assert(2 * m + unit < (2 * unit) * 256) by (nonlinear_arith)
            requires
                m <= 255 * unit,
                unit > 0,
        ;
        lemma_multiply_divide_lt(2 * m + unit, 2 * unit, 256);
        lemma_div_pos_is_pos(2 * m + unit, 2 * unit);
    }
}

/// The red, green and blue bytes of the pixel at position `p` of a buffer.
pub open spec fn channels_at(bytes: Seq<u8>, p: int) -> (u8, u8, u8) {
    (bytes[4 * p], bytes[4 * p + 1], bytes[4 * p + 2])
}

/// The alpha byte of the pixel at position `p` of a buffer.
pub open spec fn alpha_at(bytes: Seq<u8>, p: int) -> u8 {
    bytes[4 * p + 3]
}

/// The buffer with the four bytes of the pixel at position `p` replaced.
pub open spec fn with_pixel(bytes: Seq<u8>, p: int, channels: (u8, u8, u8)) -> Seq<u8> {
    bytes.update(4 * p, channels.0).update(4 * p + 1, channels.1).update(
        4 * p + 2,
        channels.2,
    ).update(4 * p + 3, ALPHA)
}

/// Whether `bytes` hold for the pixel at position `p` what shows `colour`,
/// and the alpha.
pub open spec fn shows(bytes: Seq<u8>, p: int, colour: Colour) -> bool {
    channels_at(bytes, p) == spec_channels(colour) && alpha_at(bytes, p) == ALPHA
}

/// Whether `colours` are colours that `shade` may return for the pixels of
/// the region, row by row, and `bytes` are the bytes that show them.
pub open spec fn renders<F: Fn(u32, u32) -> Colour>(
    shade: F,
    x: u32,
    y: u32,
    width: u32,
    height: u32,
    colours: Seq<Colour>,
    bytes: Seq<u8>,
) -> bool {
    forall|lx: u32, ly: u32|
        lx < width && ly < height ==> {
            &&& call_ensures(
                shade,
                ((x + lx) as u32, (y + ly) as u32),
                #[trigger] colours[ly * width + lx],
            )
            &&& shows(bytes, ly * width + lx, colours[ly * width + lx])
        }
}

/// Renders the region of `width` × `height` pixels whose top left corner is
/// `(x, y)`: row by row, `shade` is asked for the colour of each pixel by its
/// place in the whole image, and the result holds the bytes that show it by
/// its place in the region.
pub fn render_region<F: Fn(u32, u32) -> Colour>(
    x: u32,
    y: u32,
    width: u32,
    height: u32,
    shade: F,
) -> (bytes: Vec<u8>)
    requires
        x + width <= u32::MAX + 1,
        y + height <= u32::MAX + 1,
        width * height * 4 <= u32::MAX,
        forall|gx: u32, gy: u32|
            x <= gx < x + width && y <= gy < y + height ==> call_requires(shade, (gx, gy)),
    ensures
        bytes@.len() == width * height * 4,
        exists|colours: Seq<Colour>| renders(shade, x, y, width, height, colours, bytes@),
{
    let mut bytes: Vec<u8> = Vec::new();
    let ghost mut colours: Seq<Colour> = Seq::empty();
    let mut ly: u32 = 0;
    while ly < height
        invariant
            ly <= height,
            x + width <= u32::MAX + 1,
            y + height <= u32::MAX + 1,
            width * height * 4 <= u32::MAX,
            bytes@.len() == ly * width * 4,
            colours.len() == ly * width,
            forall|gx: u32, gy: u32|
                x <= gx < x + width && y <= gy < y + height ==> call_requires(shade, (gx, gy)),
            forall|px: u32, py: u32|
                px < width && py < ly ==> {
                    &&& call_ensures(
                        shade,
                        ((x + px) as u32, (y + py) as u32),
                        #[trigger] colours[py * width + px],
                    )
                    &&& shows(bytes@, py * width + px, colours[py * width + px])
                },
        decreases height - ly,
    {
        let mut lx: u32 = 0;
        while lx < width
            invariant
                lx <= width,
                ly < height,
                x + width <= u32::MAX + 1,
                y + height <= u32::MAX + 1,
                width * height * 4 <= u32::MAX,
                bytes@.len() == (ly * width + lx) * 4,
                colours.len() == ly * width + lx,
                forall|gx: u32, gy: u32|
                    x <= gx < x + width && y <= gy < y + height ==> call_requires(shade, (gx, gy)),
                forall|px: u32, py: u32|
                    px < width && py < ly ==> {
                        &&& call_ensures(
                            shade,
                            ((x + px) as u32, (y + py) as u32),
                            #[trigger] colours[py * width + px],
                        )
                        &&& shows(bytes@, py * width + px, colours[py * width + px])
                    },
                forall|px: u32|
                    px < lx ==> {
                        &&& call_ensures(
                            shade,
                            ((x + px) as u32, (y + ly) as u32),
                            #[trigger] colours[ly * width + px],
                        )
                        &&& shows(bytes@, ly * width + px, colours[ly * width + px])
                    },
            decreases width - lx,
        {
            let colour: Colour = shade(x + lx, y + ly);
            let bright: (u8, u8, u8) = channels(colour);
            let ghost before = bytes@;
            let ghost seen = colours;
            bytes.push(bright.0);
            bytes.push(bright.1);
            bytes.push(bright.2);
            bytes.push(ALPHA);
            proof {
                colours = seen.push(colour);
                assert forall|px: u32, py: u32| px < width && py < ly implies {
                    &&& call_ensures(
                        shade,
                        ((x + px) as u32, (y + py) as u32),
                        #[trigger] colours[py * width + px],
                    )
                    &&& shows(bytes@, py * width + px, colours[py * width + px])
                } by {
                    lemma_place(width as int, ly as int, px as int, py as int);
                    assert(width * ly == ly * width) by (nonlinear_arith);
                    let p = py * width + px;
                    assert(colours[p] == seen[p]);
                    assert(shows(before, p, seen[p]));
                    assert(channels_at(bytes@, p) == channels_at(before, p));
                    assert(alpha_at(bytes@, p) == alpha_at(before, p));
                }
                assert forall|px: u32| px < lx + 1 implies {
                    &&& call_ensures(
                        shade,
                        ((x + px) as u32, (y + ly) as u32),
                        #[trigger] colours[ly * width + px],
                    )
                    &&& shows(bytes@, ly * width + px, colours[ly * width + px])
                } by {
                    let p = ly * width + px;
                    if px < lx {
                        assert(colours[p] == seen[p]);
                        assert(shows(before, p, seen[p]));
                        assert(channels_at(bytes@, p) == channels_at(before, p));
                        assert(alpha_at(bytes@, p) == alpha_at(before, p));
                    } else {
                        assert(colours[p] == colour);
                        assert(channels_at(bytes@, p) == bright);
                    }
                }
            }
            lx += 1;
        }
        proof {
            assert((ly + 1) * width == ly * width + width) by (nonlinear_arith);
            assert forall|px: u32, py: u32| px < width && py < ly + 1 implies {
                &&& call_ensures(
                    shade,
                    ((x + px) as u32, (y + py) as u32),
                    #[trigger] colours[py * width + px],
                )
                &&& shows(bytes@, py * width + px, colours[py * width + px])
            } by {
                if py == ly {
                }
            }
        }
        ly += 1;
    }
    proof {
        assert(height * width * 4 == width * height * 4) by (nonlinear_arith);
        assert(renders(shade, x, y, width, height, colours, bytes@));
    }
    bytes
}

/// What a frame buffer holds: its size, a colour for each pixel, and the
/// bytes last written for each pixel.
pub struct Frame {
    pub width: nat,
    pub height: nat,
    pub colours: Seq<Colour>,
    pub bytes: Seq<u8>,
}

impl Frame {
    /// There is one colour and there are four bytes for each place.
    pub open spec fn wf(self) -> bool {
        &&& self.colours.len() == self.width * self.height
        &&& self.bytes.len() == self.width * self.height * 4
    }

    /// Whether `(x, y)` is a place of the frame.
    pub open spec fn holds(self, x: int, y: int) -> bool {
        0 <= x < self.width && 0 <= y < self.height
    }

    /// A frame of black pixels whose bytes are all zero.
    pub open spec fn blank(width: nat, height: nat) -> Frame {
        Frame {
            width,
            height,
            colours: Seq::new(width * height, |i: int| Colour::spec_black()),
            bytes: Seq::new(width * height * 4, |i: int| 0u8),
        }
    }
}

/// A frame buffer: the colours of an image and, beside them, the bytes that a
/// display reads.
#[derive(Debug)]
pub struct Framebuffer {
    width: u32,
    height: u32,
    colours: Vec<Colour>,
    buffer: Vec<u8>,
}

impl View for Framebuffer {
    type V = Frame;

    closed spec fn view(&self) -> Frame {
        Frame {
            width: self.width as nat,
            height: self.height as nat,
            colours: self.colours@,
            bytes: self.buffer@,
        }
    }
}

impl Framebuffer {
    #[verifier::type_invariant]
    spec fn well_formed(self) -> bool {
        &&& self.colours@.len() == self.width * self.height
        &&& self.buffer@.len() == self.width * self.height * 4
        &&& self.width * self.height * 4 <= u32::MAX
    }

    /// A frame of black pixels whose bytes are all zero.
    pub fn new(width: u32, height: u32) -> (frame: Framebuffer)
        requires
            width * height * 4 <= u32::MAX,
        ensures
            frame@ == Frame::blank(width as nat, height as nat),
    {
        proof {
            assert(width * height <= width * height * 4) by (nonlinear_arith)
                requires
                    width * height >= 0,
            ;
            assert(0 <= width * height) by (nonlinear_arith)
                requires
                    width >= 0,
                    height >= 0,
            ;
        }
        let n: u32 = width * height;
        let mut colours: Vec<Colour> = Vec::new();
        let mut buffer: Vec<u8> = Vec::new();
        let mut i: u32 = 0;
        while i < n
            invariant
                i <= n,
                colours@.len() == i,
                buffer@.len() == i * 4,
                forall|k: int| 0 <= k < i ==> #[trigger] colours@[k] == Colour::spec_black(),
                forall|k: int| 0 <= k < i * 4 ==> #[trigger] buffer@[k] == 0,
            decreases n - i,
        {
            colours.push(Colour::black());
            buffer.push(0);
            buffer.push(0);
            buffer.push(0);
            buffer.push(0);
            i += 1;
        }
        proof {
            let blank = Frame::blank(width as nat, height as nat);
            assert(colours@ =~= blank.colours);
            assert(buffer@ =~= blank.bytes);
        }
        Framebuffer { width, height, colours, buffer }
    }

    pub fn get_width(&self) -> (width: u32)
        ensures
            width == self@.width,
            self@.wf(),
    {
        proof {
            use_type_invariant(self);
        }
        self.width
    }

    pub fn get_height(&self) -> (height: u32)
        ensures
            height == self@.height,
            self@.wf(),
    {
        proof {
            use_type_invariant(self);
        }
        self.height
    }

    /// The bytes, four for each pixel, row by row from the top.
    pub fn buffer(&self) -> (bytes: &Vec<u8>)
        ensures
            bytes@ == self@.bytes,
    {
        &self.buffer
    }

    /// Sets the colour of the pixel at `(x, y)` and writes the bytes that
    /// show it. A place outside the frame is left alone.
    pub fn write_pixel(&mut self, x: u32, y: u32, colour: Colour)
        ensures
            final(self)@ == (if old(self)@.holds(x as int, y as int) {
                Frame {
                    colours: old(self)@.colours.update(y * old(self)@.width + x, colour),
                    bytes: with_pixel(
                        old(self)@.bytes,
                        y * old(self)@.width + x,
                        spec_channels(colour),
                    ),
                    ..old(self)@
                }
            } else {
                old(self)@
            }),
    {
        proof {
            use_type_invariant(&*self);
        }
        if x < self.width && y < self.height {
            proof {
                lemma_place(self.width as int, self.height as int, x as int, y as int);
            }
            let p: usize = (y * self.width + x) as usize;
            let bright: (u8, u8, u8) = channels(colour);
            self.colours[p] = colour;
            self.buffer[4 * p] = bright.0;
            self.buffer[4 * p + 1] = bright.1;
            self.buffer[4 * p + 2] = bright.2;
            self.buffer[4 * p + 3] = ALPHA;
        }
    }

    /// The colour of the pixel at `(x, y)`, and black for a place outside the
    /// frame.
    pub fn get_pixel_colour(&self, x: u32, y: u32) -> (colour: Colour)
        ensures
            colour == (if self@.holds(x as int, y as int) {
                self@.colours[y * self@.width + x]
            } else {
                Colour::spec_black()
            }),
    {
        proof {
            use_type_invariant(self);
        }
        if x < self.width && y < self.height {
            proof {
                lemma_place(self.width as int, self.height as int, x as int, y as int);
            }
            self.colours[(y * self.width + x) as usize]
        } else {
            Colour::black()
        }
    }

    /// Makes every pixel black. The bytes stay as they are.
    pub fn clear(&mut self)
        ensures
            final(self)@ == (Frame {
                colours: Seq::new(old(self)@.colours.len(), |i: int| Colour::spec_black()),
                ..old(self)@
            }),
    {
        proof {
            use_type_invariant(&*self);
        }
        let n: usize = self.colours.len();
        let mut i: usize = 0;
        while i < n
            invariant
                i <= n,
                self.well_formed(),
                n == self.colours@.len(),
                self.width == old(self).width,
                self.height == old(self).height,
                self.buffer@ == old(self).buffer@,
                self.colours@.len() == old(self).colours@.len(),
                forall|k: int| 0 <= k < i ==> #[trigger] self.colours@[k] == Colour::spec_black(),
            decreases n - i,
        {
            self.colours[i] = Colour::black();
            i += 1;
        }
        proof {
            assert(self.colours@ =~= Seq::new(
                old(self)@.colours.len(),
                |i: int| Colour::spec_black(),
            ));
        }
    }

    /// Writes the bytes of every pixel anew from its colour.
    pub fn update_buffer_from_colours(&mut self)
        ensures
            final(self)@.width == old(self)@.width,
            final(self)@.height == old(self)@.height,
            final(self)@.colours == old(self)@.colours,
            final(self)@.wf(),
            forall|p: int|
                0 <= p < final(self)@.colours.len() ==> #[trigger] shows(
                    final(self)@.bytes,
                    p,
                    final(self)@.colours[p],
                ),
    {
        proof {
            use_type_invariant(&*self);
        }
        let n: usize = self.colours.len();
        let mut i: usize = 0;
        while i < n
            invariant
                i <= n,
                self.well_formed(),
                n == self.colours@.len(),
                self.buffer@.len() == n * 4,
                self.width == old(self).width,
                self.height == old(self).height,
                self.colours@ == old(self).colours@,
                forall|p: int| 0 <= p < i ==> #[trigger] shows(self.buffer@, p, self.colours@[p]),
            decreases n - i,
        {
            let bright: (u8, u8, u8) = channels(self.colours[i]);
            let ghost before = self.buffer@;
            self.buffer[4 * i] = bright.0;
            self.buffer[4 * i + 1] = bright.1;
            self.buffer[4 * i + 2] = bright.2;
            self.buffer[4 * i + 3] = ALPHA;
            proof {
                assert forall|p: int| 0 <= p < i + 1 implies #[trigger] shows(
                    self.buffer@,
                    p,
                    self.colours@[p],
                ) by {
                    if p < i {
                        assert(shows(before, p, self.colours@[p]));
                        assert(channels_at(self.buffer@, p) == channels_at(before, p));
                        assert(alpha_at(self.buffer@, p) == alpha_at(before, p));
                    } else {
                        assert(channels_at(self.buffer@, p) == bright);
                    }
                }
            }
            i += 1;
        }
    }

    /// Sets the colour of every pixel, row by row from the top and each row
    /// from the left, to what `shade` returns for its place. The bytes stay as
    /// they are.
    pub fn render_to_buffer<F: Fn(usize, usize) -> Colour>(&mut self, shade: F)
        requires
            forall|x: usize, y: usize|
                x < old(self)@.width && y < old(self)@.height ==> call_requires(shade, (x, y)),
        ensures
            final(self)@.width == old(self)@.width,
            final(self)@.height == old(self)@.height,
            final(self)@.bytes == old(self)@.bytes,
            final(self)@.wf(),
            forall|x: usize, y: usize|
                x < final(self)@.width && y < final(self)@.height ==> call_ensures(
                    shade,
                    (x, y),
                    #[trigger] final(self)@.colours[y * final(self)@.width + x],
                ),
    {
        proof {
            use_type_invariant(&*self);
        }
        let width: usize = self.width as usize;
        let height: usize = self.height as usize;
        let mut y: usize = 0;
        while y < height
            invariant
                y <= height,
                self.well_formed(),
                width == self.width,
                height == self.height,
                self.width == old(self).width,
                self.height == old(self).height,
                self.buffer@ == old(self).buffer@,
                self.colours@.len() == width * height,
                width * height * 4 <= u32::MAX,
                forall|x: usize, y: usize| x < width && y < height ==> call_requires(shade, (x, y)),
                forall|px: usize, py: usize|
                    px < width && py < y ==> call_ensures(
                        shade,
                        (px, py),
                        #[trigger] self.colours@[py * width + px],
                    ),
            decreases height - y,
        {
            let mut x: usize = 0;
            while x < width
                invariant
                    x <= width,
                    y < height,
                    self.well_formed(),
                    width == self.width,
                    height == self.height,
                    self.width == old(self).width,
                    self.height == old(self).height,
                    self.buffer@ == old(self).buffer@,
                    self.colours@.len() == width * height,
                    width * height * 4 <= u32::MAX,
                    forall|x: usize, y: usize|
                        x < width && y < height ==> call_requires(shade, (x, y)),
                    forall|px: usize, py: usize|
                        px < width && py < y ==> call_ensures(
                            shade,
                            (px, py),
                            #[trigger] self.colours@[py * width + px],
                        ),
                    forall|px: usize|
                        px < x ==> call_ensures(
                            shade,
                            (px, y),
                            #[trigger] self.colours@[y * width + px],
                        ),
                decreases width - x,
            {
                let colour: Colour = shade(x, y);
                let ghost before = self.colours@;
                proof {
                    lemma_place(width as int, height as int, x as int, y as int);
                }
                self.colours[y * width + x] = colour;
                proof {
                    assert forall|px: usize, py: usize| px < width && py < y implies call_ensures(
                        shade,
                        (px, py),
                        #[trigger] self.colours@[py * width + px],
                    ) by {
                        lemma_place(width as int, y as int, px as int, py as int);
                        lemma_place(width as int, height as int, px as int, py as int);
                        assert(width * y == y * width) by (nonlinear_arith);
                        assert(self.colours@[py * width + px] == before[py * width + px]);
                    }
                    assert forall|px: usize| px < x + 1 implies call_ensures(
                        shade,
                        (px, y),
                        #[trigger] self.colours@[y * width + px],
                    ) by {
                        lemma_place(width as int, height as int, px as int, y as int);
                        if px < x {
                            assert(self.colours@[y * width + px] == before[y * width + px]);
                        }
                    }
                }
                x += 1;
            }
            y += 1;
        }
    }
}

} // verus!
