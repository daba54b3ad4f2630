//! The canvas that a render fills: one colour for each pixel, row by row.

use vstd::prelude::*;
use crate::colour::Colour;

verus! {

/// What a canvas holds: its size, and its pixels row by row from the top.
pub struct Image {
    pub width: nat,
    pub height: nat,
    pub pixels: Seq<Colour>,
}

impl Image {
    /// There is one pixel for each place.
    pub open spec fn wf(self) -> bool {
        self.pixels.len() == self.width * self.height
    }

    /// Whether `(x, y)` is a place of the image.
    pub open spec fn holds(self, x: int, y: int) -> bool {
        0 <= x < self.width && 0 <= y < self.height
    }

    /// Where in `pixels` the pixel at `(x, y)` stands.
    pub open spec fn place(self, x: int, y: int) -> int {
        y * self.width + x
    }

    /// The pixel at `(x, y)`.
    pub open spec fn at(self, x: int, y: int) -> Colour {
        self.pixels[self.place(x, y)]
    }

    /// The image with the pixel at `(x, y)` replaced.
    pub open spec fn put(self, x: int, y: int, colour: Colour) -> Image {
        Image { pixels: self.pixels.update(self.place(x, y), colour), ..self }
    }

    /// The image of the given size that is black all over.
    pub open spec fn blank(width: nat, height: nat) -> Image {
        Image { width, height, pixels: Seq::new(width * height, |i: int| Colour::spec_black()) }
    }
}

/// Each place of an image has its own position in the row-major order, and
/// each position belongs to one place.
pub proof fn lemma_place(width: int, height: int, x: int, y: int)
    requires
        0 <= x < width,
        0 <= y < height,
    ensures
        0 <= y * width,
        0 <= y * width + x < width * height,
        (y * width + x) % width == x,
        (y * width + x) / width == y,
{
    assert(0 <= y * width) by (nonlinear_arith)
        requires
            y >= 0,
            width >= 0,
    ;
    assert(y * width + width <= width * height) by (nonlinear_arith)
        requires
            y + 1 <= height,
            width >= 0,
    ;
    vstd::arithmetic::div_mod::lemma_fundamental_div_mod_converse(y * width + x, width, y, x);
}

/// A canvas of `width` × `height` pixels.
#[derive(Debug)]
pub struct Canvas {
    width: usize,
    height: usize,
    pixels: Vec<Colour>,
}

impl View for Canvas {
    type V = Image;

    closed spec fn view(&self) -> Image {
        Image { width: self.width as nat, height: self.height as nat, pixels: self.pixels@ }
    }
}

impl Canvas {
    #[verifier::type_invariant]
    spec fn well_formed(self) -> bool {
        &&& self.pixels@.len() == self.width * self.height
        &&& self.width * self.height <= usize::MAX
    }

    /// A canvas that is black all over.
    pub fn new(width: usize, height: usize) -> (canvas: Canvas)
        requires
            width * height <= usize::MAX,
        ensures
            canvas@ == Image::blank(width as nat, height as nat),
    {
        let n: usize = width * height;
        let mut pixels: Vec<Colour> = Vec::new();
        let mut i: usize = 0;
        while i < n
            invariant
                i <= n,
                pixels@.len() == i,
                forall|k: int| 0 <= k < i ==> #[trigger] pixels@[k] == Colour::spec_black(),
            decreases n - i,
        {
            pixels.push(Colour::black());
            i += 1;
        }
        assert(pixels@ =~= Image::blank(width as nat, height as nat).pixels);
        Canvas { width, height, pixels }
    }

    pub fn width(&self) -> (width: usize)
        ensures
            width == self@.width,
            self@.wf(),
    {
        proof {
            use_type_invariant(self);
        }
        self.width
    }

    pub fn height(&self) -> (height: usize)
        ensures
            height == self@.height,
            self@.wf(),
    {
        proof {
            use_type_invariant(self);
        }
        self.height
    }

    /// The colour of the pixel at `(x, y)`, and black for a place outside the
    /// canvas.
    pub fn pixel_at(&self, x: usize, y: usize) -> (colour: Colour)
        ensures
            colour == (if self@.holds(x as int, y as int) {
                self@.at(x as int, y as int)
            } else {
                Colour::spec_black()
            }),
    {
        proof {
            use_type_invariant(self);
        }
        if x < self.width && y < self.height {
            proof {
                lemma_place(self.width as int, self.height as int, x as int, y as int);
            }
            self.pixels[y * self.width + x]
        } else {
            Colour::black()
        }
    }

    /// Sets the pixel at `(x, y)`. A place outside the canvas is left alone.
    pub fn write_pixel(&mut self, x: usize, y: usize, colour: Colour)
        ensures
            final(self)@ == (if old(self)@.holds(x as int, y as int) {
                old(self)@.put(x as int, y as int, colour)
            } else {
                old(self)@
            }),
    {
        proof {
            use_type_invariant(&*self);
        }
        if x < self.width && y < self.height {
            proof {
                lemma_place(self.width as int, self.height as int, x as int, y as int);
            }
            let place: usize = y * self.width + x;
            self.pixels[place] = colour;
        }
    }

    /// Fills a canvas of the given size, row by row from the top and each row
    /// from the left, with what `shade` returns for each place.
    pub fn render<F: Fn(usize, usize) -> Colour>(width: usize, height: usize, shade: F) -> (canvas:
        Canvas)
        requires
            width * height <= usize::MAX,
            forall|x: usize, y: usize| x < width && y < height ==> call_requires(shade, (x, y)),
        ensures
            canvas@.width == width,
            canvas@.height == height,
            canvas@.wf(),
            forall|x: usize, y: usize|
                x < width && y < height ==> call_ensures(
                    shade,
                    (x, y),
                    #[trigger] canvas@.at(x as int, y as int),
                ),
    {
        let mut pixels: Vec<Colour> = Vec::new();
        let mut y: usize = 0;
        while y < height
            invariant
                y <= height,
                width * height <= usize::MAX,
                pixels@.len() == y * width,
                forall|x: usize, y: usize| x < width && y < height ==> call_requires(shade, (x, y)),
                forall|px: usize, py: usize|
                    px < width && py < y ==> call_ensures(
                        shade,
                        (px, py),
                        #[trigger] pixels@[py * width + px],
                    ),
            decreases height - y,
        {
            let mut x: usize = 0;
            while x < width
                invariant
                    x <= width,
                    y < height,
                    width * height <= usize::MAX,
                    pixels@.len() == y * width + x,
                    forall|x: usize, y: usize|
                        x < width && y < height ==> call_requires(shade, (x, y)),
                    forall|px: usize, py: usize|
                        px < width && py < y ==> call_ensures(
                            shade,
                            (px, py),
                            #[trigger] pixels@[py * width + px],
                        ),
                    forall|px: usize|
                        px < x ==> call_ensures(shade, (px, y), #[trigger] pixels@[y * width + px]),
                decreases width - x,
            {
                let colour: Colour = shade(x, y);
                let ghost before = pixels@;
                pixels.push(colour);
                proof {
                    assert forall|px: usize, py: usize| px < width && py < y implies call_ensures(
                        shade,
                        (px, py),
                        #[trigger] pixels@[py * width + px],
                    ) by {
                        lemma_place(width as int, y as int, px as int, py as int);
                        assert(width * y == y * width) by (nonlinear_arith);
                        assert(pixels@[py * width + px] == before[py * width + px]);
                    }
                    assert forall|px: usize| px < x + 1 implies call_ensures(
                        shade,
                        (px, y),
                        #[trigger] pixels@[y * width + px],
                    ) by {
                        if px < x {
                            assert(pixels@[y * width + px] == before[y * width + px]);
                        }
                    }
                }
                x += 1;
            }
            proof {
                assert((y + 1) * width == y * width + width) by (nonlinear_arith);
                assert forall|px: usize, py: usize|
                    px < width && py < y + 1 implies call_ensures(
                    shade,
                    (px, py),
                    #[trigger] pixels@[py * width + px],
                ) by {
                    if py == y {
                    }
                }
            }
            y += 1;
        }
        assert forall|x: usize, y: usize| x < width && y < height implies call_ensures(
            shade,
            (x, y),
            #[trigger] (Image {
                width: width as nat,
                height: height as nat,
                pixels: pixels@,
            }).at(x as int, y as int),
        ) by {
            assert(call_ensures(shade, (x, y), pixels@[y * width + x]));
        }
        assert(height * width == width * height) by (nonlinear_arith);
        Canvas { width, height, pixels }
    }
}

} // verus!
