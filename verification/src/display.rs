//! The monochrome 64x32 framebuffer and its pixels.

use vstd::prelude::*;

verus! {

/// One framebuffer cell: lit (white) or unlit (black).
#[derive(Clone, Copy, Debug, PartialEq, Eq, Structural)]
pub enum Pixel {
    Black,
    White,
}

/// The logical XOR that sprite drawing composites with: the result is lit
/// exactly when the two operands differ.
pub open spec fn spec_xor(a: Pixel, b: Pixel) -> Pixel {
    if a == b {
        Pixel::Black
    } else {
        Pixel::White
    }
}

impl Pixel {
    /// Whether the pixel is lit.
    pub open spec fn lit(self) -> bool {
        self is White
    }

    /// XOR compositing of two pixels.
    pub fn xor(self, other: Pixel) -> (r: Pixel)
        ensures
            r == spec_xor(self, other),
    {
        if self == other {
            Pixel::Black
        } else {
            Pixel::White
        }
    }
}

/// The framebuffer's width, height and total cell count.
pub const FB_WIDTH: usize = 64;

pub const FB_HEIGHT: usize = 32;

pub const FB_CELLS: usize = 2048;

/// The all-unlit framebuffer, as a sequence of cells.
pub open spec fn clear_fb() -> Seq<Pixel> {
    Seq::new(FB_CELLS as nat, |k: int| Pixel::Black)
}

/// Whether no cell of a framebuffer is lit.
pub open spec fn all_unlit(fb: Seq<Pixel>) -> bool {
    forall|k: int| 0 <= k < fb.len() ==> !(#[trigger] fb[k]).lit()
}

/// A framebuffer of 2048 cells is all-unlit exactly when it is the cleared
/// framebuffer.
pub proof fn lemma_all_unlit_is_clear(fb: Seq<Pixel>)
    requires
        fb.len() == FB_CELLS,
    ensures
        all_unlit(fb) <==> fb == clear_fb(),
{
    if all_unlit(fb) {
        assert forall|k: int| 0 <= k < FB_CELLS implies fb[k] == clear_fb()[k] by {
            assert(!fb[k].lit());
        }
        assert(fb =~= clear_fb());
    }
    if fb == clear_fb() {
        assert forall|k: int| 0 <= k < fb.len() implies !(#[trigger] fb[k]).lit() by {
            assert(fb[k] == clear_fb()[k]);
        }
    }
}

/// The 64x32 monochrome framebuffer, stored row-major: the cell at screen
/// row `r` and column `c` is `pixels[r * 64 + c]`.
#[derive(Debug)]
pub struct Display {
    pub pixels: Vec<Pixel>,
}

impl View for Display {
    type V = Seq<Pixel>;

    open spec fn view(&self) -> Seq<Pixel> {
        self.pixels@
    }
}

impl Display {
    /// A display is well formed when it holds exactly one cell per screen
    /// position.
    pub open spec fn wf(&self) -> bool {
        self.pixels@.len() == FB_CELLS
    }

    /// A blank display, every cell unlit.
    pub fn new() -> (d: Display)
        ensures
            d.wf(),
            d@ == clear_fb(),
    {
        let mut pixels: Vec<Pixel> = Vec::new();
        let mut k: usize = 0;
        while k < FB_CELLS
            invariant
                k <= FB_CELLS,
                pixels@.len() == k,
                forall|t: int| 0 <= t < k ==> pixels@[t] == Pixel::Black,
            decreases FB_CELLS - k,
        {
            pixels.push(Pixel::Black);
            k = k + 1;
        }
        proof {
            assert(pixels@ =~= clear_fb());
        }
        Display { pixels }
    }

    /// The pixel at screen row `row`, column `col`.
    pub fn get(&self, row: usize, col: usize) -> (p: Pixel)
        requires
            self.wf(),
            row < FB_HEIGHT,
            col < FB_WIDTH,
        ensures
            p == self@[row * 64 + col],
    {
        self.pixels[row * 64 + col]
    }

    /// Overwrites the pixel at screen row `row`, column `col`.
    pub fn set(&mut self, row: usize, col: usize, p: Pixel)
        requires
            old(self).wf(),
            row < FB_HEIGHT,
            col < FB_WIDTH,
        ensures
            final(self).wf(),
            final(self)@ == old(self)@.update(row * 64 + col, p),
    {
        self.pixels[row * 64 + col] = p;
    }

    /// Resets every cell to unlit.
    pub fn clear(&mut self)
        ensures
            final(self).wf(),
            final(self)@ == clear_fb(),
    {
        let blank = Display::new();
        self.pixels = blank.pixels;
    }

    /// Whether any cell is lit.
    pub fn any_lit(&self) -> (r: bool)
        requires
            self.wf(),
        ensures
            r == !all_unlit(self@),
    {
        let mut k: usize = 0;
        while k < FB_CELLS
            invariant
                self.wf(),
                k <= FB_CELLS,
                forall|t: int| 0 <= t < k ==> !(#[trigger] self@[t]).lit(),
            decreases FB_CELLS - k,
        {
            if self.pixels[k] == Pixel::White {
                return true;
            }
            k = k + 1;
        }
        false
    }

    /// A copy of the framebuffer, as handed to the host after a step that
    /// changed the display.
    pub fn snapshot(&self) -> (r: Display)
        requires
            self.wf(),
        ensures
            r.wf(),
            r@ == self@,
    {
        let pixels = self.pixels.clone();
        proof {
            assert(pixels@ =~= self.pixels@);
        }
        Display { pixels }
    }
}

impl PartialEq for Display {
    /// Two displays are equal when they show the same image.
    fn eq(&self, other: &Display) -> (r: bool) {
        if self.pixels.len() != other.pixels.len() {
            return false;
        }
        let mut k: usize = 0;
        while k < self.pixels.len()
            invariant
                self.pixels@.len() == other.pixels@.len(),
                k <= self.pixels@.len(),
                forall|t: int| 0 <= t < k ==> self.pixels@[t] == other.pixels@[t],
            decreases self.pixels@.len() - k,
        {
            if self.pixels[k] != other.pixels[k] {
                return false;
            }
            k = k + 1;
        }
        proof {
            assert(self.pixels@ =~= other.pixels@);
        }
        true
    }
}

impl vstd::std_specs::cmp::PartialEqSpecImpl for Display {
    open spec fn obeys_eq_spec() -> bool {
        true
    }

    open spec fn eq_spec(&self, other: &Display) -> bool {
        self@ == other@
    }
}

} // verus!
