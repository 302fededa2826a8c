//! The pixel raster that the fern is accumulated into.

use crate::color::Color;
use vstd::prelude::*;

verus! {

/// The one input-validation failure of the library: a canvas dimension of
/// zero is rejected at construction.
#[derive(Clone, Copy, PartialEq, Eq, Structural, Debug)]
pub enum FernError {
    InvalidDimension,
}

/// A width x height grid of RGBA cells in row-major order, owned exclusively.
/// Cells are only ever overwritten whole (background fill, or one fern-color
/// pixel at a time); the canvas persists across generation calls.
pub struct Canvas {
    width: u32,
    height: u32,
    cells: Vec<Color>,
}

impl View for Canvas {
    type V = Seq<Color>;

    closed spec fn view(&self) -> Seq<Color> {
        self.cells@
    }
}

impl Canvas {
    pub closed spec fn spec_width(&self) -> u32 {
        self.width
    }

    pub closed spec fn spec_height(&self) -> u32 {
        self.height
    }

    /// Both dimensions are positive and the cell store covers the grid.
    pub open spec fn wf(&self) -> bool {
        &&& 0 < self.spec_width()
        &&& 0 < self.spec_height()
        &&& self@.len() == self.spec_width() * self.spec_height()
    }

    /// The cell at column `col`, row `row`.
    pub open spec fn cell(&self, col: int, row: int) -> Color {
        self@[row * self.spec_width() + col]
    }

    #[verifier::when_used_as_spec(spec_width)]
    pub fn width(&self) -> (w: u32)
        ensures
            w == self.spec_width(),
    {
        self.width
    }

    #[verifier::when_used_as_spec(spec_height)]
    pub fn height(&self) -> (h: u32)
        ensures
            h == self.spec_height(),
    {
        self.height
    }

    /// A fresh canvas, every cell blank; a zero dimension is rejected with
    /// `InvalidDimension`.
    pub fn new(width: u32, height: u32) -> (result: Result<Canvas, FernError>)
        requires
            width * height <= usize::MAX,
        ensures
            result is Ok <==> (0 < width && 0 < height),
            result matches Ok(c) ==> {
                &&& c.wf()
                &&& c.spec_width() == width
                &&& c.spec_height() == height
                &&& c@ == Seq::new((width * height) as nat, |i: int| Color::blank_spec())
            },
            result matches Err(e) ==> e == FernError::InvalidDimension,
    {
        if width == 0 || height == 0 {
            return Err(FernError::InvalidDimension);
        }
        let n: usize = (width as usize) * (height as usize);
        let mut cells: Vec<Color> = Vec::new();
        let mut i: usize = 0;
        while i < n
            invariant
                i <= n,
                cells@.len() == i,
                forall|j: int| 0 <= j < i ==> cells@[j] == Color::blank_spec(),
            decreases n - i,
        {
            cells.push(Color::blank());
            i += 1;
        }
        let canvas = Canvas { width, height, cells };
        proof {
            assert(canvas@ =~= Seq::new((width * height) as nat, |i: int| Color::blank_spec()));
        }
        Ok(canvas)
    }

    /// Overwrites every cell with `color`.
    pub fn fill(&mut self, color: Color)
        ensures
            final(self).spec_width() == old(self).spec_width(),
            final(self).spec_height() == old(self).spec_height(),
            final(self)@ == Seq::new(old(self)@.len(), |i: int| color),
    {
        let n: usize = self.cells.len();
        let mut i: usize = 0;
        while i < n
            invariant
                i <= n,
                n == self.cells@.len(),
                self.width == old(self).spec_width(),
                self.height == old(self).spec_height(),
                forall|j: int| 0 <= j < i ==> self.cells@[j] == color,
            decreases n - i,
        {
            self.cells[i] = color;
            i += 1;
        }
        proof {
            assert(self@ =~= Seq::new(old(self)@.len(), |i: int| color));
        }
    }

    /// Paints one in-bounds cell with `color`; everything else is kept.
    pub fn paint(&mut self, col: u32, row: u32, color: Color)
        requires
            old(self).wf(),
            col < old(self).spec_width(),
            row < old(self).spec_height(),
        ensures
            final(self).wf(),
            final(self).spec_width() == old(self).spec_width(),
            final(self).spec_height() == old(self).spec_height(),
            final(self)@ == old(self)@.update(
                row * old(self).spec_width() + col,
                color,
            ),
    {
        let n: usize = self.cells.len();
        proof {
            assert(row * self.width + col < self.width * self.height) by (nonlinear_arith)
                requires
                    col < self.width,
                    row < self.height,
            ;
        }
        let idx: usize = (row as usize) * (self.width as usize) + (col as usize);
        self.cells[idx] = color;
    }

    /// Reads one in-bounds cell.
    pub fn get(&self, col: u32, row: u32) -> (c: Color)
        requires
            self.wf(),
            col < self.spec_width(),
            row < self.spec_height(),
        ensures
            c == self.cell(col as int, row as int),
    {
        let n: usize = self.cells.len();
        proof {
            assert(row * self.width + col < self.width * self.height) by (nonlinear_arith)
                requires
                    col < self.width,
                    row < self.height,
            ;
        }
        let idx: usize = (row as usize) * (self.width as usize) + (col as usize);
        self.cells[idx]
    }
}

} // verus!
