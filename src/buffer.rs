//! The pixel buffer: a dense grid of elements, stored row by row.
use vstd::prelude::*;

use crate::error::RawError;
use crate::pixel::Pixel;

verus! {

/// Cell `(x, y)` of a `w`-wide grid stands at `y * w + x`, inside `w * h` cells.
pub proof fn lemma_cell_index(w: int, h: int, x: int, y: int)
    requires
        0 <= x < w,
        0 <= y < h,
    ensures
        0 <= y * w + x < w * h,
        w * h == h * w,
{
    assert(0 <= y * w + x < w * h && w * h == h * w) by (nonlinear_arith)
        requires
            0 <= x < w,
            0 <= y < h,
    ;
}

/// Nested rows that form a grid: at least one row, the first one non-empty,
/// and all of the first one's length.
pub open spec fn is_rectangular<T>(rows: Seq<Vec<T>>) -> bool {
    &&& rows.len() > 0
    &&& rows[0]@.len() > 0
    &&& forall|i: int| 0 <= i < rows.len() ==> #[trigger] rows[i]@.len() == rows[0]@.len()
}

/// A raw image: `width * height` elements, addressed as column `x`, row `y`.
pub struct PixelBuffer<T> {
    width: usize,
    height: usize,
    cells: Vec<T>,
}

impl<T: Pixel> PixelBuffer<T> {
    /// The number of columns.
    pub closed spec fn spec_width(&self) -> nat {
        self.width as nat
    }

    /// The number of rows.
    pub closed spec fn spec_height(&self) -> nat {
        self.height as nat
    }

    /// The elements in row-major order.
    pub closed spec fn cells(&self) -> Seq<T> {
        self.cells@
    }

    /// A buffer is non-empty and holds exactly one element per coordinate.
    pub open spec fn wf(&self) -> bool {
        &&& self.spec_width() > 0
        &&& self.spec_height() > 0
        &&& self.cells().len() == self.spec_width() * self.spec_height()
    }

    /// Whether `(x, y)` addresses a cell.
    pub open spec fn in_bounds(&self, x: int, y: int) -> bool {
        0 <= x < self.spec_width() && 0 <= y < self.spec_height()
    }

    /// The element at column `x`, row `y`.
    pub open spec fn at(&self, x: int, y: int) -> T {
        self.cells()[y * self.spec_width() + x]
    }

    /// A zero-filled buffer of the given size.
    pub fn new(width: usize, height: usize) -> (r: Result<Self, RawError>)
        requires
            width * height <= usize::MAX,
        ensures
            r is Err <==> width == 0 || height == 0,
            r is Err ==> r->Err_0 == RawError::InvalidDimensions,
            r matches Ok(b) ==> {
                &&& b.wf()
                &&& b.spec_width() == width
                &&& b.spec_height() == height
                &&& forall|i: int| 0 <= i < b.cells().len() ==> (#[trigger] b.cells()[i]).value() == 0
            },
    {
        if width == 0 || height == 0 {
            return Err(RawError::InvalidDimensions);
        }
        let n: usize = width * height;
        let mut cells: Vec<T> = Vec::new();
        while cells.len() < n
            invariant
                cells@.len() <= n,
                forall|i: int| 0 <= i < cells@.len() ==> (#[trigger] cells@[i]).value() == 0,
            decreases n - cells@.len(),
        {
            cells.push(T::zero());
        }
        Ok(PixelBuffer { width, height, cells })
    }

    /// A buffer over elements already laid out row by row.
    pub fn from_shape_vec(width: usize, height: usize, cells: Vec<T>) -> (r: Result<Self, RawError>)
        ensures
            r is Err <==> (width == 0 || height == 0 || cells@.len() != width * height),
            r is Err ==> r->Err_0 == RawError::InvalidDimensions,
            r matches Ok(b) ==> {
                &&& b.wf()
                &&& b.spec_width() == width
                &&& b.spec_height() == height
                &&& b.cells() == cells@
            },
    {
        if width == 0 || height == 0 {
            return Err(RawError::InvalidDimensions);
        }
        let len: usize = cells.len();
        match width.checked_mul(height) {
            Some(n) => {
                if len != n {
                    return Err(RawError::InvalidDimensions);
                }
            },
            None => {
                return Err(RawError::InvalidDimensions);
            },
        }
        Ok(PixelBuffer { width, height, cells })
    }

    /// A buffer from nested rows: height is the number of rows, width the
    /// length of the first; empty or ragged input is refused.
    pub fn new_from_vector2d(rows: &[Vec<T>]) -> (r: Result<Self, RawError>)
        ensures
            r is Err <==> !is_rectangular(rows@),
            r is Err ==> r->Err_0 == RawError::InvalidDimensions,
            r matches Ok(b) ==> {
                &&& b.wf()
                &&& b.spec_height() == rows@.len()
                &&& b.spec_width() == rows@[0]@.len()
                &&& forall|x: int, y: int|
                    b.in_bounds(x, y) ==> #[trigger] b.at(x, y) == rows@[y]@[x]
            },
    {
        let height: usize = rows.len();
        if height == 0 {
            return Err(RawError::InvalidDimensions);
        }
        let width: usize = rows[0].len();
        if width == 0 {
            return Err(RawError::InvalidDimensions);
        }
        let mut i: usize = 0;
        while i < height
            invariant
                i <= height,
                height == rows@.len(),
                width == rows@[0]@.len(),
                forall|k: int| 0 <= k < i ==> #[trigger] rows@[k]@.len() == width,
            decreases height - i,
        {
            if rows[i].len() != width {
                return Err(RawError::InvalidDimensions);
            }
            i = i + 1;
        }
        let mut cells: Vec<T> = Vec::new();
        let mut y: usize = 0;
        while y < height
            invariant
                y <= height,
                height == rows@.len(),
                width == rows@[0]@.len(),
                width > 0,
                is_rectangular(rows@),
                cells@.len() == y * width,
                forall|yy: int, xx: int|
                    0 <= yy < y && 0 <= xx < width ==> cells@[yy * width + xx] == #[trigger] rows@[yy]@[xx],
            decreases height - y,
        {
            let row: &Vec<T> = &rows[y];
            assert(row@.len() == width);
            let mut x: usize = 0;
            while x < width
                invariant
                    x <= width,
                    y < height,
                    row@ == rows@[y as int]@,
                    row@.len() == width,
                    cells@.len() == y * width + x,
                    forall|yy: int, xx: int|
                        0 <= yy < y && 0 <= xx < width ==> cells@[yy * width + xx] == #[trigger] rows@[yy]@[xx],
                    forall|xx: int| 0 <= xx < x ==> cells@[y * width + xx] == #[trigger] row@[xx],
                decreases width - x,
            {
                let ghost before = cells@;
                cells.push(row[x]);
                proof {
                    assert forall|yy: int, xx: int|
                        0 <= yy < y && 0 <= xx < width implies cells@[yy * width + xx]
                        == #[trigger] rows@[yy]@[xx] by {
                        lemma_cell_index(width as int, y as int, xx, yy);
                        assert(cells@[yy * width + xx] == before[yy * width + xx]);
                    }
                }
                x = x + 1;
            }
            proof {
                assert forall|yy: int, xx: int|
                    0 <= yy < y + 1 && 0 <= xx < width implies cells@[yy * width + xx] == #[trigger] rows@[yy]@[xx] by {
                    lemma_cell_index(width as int, (y + 1) as int, xx, yy);
                    if yy == y {
                        assert(cells@[y * width + xx] == row@[xx]);
                    }
                }
                assert((y + 1) * width == y * width + width) by (nonlinear_arith);
            }
            y = y + 1;
        }
        let ghost flat = cells@;
        let r = Self::from_shape_vec(width, height, cells);
        assert(height * width == width * height) by (nonlinear_arith);
        assert(r is Ok);
        proof {
            let b = r->Ok_0;
            assert forall|x: int, y: int| b.in_bounds(x, y) implies #[trigger] b.at(x, y) == rows@[y]@[x] by {
                lemma_cell_index(width as int, height as int, x, y);
                assert(b.at(x, y) == flat[y * width + x]);
            }
        }
        r
    }

    /// The number of columns.
    pub fn width(&self) -> (r: usize)
        ensures
            r == self.spec_width(),
    {
        self.width
    }

    /// The number of rows.
    pub fn height(&self) -> (r: usize)
        ensures
            r == self.spec_height(),
    {
        self.height
    }

    /// The size as `(width, height)`.
    pub fn shape(&self) -> (r: (usize, usize))
        ensures
            r.0 == self.spec_width(),
            r.1 == self.spec_height(),
    {
        (self.width, self.height)
    }

    /// The elements in row-major order, for bulk reads.
    pub fn data(&self) -> (r: &Vec<T>)
        ensures
            r@ == self.cells(),
    {
        &self.cells
    }

    /// The element at column `x`, row `y`, or `OutOfBounds`.
    pub fn get(&self, x: usize, y: usize) -> (r: Result<T, RawError>)
        requires
            self.wf(),
        ensures
            r is Ok <==> self.in_bounds(x as int, y as int),
            r is Err ==> r->Err_0 == RawError::OutOfBounds,
            r is Ok ==> r->Ok_0 == self.at(x as int, y as int),
    {
        if x >= self.width || y >= self.height {
            return Err(RawError::OutOfBounds);
        }
        let n: usize = self.cells.len();
        proof {
            lemma_cell_index(self.width as int, self.height as int, x as int, y as int);
        }
        Ok(self.cells[y * self.width + x])
    }

    /// A writable handle on the element at column `x`, row `y`; writing
    /// through it changes that cell alone.
    pub fn pix(&mut self, x: usize, y: usize) -> (r: &mut T)
        requires
            old(self).wf(),
            old(self).in_bounds(x as int, y as int),
        ensures
            *r == old(self).at(x as int, y as int),
            final(self).spec_width() == old(self).spec_width(),
            final(self).spec_height() == old(self).spec_height(),
            final(self).cells() == old(self).cells().update(
                y * old(self).spec_width() + x,
                *final(r),
            ),
    {
        let n: usize = self.cells.len();
        proof {
            lemma_cell_index(self.width as int, self.height as int, x as int, y as int);
        }
        let i: usize = y * self.width + x;
        &mut self.cells[i]
    }
}

} // verus!
