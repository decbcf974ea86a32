//! The pixel buffer and its centred coordinate system.

use vstd::prelude::*;
use vstd::string::*;

verus! {

/// A pixel write was asked for at a coordinate that lies outside the canvas.
#[derive(Debug, Clone, Copy, PartialEq, Eq, Structural)]
pub struct RasterizationError {
    pub x: i32,
    pub y: i32,
}

/// A fixed-size grid of packed `0x00RRGGBB` colours, stored row by row from
/// the top, and addressed by coordinates whose origin is the middle of the
/// grid: `x` grows to the right and `y` grows upwards.
pub struct Canvas {
    data: Vec<u32>,
    width: usize,
    height: usize,
}

/// The character that stands for one pixel in the text form of a canvas.
pub open spec fn glyph(px: u32) -> char {
    if px == 0 {
        '-'
    } else {
        'X'
    }
}

/// One row of pixels as text: one glyph per pixel, separated by single spaces.
pub open spec fn row_text(row: Seq<u32>) -> Seq<char>
    decreases row.len(),
{
    if row.len() == 0 {
        Seq::empty()
    } else if row.len() == 1 {
        seq![glyph(row[0])]
    } else {
        row_text(row.drop_last()) + seq![' ', glyph(row.last())]
    }
}

/// The first `rows` rows of a row-major pixel grid as text, separated by newlines.
pub open spec fn grid_text(data: Seq<u32>, width: int, rows: int) -> Seq<char>
    decreases rows,
{
    if rows <= 0 {
        Seq::empty()
    } else if rows == 1 {
        row_text(data.subrange(0, width))
    } else {
        grid_text(data, width, rows - 1) + seq!['\n'] + row_text(
            data.subrange((rows - 1) * width, rows * width),
        )
    }
}

/// Whether the canvas coordinate `(x, y)` names a pixel of a canvas of the
/// given width and height: whether its column `x + width / 2` and its row
/// `height / 2 - y` lie within the grid.
pub open spec fn within(width: int, height: int, x: int, y: int) -> bool {
    &&& 0 <= x + width / 2 < width
    &&& 0 <= height / 2 - y < height
}

impl View for Canvas {
    type V = Seq<u32>;

    /// The pixels, row by row from the top.
    closed spec fn view(&self) -> Seq<u32> {
        self.data@
    }
}

impl Canvas {
    /// The number of pixel columns.
    pub closed spec fn spec_width(&self) -> int {
        self.width as int
    }

    /// The number of pixel rows.
    pub closed spec fn spec_height(&self) -> int {
        self.height as int
    }

    /// The width and the height.
    pub open spec fn dims(&self) -> (int, int) {
        (self.spec_width(), self.spec_height())
    }

    /// The buffer holds exactly one entry per pixel.
    pub closed spec fn wf(&self) -> bool {
        self.data.len() == self.width * self.height
    }

    /// The buffer column of the canvas coordinate `x`.
    pub open spec fn col_of(&self, x: int) -> int {
        x + self.spec_width() / 2
    }

    /// The buffer row of the canvas coordinate `y`.
    pub open spec fn row_of(&self, y: int) -> int {
        self.spec_height() / 2 - y
    }

    /// Whether the canvas coordinate `(x, y)` names a pixel of this canvas.
    pub open spec fn in_bounds(&self, x: int, y: int) -> bool {
        within(self.spec_width(), self.spec_height(), x, y)
    }

    /// The buffer index of the canvas coordinate `(x, y)`.
    pub open spec fn index_of(&self, x: int, y: int) -> int {
        self.row_of(y) * self.spec_width() + self.col_of(x)
    }

    /// The colour at the canvas coordinate `(x, y)`.
    pub open spec fn pixel(&self, x: int, y: int) -> u32 {
        self@[self.index_of(x, y)]
    }

    /// Two canvases of the same shape.
    pub open spec fn same_shape(&self, other: &Canvas) -> bool {
        &&& self.spec_width() == other.spec_width()
        &&& self.spec_height() == other.spec_height()
        &&& self@.len() == other@.len()
    }

    /// The text form: a `-` for each zero pixel and an `X` for any other,
    /// columns separated by spaces and rows by newlines.
    pub open spec fn text(&self) -> Seq<char> {
        grid_text(self@, self.spec_width(), self.spec_height())
    }

    /// In a well-formed canvas the buffer length is the product of the
    /// dimensions, and every in-bounds coordinate has its own buffer index.
    pub proof fn lemma_index(&self, x: int, y: int)
        requires
            self.wf(),
            self.in_bounds(x, y),
        ensures
            self@.len() == self.spec_width() * self.spec_height(),
            0 <= self.index_of(x, y) < self@.len(),
            forall|x2: int, y2: int|
                self.in_bounds(x2, y2) && (x2 != x || y2 != y) ==> #[trigger] self.index_of(x2, y2)
                    != self.index_of(x, y),
    {
        let w = self.spec_width();
        let h = self.spec_height();
        let r = self.row_of(y);
        let c = self.col_of(x);
        lemma_cell_index(w, h, r, c);
        assert forall|x2: int, y2: int|
            self.in_bounds(x2, y2) && (x2 != x || y2 != y) implies #[trigger] self.index_of(x2, y2)
            != self.index_of(x, y) by {
            lemma_cell_index_distinct(w, r, c, self.row_of(y2), self.col_of(x2));
        }
    }

    /// The colours at the coordinates of a canvas are all there is to it:
    /// two canvases of the same shape that agree at every coordinate hold
    /// the same pixels.
    pub proof fn lemma_pixels_are_all(&self, other: &Canvas)
        requires
            self.wf(),
            other.wf(),
            self.same_shape(other),
            forall|x: int, y: int|
                self.in_bounds(x, y) ==> #[trigger] self.pixel(x, y) == other.pixel(x, y),
        ensures
            self@ == other@,
    {
        let w = self.spec_width();
        let h = self.spec_height();
        assert forall|i: int| 0 <= i < self@.len() implies self@[i] == other@[i] by {
            lemma_cell_of_index(w, h, i);
            let x = i % w - w / 2;
            let y = h / 2 - i / w;
            assert(self.in_bounds(x, y));
            assert(self.index_of(x, y) == i);
            assert(other.index_of(x, y) == i);
            assert(self.pixel(x, y) == other.pixel(x, y));
        }
        assert(self@ =~= other@);
    }

    /// A canvas of `width` by `height` pixels, all zero.
    pub fn new(width: usize, height: usize) -> (canvas: Canvas)
        requires
            width * height <= usize::MAX,
        ensures
            canvas.wf(),
            canvas.spec_width() == width,
            canvas.spec_height() == height,
            canvas@ == Seq::new((width * height) as nat, |i: int| 0u32),
    {
        let data = vec![0u32; width * height];
        assert(data@ =~= Seq::new((width * height) as nat, |i: int| 0u32));
        Canvas { data, width, height }
    }

    /// The number of pixel columns.
    pub fn width(&self) -> (w: usize)
        ensures
            w == self.spec_width(),
    {
        self.width
    }

    /// The number of pixel rows.
    pub fn height(&self) -> (h: usize)
        ensures
            h == self.spec_height(),
    {
        self.height
    }

    /// The pixels, row by row from the top, ready to be shown.
    pub fn data(&self) -> (pixels: &Vec<u32>)
        ensures
            pixels@ == self@,
    {
        &self.data
    }

    /// Whether `(x, y)` names a pixel of this canvas.
    pub fn contains(&self, x: i32, y: i32) -> (b: bool)
        ensures
            b == self.in_bounds(x as int, y as int),
    {
        let col: i128 = x as i128 + (self.width / 2) as i128;
        let row: i128 = (self.height / 2) as i128 - y as i128;
        0 <= col && col < self.width as i128 && 0 <= row && row < self.height as i128
    }

    /// Sets every pixel to `color`.
    pub fn fill(&mut self, color: u32)
        requires
            old(self).wf(),
        ensures
            final(self).wf(),
            final(self).same_shape(old(self)),
            forall|i: int| 0 <= i < final(self)@.len() ==> final(self)@[i] == color,
            forall|x: int, y: int|
                old(self).in_bounds(x, y) ==> #[trigger] final(self).pixel(x, y) == color,
    {
        let n = self.data.len();
        let mut i: usize = 0;
        while i < n
            invariant
                n == self.data.len(),
                self.data.len() == old(self).data.len(),
                self.width == old(self).width,
                self.height == old(self).height,
                i <= n,
                forall|j: int| 0 <= j < i ==> self.data@[j] == color,
            decreases n - i,
        {
            self.data.set(i, color);
            i += 1;
        }
        proof {
            assert forall|x: int, y: int| old(self).in_bounds(x, y) implies #[trigger] self.pixel(
                x,
                y,
            ) == color by {
                self.lemma_index(x, y);
            }
        }
    }

    /// Paints the pixel at the canvas coordinate `(x, y)`.
    ///
    /// The pixel lands in buffer row `height / 2 - y` and column
    /// `x + width / 2`. A coordinate outside the canvas is reported and
    /// leaves the canvas as it was.
    pub fn set_pixel(&mut self, x: i32, y: i32, color: u32) -> (res: Result<
        (),
        RasterizationError,
    >)
        requires
            old(self).wf(),
        ensures
            final(self).wf(),
            final(self).same_shape(old(self)),
            res is Ok <==> old(self).in_bounds(x as int, y as int),
            res is Ok ==> final(self)@ == old(self)@.update(
                old(self).index_of(x as int, y as int),
                color,
            ),
            res is Ok ==> forall|x2: int, y2: int|
                old(self).in_bounds(x2, y2) ==> #[trigger] final(self).pixel(x2, y2) == (if x2 == x
                    && y2 == y {
                    color
                } else {
                    old(self).pixel(x2, y2)
                }),
            res matches Err(e) ==> e == (RasterizationError { x, y }) && final(self)@ == old(
                self,
            )@,
    {
        if !self.contains(x, y) {
            return Err(RasterizationError { x, y });
        }
        let col: i128 = x as i128 + (self.width / 2) as i128;
        let row: i128 = (self.height / 2) as i128 - y as i128;
        let r: usize = row as usize;
        let c: usize = col as usize;
        proof {
            lemma_cell_index(self.width as int, self.height as int, r as int, c as int);
        }
        let index: usize = r * self.width + c;
        self.data.set(index, color);
        proof {
            assert forall|x2: int, y2: int| old(self).in_bounds(x2, y2) implies #[trigger] self.pixel(
                x2,
                y2,
            ) == (if x2 == x && y2 == y {
                color
            } else {
                old(self).pixel(x2, y2)
            }) by {
                old(self).lemma_index(x2, y2);
                old(self).lemma_index(x as int, y as int);
            }
        }
        Ok(())
    }

    /// The text form of the canvas.
    pub fn to_string(&self) -> (s: String)
        requires
            self.wf(),
        ensures
            s@ == self.text(),
    {
        let mut s = String::new();
        let mut y: usize = 0;
        while y < self.height
            invariant
                self.wf(),
                y <= self.height,
                s@ == grid_text(self.data@, self.width as int, y as int),
            decreases self.height - y,
        {
            proof {
                lemma_row_end(self.width as int, self.height as int, y as int);
                assert((y + 1) * self.width == y * self.width + self.width) by (nonlinear_arith);
            }
            if y > 0 {
                proof {
                    reveal_strlit("\n");
                }
                s.append("\n");
            }
            let ghost before = s@;
            let start: usize = y * self.width;
            let ghost row = self.data@.subrange(start as int, start + self.width);
            let mut x: usize = 0;
            while x < self.width
                invariant
                    self.wf(),
                    y < self.height,
                    x <= self.width,
                    start == y * self.width,
                    start + self.width <= self.data@.len(),
                    row == self.data@.subrange(start as int, start + self.width),
                    s@ == before + row_text(row.subrange(0, x as int)),
                decreases self.width - x,
            {
                let px = self.data[start + x];
                if x > 0 {
                    proof {
                        reveal_strlit(" ");
                    }
                    s.append(" ");
                }
                if px == 0 {
                    proof {
                        reveal_strlit("-");
                    }
                    s.append("-");
                } else {
                    proof {
                        reveal_strlit("X");
                    }
                    s.append("X");
                }
                proof {
                    let part = row.subrange(0, x + 1);
                    assert(part.drop_last() =~= row.subrange(0, x as int));
                    assert(part.last() == px);
                    if x == 0 {
                        assert(row.subrange(0, 0) =~= Seq::<u32>::empty());
                        assert(s@ =~= before + row_text(part));
                    } else {
                        assert(s@ =~= before + row_text(part));
                    }
                }
                x += 1;
            }
            proof {
                assert(row.subrange(0, self.width as int) =~= row);
                if y == 0 {
                    assert(before =~= Seq::<char>::empty());
                    assert(s@ =~= row_text(row));
                    assert(y * self.width == 0) by (nonlinear_arith)
                        requires
                            y == 0,
                    ;
                } else {
                    assert(before == grid_text(self.data@, self.width as int, y as int) + seq!['\n']);
                    assert(s@ =~= grid_text(self.data@, self.width as int, y as int) + seq!['\n']
                        + row_text(row));
                }
            }
            y += 1;
        }
        s
    }
}

/// Row `r`, column `c` of a `w` by `h` grid has an index within the grid.
proof fn lemma_cell_index(w: int, h: int, r: int, c: int)
    by (nonlinear_arith)
    requires
        0 <= r < h,
        0 <= c < w,
    ensures
        0 <= r * w + c < w * h,
        0 <= r * w <= r * w + c,
{
    assert(r * w + w <= h * w);
}

/// Every index of a `w` by `h` grid is that of a cell: of row `i / w` and
/// column `i % w`.
proof fn lemma_cell_of_index(w: int, h: int, i: int)
    by (nonlinear_arith)
    requires
        0 <= w,
        0 <= h,
        0 <= i < w * h,
    ensures
        w > 0,
        0 <= i % w < w,
        0 <= i / w < h,
        (i / w) * w + i % w == i,
{
}

/// The last cell of row `r` lies within the grid.
proof fn lemma_row_end(w: int, h: int, r: int)
    by (nonlinear_arith)
    requires
        0 <= r < h,
        0 <= w,
    ensures
        0 <= r * w,
        r * w + w <= w * h,
{
    assert((r + 1) * w <= h * w);
}

/// Distinct cells of a grid of width `w` have distinct indices.
proof fn lemma_cell_index_distinct(w: int, r1: int, c1: int, r2: int, c2: int)
    by (nonlinear_arith)
    requires
        0 <= c1 < w,
        0 <= c2 < w,
        r1 != r2 || c1 != c2,
    ensures
        r1 * w + c1 != r2 * w + c2,
{
    if r1 < r2 {
        assert(r1 * w + w <= r2 * w);
    } else if r2 < r1 {
        assert(r2 * w + w <= r1 * w);
    }
}

} // verus!
