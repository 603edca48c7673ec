//! The bookkeeping of a frame: which pixels are settled, which rows of a
//! column a wall or a floor covers, and where each pixel lies in the frame
//! that is shown.
//!
//! Surfaces are blended into a pixel nearest first, until the pixel lets no
//! more light through: it is then settled. How much light a pixel still
//! lets through is for the caller to compute. Pixels are kept column by
//! column, since a ray paints one column.

use vstd::prelude::*;

verus! {

/// The number of pixels not yet settled among those at `lo` up to, not
/// including, `hi`.
pub open spec fn count_open(done: Seq<bool>, lo: int, hi: int) -> nat
    decreases hi - lo,
{
    if hi <= lo {
        0
    } else {
        count_open(done, lo, hi - 1) + if done[hi - 1] {
            0nat
        } else {
            1nat
        }
    }
}

/// Two rows of pixels that agree between `lo` and `hi` have as many open
/// pixels there.
pub proof fn lemma_count_agrees(a: Seq<bool>, b: Seq<bool>, lo: int, hi: int)
    requires
        forall|i: int| lo <= i < hi ==> a[i] == b[i],
    ensures
        count_open(a, lo, hi) == count_open(b, lo, hi),
    decreases hi - lo,
{
    if lo < hi {
        lemma_count_agrees(a, b, lo, hi - 1);
    }
}

/// There are at most as many open pixels as pixels, and none exactly when
/// every pixel is settled.
pub proof fn lemma_count_bounds(done: Seq<bool>, lo: int, hi: int)
    requires
        lo <= hi,
    ensures
        count_open(done, lo, hi) <= hi - lo,
        count_open(done, lo, hi) == 0 <==> (forall|i: int| lo <= i < hi ==> done[i]),
        count_open(done, lo, hi) == hi - lo <==> (forall|i: int| lo <= i < hi ==> !done[i]),
    decreases hi - lo,
{
    if lo < hi {
        lemma_count_bounds(done, lo, hi - 1);
    }
}

/// Settling one open pixel leaves one open pixel fewer.
pub proof fn lemma_count_settle(done: Seq<bool>, lo: int, hi: int, p: int)
    requires
        0 <= lo <= p < hi <= done.len(),
        !done[p],
    ensures
        count_open(done.update(p, true), lo, hi) + 1 == count_open(done, lo, hi),
    decreases hi - lo,
{
    let after = done.update(p, true);
    if p == hi - 1 {
        lemma_count_agrees(done, after, lo, hi - 1);
    } else {
        lemma_count_settle(done, lo, hi - 1, p);
    }
}

/// What is settled after a blend into pixel `p`: the pixel itself if the
/// blend left it opaque, and whatever was settled before.
pub open spec fn blended(settled: Seq<bool>, p: int, opaque: bool) -> Seq<bool> {
    if opaque {
        settled.update(p, true)
    } else {
        settled
    }
}

/// A blend that leaves a pixel opaque settles it, and a settled pixel stays
/// settled: whatever is blended into it afterwards changes nothing.
pub proof fn lemma_opaque_blend_is_final(settled: Seq<bool>, p: int, opaque: bool)
    requires
        0 <= p < settled.len(),
    ensures
        blended(settled, p, true)[p],
        blended(blended(settled, p, true), p, opaque) == blended(settled, p, true),
        settled[p] ==> blended(settled, p, opaque) == settled,
{
    assert(blended(blended(settled, p, true), p, opaque) =~= blended(settled, p, true));
    if settled[p] {
        assert(blended(settled, p, opaque) =~= settled);
    }
}

/// The rows of a column that a wall covers.
#[derive(Clone, Copy, Debug, PartialEq, Eq)]
pub struct Span {
    /// The row of the wall's upper edge, which may lie above the frame.
    pub start: i64,
    /// The row just below the wall's lower edge, which may lie below the
    /// frame.
    pub end: i64,
    /// The first row to paint.
    pub draw_start: usize,
    /// The row after the last to paint.
    pub draw_end: usize,
}

/// Half of `n`, rounded towards zero.
pub open spec fn half(n: int) -> int {
    if n >= 0 {
        n / 2
    } else {
        -((-n) / 2)
    }
}

/// The row nearest to `row` among 0 up to `height`.
pub open spec fn clamp_row(row: int, height: int) -> int {
    if row < 0 {
        0
    } else if row > height {
        height
    } else {
        row
    }
}

/// The state of a frame of `width` by `height` pixels while it is painted.
#[derive(Debug)]
pub struct Renderer {
    width: usize,
    height: usize,
    finished: Vec<bool>,
    left: Vec<usize>,
}

impl Renderer {
    /// The number of columns.
    pub closed spec fn spec_width(&self) -> nat {
        self.width as nat
    }

    /// The number of rows.
    pub closed spec fn spec_height(&self) -> nat {
        self.height as nat
    }

    /// For each pixel whether it is settled, column after column.
    pub closed spec fn settled(&self) -> Seq<bool> {
        self.finished@
    }

    /// For each column the number of its pixels that are still open.
    pub closed spec fn open_rows(&self) -> Seq<usize> {
        self.left@
    }

    /// Whether (x, y) is a pixel of the frame.
    pub open spec fn inside(&self, x: int, y: int) -> bool {
        0 <= x < self.spec_width() && 0 <= y < self.spec_height()
    }

    /// Whether the pixel in column `x` and row `y` is settled.
    pub open spec fn done(&self, x: int, y: int) -> bool {
        self.settled()[x * self.spec_height() + y]
    }

    /// The number of pixels of column `x` that are still open.
    pub open spec fn left(&self, x: int) -> nat {
        self.open_rows()[x] as nat
    }

    /// The frame's bytes can be addressed, and each column's count of open
    /// pixels is right.
    pub open spec fn wf(&self) -> bool {
        &&& self.spec_width() <= i32::MAX
        &&& self.spec_height() <= i32::MAX
        &&& self.spec_width() * self.spec_height() * 4 <= usize::MAX
        &&& self.settled().len() == self.spec_width() * self.spec_height()
        &&& self.open_rows().len() == self.spec_width()
        &&& forall|x: int|
            0 <= x < self.spec_width() ==> #[trigger] self.left(x) == count_open(
                self.settled(),
                x * self.spec_height(),
                x * self.spec_height() + self.spec_height(),
            )
    }

    /// Every pixel is open.
    pub open spec fn blank(&self) -> bool {
        &&& forall|x: int, y: int| self.inside(x, y) ==> !#[trigger] self.done(x, y)
        &&& forall|x: int| 0 <= x < self.spec_width() ==> #[trigger] self.left(x) == self.spec_height()
    }

    /// A frame of the given size with every pixel open.
    pub fn new(width: usize, height: usize) -> (r: Renderer)
        requires
            width <= i32::MAX,
            height <= i32::MAX,
            width * height * 4 <= usize::MAX,
        ensures
            r.wf(),
            r.spec_width() == width,
            r.spec_height() == height,
            r.blank(),
    {
        proof {
            assert(width * height <= width * height * 4) by (nonlinear_arith)
                requires
                    0 <= width * height,
            ;
        }
        let n = width * height;
        let mut finished: Vec<bool> = Vec::new();
        let mut i: usize = 0;
        while i < n
            invariant
                i <= n,
                finished@.len() == i,
                forall|j: int| 0 <= j < i ==> !#[trigger] finished@[j],
            decreases n - i,
        {
            finished.push(false);
            i = i + 1;
        }
        let mut left: Vec<usize> = Vec::new();
        let mut x: usize = 0;
        while x < width
            invariant
                x <= width,
                left@.len() == x,
                forall|j: int| 0 <= j < x ==> #[trigger] left@[j] == height,
            decreases width - x,
        {
            left.push(height);
            x = x + 1;
        }
        let r = Renderer { width, height, finished, left };
        proof {
            assert forall|x: int| 0 <= x < r.spec_width() implies #[trigger] r.left(x)
                == count_open(r.settled(), x * r.spec_height(), x * r.spec_height() + r.spec_height()) by {
                lemma_column(x, width as int, height as int);
                lemma_count_bounds(r.settled(), x * height, x * height + height);
            }
            assert forall|x: int, y: int| r.inside(x, y) implies !#[trigger] r.done(x, y) by {
                lemma_pixel_index(x, y, width as int, height as int);
            }
        }
        r
    }

    /// Opens every pixel again, for the next frame.
    pub fn clear(&mut self)
        requires
            old(self).wf(),
        ensures
            final(self).wf(),
            final(self).spec_width() == old(self).spec_width(),
            final(self).spec_height() == old(self).spec_height(),
            final(self).blank(),
    {
        let fresh = Renderer::new(self.width, self.height);
        self.finished = fresh.finished;
        self.left = fresh.left;
        proof {
            assert(self.settled() == fresh.settled());
            assert(self.open_rows() == fresh.open_rows());
            assert forall|x: int| 0 <= x < self.spec_width() implies #[trigger] self.left(x)
                == self.spec_height() by {
                assert(fresh.left(x) == fresh.spec_height());
            }
            assert forall|x: int, y: int| self.inside(x, y) implies !#[trigger] self.done(x, y) by {
                assert(!fresh.done(x, y));
            }
            assert forall|x: int| 0 <= x < self.spec_width() implies #[trigger] self.left(x)
                == count_open(
                self.settled(),
                x * self.spec_height(),
                x * self.spec_height() + self.spec_height(),
            ) by {
                assert(fresh.left(x) == count_open(
                    fresh.settled(),
                    x * fresh.spec_height(),
                    x * fresh.spec_height() + fresh.spec_height(),
                ));
            }
        }
    }

    /// The number of columns.
    pub fn width(&self) -> (w: usize)
        ensures
            w == self.spec_width(),
    {
        self.width
    }

    /// The number of rows.
    pub fn height(&self) -> (h: usize)
        ensures
            h == self.spec_height(),
    {
        self.height
    }

    /// Whether the pixel in column `x` and row `y` is settled.
    pub fn pixel_finished(&self, x: usize, y: usize) -> (b: bool)
        requires
            self.wf(),
            self.inside(x as int, y as int),
        ensures
            b == self.done(x as int, y as int),
    {
        proof {
            lemma_pixel_index(x as int, y as int, self.width as int, self.height as int);
        }
        self.finished[x * self.height + y]
    }

    /// Records what blending a surface into the pixel in column `x` and row
    /// `y` did: `opaque` says whether the blend left the pixel letting no
    /// more light through. Returns whether the pixel is settled after the
    /// call: it is where the blend left it opaque, and where it was settled
    /// before. A pixel that was settled before stays as it is, whatever is
    /// blended into it, and the frame with it; an open pixel that the blend
    /// settles is counted off its column once.
    pub fn set_pixel(&mut self, x: usize, y: usize, opaque: bool) -> (settled: bool)
        requires
            old(self).wf(),
            old(self).inside(x as int, y as int),
        ensures
            final(self).wf(),
            final(self).spec_width() == old(self).spec_width(),
            final(self).spec_height() == old(self).spec_height(),
            settled == final(self).done(x as int, y as int),
            final(self).settled() == blended(
                old(self).settled(),
                x * old(self).spec_height() + y,
                opaque,
            ),
            final(self).done(x as int, y as int) == (old(self).done(x as int, y as int) || opaque),
            forall|u: int, v: int|
                old(self).inside(u, v) && !(u == x && v == y) ==> #[trigger] final(self).done(u, v)
                    == old(self).done(u, v),
            final(self).left(x as int) + (if opaque && !old(self).done(x as int, y as int) {
                1int
            } else {
                0int
            }) == old(self).left(x as int),
            forall|u: int|
                0 <= u < old(self).spec_width() && u != x ==> #[trigger] final(self).left(u) == old(self).left(u),
            !(opaque && !old(self).done(x as int, y as int)) ==> final(self).settled() == old(self).settled() && final(self).open_rows() == old(self).open_rows(),
    {
        let width = self.width;
        let height = self.height;
        proof {
            lemma_pixel_index(x as int, y as int, width as int, height as int);
        }
        let p = x * height + y;
        let was_settled = self.finished[p];
        if was_settled || !opaque {
            proof {
                lemma_opaque_blend_is_final(self.settled(), p as int, opaque);
            }
            return was_settled;
        }
        let ghost before = self.finished@;
        proof {
            lemma_column(x as int, width as int, height as int);
            lemma_count_settle(before, x * height, x * height + height, p as int);
            assert(old(self).left(x as int) == count_open(before, x * height, x * height + height));
        }
        self.finished.set(p, true);
        let open = self.left[x];
        self.left.set(x, open - 1);
        proof {
            assert(self.settled() == before.update(p as int, true));
            assert forall|u: int| 0 <= u < self.spec_width() implies #[trigger] self.left(u)
                == count_open(
                self.settled(),
                u * self.spec_height(),
                u * self.spec_height() + self.spec_height(),
            ) by {
                if u != x {
                    lemma_column(u, width as int, height as int);
                    lemma_columns_apart(u, x as int, height as int);
                    lemma_count_agrees(before, self.settled(), u * height, u * height + height);
                    assert(old(self).left(u) == count_open(before, u * height, u * height + height));
                }
            }
            assert forall|u: int, v: int|
                old(self).inside(u, v) && !(u == x && v == y) implies #[trigger] self.done(u, v)
                == old(self).done(u, v) by {
                lemma_pixel_index(u, v, width as int, height as int);
                if u != x {
                    lemma_columns_apart(u, x as int, height as int);
                }
            }
        }
        true
    }

    /// Whether every pixel of column `x` is settled, so that nothing
    /// further along the ray can show in it.
    pub fn column_finished(&self, x: usize) -> (b: bool)
        requires
            self.wf(),
            x < self.spec_width(),
        ensures
            b == (self.left(x as int) == 0),
            b <==> (forall|y: int| 0 <= y < self.spec_height() ==> self.done(x as int, y)),
    {
        proof {
            let h = self.height as int;
            let lo = x * h;
            lemma_column(x as int, self.width as int, h);
            lemma_count_bounds(self.settled(), lo, lo + h);
            assert(self.left(x as int) == count_open(self.settled(), lo, lo + h));
            if forall|i: int| lo <= i < lo + h ==> self.settled()[i] {
                assert forall|y: int| 0 <= y < h implies self.done(x as int, y) by {
                    assert(self.settled()[lo + y]);
                }
            }
            if forall|y: int| 0 <= y < h ==> self.done(x as int, y) {
                assert forall|i: int| lo <= i < lo + h implies self.settled()[i] by {
                    assert(self.done(x as int, i - lo));
                }
            }
        }
        self.left[x] == 0
    }

    /// The number of pixels of column `x` that are still open.
    pub fn column_left(&self, x: usize) -> (n: usize)
        requires
            self.wf(),
            x < self.spec_width(),
        ensures
            n == self.left(x as int),
    {
        self.left[x]
    }

    /// The rows that a wall covers whose height on the screen is
    /// `line_height` rows and whose middle lies `offset` rows below the
    /// middle of the frame: half the height above its middle and half below,
    /// and of these the rows that lie within the frame.
    pub fn wall_span(&self, line_height: i32, offset: i32) -> (span: Span)
        requires
            self.wf(),
        ensures
            span.start == self.spec_height() / 2 + offset - half(line_height as int),
            span.end == self.spec_height() / 2 + offset + half(line_height as int),
            span.draw_start == clamp_row(span.start as int, self.spec_height() as int),
            span.draw_end == clamp_row(span.end as int, self.spec_height() as int),
    {
        let height = self.height as i64;
        let mid_point: i64 = height / 2 + offset as i64;
        let reach: i64 = if line_height >= 0 {
            line_height as i64 / 2
        } else {
            -((-(line_height as i64)) / 2)
        };
        let start: i64 = mid_point - reach;
        let end: i64 = mid_point + reach;
        Span {
            start,
            end,
            draw_start: self.clamp(start),
            draw_end: self.clamp(end),
        }
    }

    /// Whether the four bytes of pixel (x, y) in `screen`, which holds the
    /// frame row after row, show `colors`, which holds it column after
    /// column: its red, green and blue, and full opacity.
    pub open spec fn shows(&self, screen: Seq<u8>, colors: Seq<[u8; 3]>, x: int, y: int) -> bool {
        let at = (y * self.spec_width() + x) * 4;
        let color = colors[x * self.spec_height() + y];
        &&& screen[at] == color@[0]
        &&& screen[at + 1] == color@[1]
        &&& screen[at + 2] == color@[2]
        &&& screen[at + 3] == 255
    }

    /// Writes the finished frame to `screen`, four bytes to the pixel, row
    /// after row. `colors` holds the red, green and blue of each pixel,
    /// column after column; every pixel is written as fully opaque.
    pub fn render(&self, colors: &Vec<[u8; 3]>, screen: &mut [u8])
        requires
            self.wf(),
            colors@.len() == self.spec_width() * self.spec_height(),
            old(screen)@.len() == self.spec_width() * self.spec_height() * 4,
        ensures
            final(screen)@.len() == old(screen)@.len(),
            forall|x: int, y: int|
                self.inside(x, y) ==> #[trigger] self.shows(final(screen)@, colors@, x, y),
    {
        let width = self.width;
        let height = self.height;
        let mut y: usize = 0;
        while y < height
            invariant
                self.wf(),
                width == self.spec_width(),
                height == self.spec_height(),
                y <= height,
                colors@.len() == width * height,
                screen@.len() == width * height * 4,
                forall|u: int, v: int|
                    0 <= u < width && 0 <= v < y ==> #[trigger] self.shows(screen@, colors@, u, v),
            decreases height - y,
        {
            let mut x: usize = 0;
            while x < width
                invariant
                    self.wf(),
                    width == self.spec_width(),
                    height == self.spec_height(),
                    y < height,
                    x <= width,
                    colors@.len() == width * height,
                    screen@.len() == width * height * 4,
                    forall|u: int, v: int|
                        0 <= u < width && 0 <= v < y ==> #[trigger] self.shows(
                            screen@,
                            colors@,
                            u,
                            v,
                        ),
                    forall|u: int| 0 <= u < x ==> #[trigger] self.shows(screen@, colors@, u, y as int),
                decreases width - x,
            {
                proof {
                    lemma_pixel_index(x as int, y as int, width as int, height as int);
                    lemma_pixel_index(y as int, x as int, height as int, width as int);
                    assert(height * width == width * height) by (nonlinear_arith);
                }
                let color = colors[x * height + y];
                let at = (y * width + x) * 4;
                let ghost before = screen@;
                screen[at] = color[0];
                screen[at + 1] = color[1];
                screen[at + 2] = color[2];
                screen[at + 3] = 255;
                proof {
                    assert forall|u: int, v: int| 0 <= u < width && 0 <= v < y implies #[trigger] self.shows(
                        screen@,
                        colors@,
                        u,
                        v,
                    ) by {
                        assert(self.shows(before, colors@, u, v));
                        lemma_rows_apart(u, v, x as int, y as int, width as int);
                    }
                    assert forall|u: int| 0 <= u < x + 1 implies #[trigger] self.shows(
                        screen@,
                        colors@,
                        u,
                        y as int,
                    ) by {
                        if u < x {
                            assert(self.shows(before, colors@, u, y as int));
                        }
                    }
                }
                x = x + 1;
            }
            y = y + 1;
        }
    }

    /// The row nearest to `row` among 0 up to the frame's height.
    fn clamp(&self, row: i64) -> (r: usize)
        requires
            self.wf(),
        ensures
            r == clamp_row(row as int, self.spec_height() as int),
    {
        if row < 0 {
            0
        } else if row > self.height as i64 {
            self.height
        } else {
            row as usize
        }
    }

    /// The row at which the floor at some distance shows, given the row
    /// that the distance projects to, or nothing for the distance zero, which
    /// lies at the frame's lower edge. No floor shows below the frame.
    pub fn y_from_floor_dist(&self, row: Option<usize>) -> (y: usize)
        ensures
            y == match row {
                Some(r) => if r <= self.spec_height() {
                    r as nat
                } else {
                    self.spec_height()
                },
                None => self.spec_height(),
            },
    {
        match row {
            Some(r) => if r <= self.height {
                r
            } else {
                self.height
            },
            None => self.height,
        }
    }

    /// The row at which the ceiling at some distance shows, given the row
    /// that the distance projects to, or nothing for the distance zero, which
    /// lies at the frame's upper edge. No ceiling shows below the middle of
    /// the frame.
    pub fn y_from_ceiling_dist(&self, row: Option<usize>) -> (y: usize)
        ensures
            y == match row {
                Some(r) => if r <= self.spec_height() / 2 {
                    r as nat
                } else {
                    self.spec_height() / 2
                },
                None => 0,
            },
    {
        let middle = self.height / 2;
        match row {
            Some(r) => if r <= middle {
                r
            } else {
                middle
            },
            None => 0,
        }
    }
}

/// In a frame held row after row, a pixel of an earlier row lies before
/// every pixel of a later row.
pub proof fn lemma_rows_apart(u: int, v: int, x: int, y: int, width: int)
    requires
        0 <= u < width,
        0 <= x,
        0 <= v < y,
    ensures
        0 <= v * width + u < y * width + x,
{
    assert(0 <= v * width) by (nonlinear_arith)
        requires
            0 <= v,
            0 <= width,
    ;
    assert(v * width + width <= y * width) by (nonlinear_arith)
        requires
            v + 1 <= y,
            0 <= width,
    ;
}

/// The pixels of two different columns lie apart.
pub proof fn lemma_columns_apart(u: int, x: int, height: int)
    requires
        u != x,
        0 <= height,
    ensures
        u * height + height <= x * height || x * height + height <= u * height,
{
    if u < x {
        assert(u * height + height <= x * height) by (nonlinear_arith)
            requires
                u + 1 <= x,
                0 <= height,
        ;
    } else {
        assert(x * height + height <= u * height) by (nonlinear_arith)
            requires
                x + 1 <= u,
                0 <= height,
        ;
    }
}

/// Pixel (x, y) of a frame `height` high lies at `x * height + y`, within
/// the `width * height` pixels of the frame.
pub proof fn lemma_pixel_index(x: int, y: int, width: int, height: int)
    requires
        0 <= x < width,
        0 <= y < height,
    ensures
        0 <= x * height,
        0 <= x * height + y < width * height,
{
    assert(0 <= x * height) by (nonlinear_arith)
        requires
            0 <= x,
            0 <= height,
    ;
    assert(x * height + height <= width * height) by (nonlinear_arith)
        requires
            x + 1 <= width,
            0 <= height,
    ;
}

/// Column `x` of a frame `height` high takes the pixels from `x * height`
/// up to `x * height + height`, all within the frame.
pub proof fn lemma_column(x: int, width: int, height: int)
    requires
        0 <= x < width,
        0 <= height,
    ensures
        0 <= x * height,
        x * height + height <= width * height,
{
    assert(0 <= x * height) by (nonlinear_arith)
        requires
            0 <= x,
            0 <= height,
    ;
    assert(x * height + height <= width * height) by (nonlinear_arith)
        requires
            x + 1 <= width,
            0 <= height,
    ;
}

} // verus!
