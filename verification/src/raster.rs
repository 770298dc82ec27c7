//! A pixel buffer: eight-bit RGB samples, three to a pixel, rows from top to
//! bottom and pixels from left to right within a row.

use vstd::prelude::*;
use crate::color::{black, Rgb};

verus! {

/// The pixel at column `x` of row `y` in a sample buffer of the given width.
pub open spec fn pixel_in(width: nat, data: Seq<u8>, x: int, y: int) -> Rgb {
    let i = 3 * (y * width + x);
    Rgb { r: data[i], g: data[i + 1], b: data[i + 2] }
}

/// The rows of pixels that a sample buffer holds.
pub open spec fn grid_of(width: nat, height: nat, data: Seq<u8>) -> Seq<Seq<Rgb>> {
    Seq::new(height, |y: int| Seq::new(width, |x: int| pixel_in(width, data, x, y)))
}

/// A pixel inside the bounds has its three samples inside the buffer.
proof fn lemma_pixel_index(width: nat, height: nat, x: int, y: int)
    requires
        0 <= x < width,
        0 <= y < height,
    ensures
        0 <= y * width,
        0 <= y * width + x < width * height,
        0 <= 3 * (y * width + x),
        3 * (y * width + x) + 2 < 3 * width * height,
{
    assert(0 <= y * width) by (nonlinear_arith)
        requires
            0 <= y,
            0 <= width,
    ;
    assert(y * width + width <= height * width) by (nonlinear_arith)
        requires
            y + 1 <= height,
            0 <= width,
    ;
    assert(height * width == width * height) by (nonlinear_arith);
    assert(3 * width * height == 3 * (width * height)) by (nonlinear_arith);
}

/// Two pixels inside a row width share an index only if they are the same pixel.
proof fn lemma_pixel_index_distinct(width: nat, x1: int, y1: int, x2: int, y2: int)
    requires
        0 <= x1 < width,
        0 <= x2 < width,
        0 <= y1,
        0 <= y2,
        y1 * width + x1 == y2 * width + x2,
    ensures
        x1 == x2,
        y1 == y2,
{
    if y1 < y2 {
        assert(y1 * width + width <= y2 * width) by (nonlinear_arith)
            requires
                y1 + 1 <= y2,
                0 <= width,
        ;
    } else if y2 < y1 {
        assert(y2 * width + width <= y1 * width) by (nonlinear_arith)
            requires
                y2 + 1 <= y1,
                0 <= width,
        ;
    }
}

/// A grid of pixels after a rectangle of it was painted: the pixels in columns
/// `left .. left + w` of rows `top .. top + h` have the colour `c`, the others
/// are as they were.
pub open spec fn rect_filled(grid: Seq<Seq<Rgb>>, left: int, top: int, w: int, h: int, c: Rgb) -> Seq<
    Seq<Rgb>,
> {
    Seq::new(
        grid.len(),
        |y: int|
            Seq::new(
                grid[y].len(),
                |x: int|
                    if left <= x < left + w && top <= y < top + h {
                        c
                    } else {
                        grid[y][x]
                    },
            ),
    )
}

/// Calls `imageproc::drawing::draw_filled_rect_mut` on the samples, taken as an
/// RGB image of the given size, with a rectangle that lies inside the image.
/// The contract claims what that function's documentation says: every pixel of
/// the rectangle gets the colour, and no other pixel changes.
#[verifier::external_body]
fn paint_rect(width: u32, height: u32, data: &mut Vec<u8>, left: i32, top: i32, w: u32, h: u32, c: Rgb)
    requires
        old(data)@.len() == 3 * width * height,
        width <= MAX_SIDE,
        height <= MAX_SIDE,
        0 <= left,
        0 <= top,
        0 < w,
        0 < h,
        left + w <= width,
        top + h <= height,
    ensures
        final(data)@.len() == old(data)@.len(),
        grid_of(width as nat, height as nat, final(data)@) == rect_filled(
            grid_of(width as nat, height as nat, old(data)@),
            left as int,
            top as int,
            w as int,
            h as int,
            c,
        ),
    no_unwind
{
    let mut img: image::ImageBuffer<image::Rgb<u8>, &mut [u8]> = image::ImageBuffer::from_raw(
        width,
        height,
        data.as_mut_slice(),
    ).unwrap();
    let rect = imageproc::rect::Rect::at(left, top).of_size(w, h);
    imageproc::drawing::draw_filled_rect_mut(&mut img, rect, image::Rgb([c.r, c.g, c.b]));
}

/// The grid of pixels that `imageproc::drawing::draw_filled_circle_mut` makes
/// of an image with the given grid, for a disc with the given centre, radius
/// and colour.
pub uninterp spec fn disc_filled(grid: Seq<Seq<Rgb>>, cx: i32, cy: i32, radius: i32, c: Rgb) -> Seq<Seq<Rgb>>;

/// The largest distance from the origin at which a disc may reach.
pub const DISC_REACH: i32 = 0x80_0000;

/// True of a pixel in the square of side `2 * radius + 1` around a centre.
pub open spec fn in_disc_square(cx: int, cy: int, radius: int, x: int, y: int) -> bool {
    cx - radius <= x <= cx + radius && cy - radius <= y <= cy + radius
}

/// Calls `imageproc::drawing::draw_filled_circle_mut` on the samples, taken as
/// an RGB image of the given size. The contract names the outcome and claims of
/// it what the function's source shows: it draws horizontal lines in the given
/// colour, none of which leaves the square of side `2 * radius + 1` around the
/// centre. So every pixel keeps its colour or takes the given one, and the
/// pixels outside that square keep theirs.
#[verifier::external_body]
fn paint_disc(width: u32, height: u32, data: &mut Vec<u8>, cx: i32, cy: i32, radius: i32, c: Rgb)
    requires
        old(data)@.len() == 3 * width * height,
        width <= MAX_SIDE,
        height <= MAX_SIDE,
        0 <= radius,
        -DISC_REACH <= cx - radius,
        cx + radius <= DISC_REACH,
        -DISC_REACH <= cy - radius,
        cy + radius <= DISC_REACH,
    ensures
        final(data)@.len() == old(data)@.len(),
        grid_of(width as nat, height as nat, final(data)@) == disc_filled(
            grid_of(width as nat, height as nat, old(data)@),
            cx,
            cy,
            radius,
            c,
        ),
        forall|x: int, y: int|
            0 <= x < width && 0 <= y < height ==> {
                ||| #[trigger] grid_of(width as nat, height as nat, final(data)@)[y][x] == c
                ||| grid_of(width as nat, height as nat, final(data)@)[y][x] == grid_of(
                    width as nat,
                    height as nat,
                    old(data)@,
                )[y][x]
            },
        forall|x: int, y: int|
            0 <= x < width && 0 <= y < height && !in_disc_square(cx as int, cy as int, radius as int, x, y)
                ==> #[trigger] grid_of(width as nat, height as nat, final(data)@)[y][x] == grid_of(
                width as nat,
                height as nat,
                old(data)@,
            )[y][x],
    no_unwind
{
    let mut img: image::ImageBuffer<image::Rgb<u8>, &mut [u8]> = image::ImageBuffer::from_raw(
        width,
        height,
        data.as_mut_slice(),
    ).unwrap();
    imageproc::drawing::draw_filled_circle_mut(&mut img, (cx, cy), radius, image::Rgb([c.r, c.g, c.b]));
}

/// A grid of pixels after another was copied onto it with its top left corner
/// at column `left` of row `top`.
pub open spec fn blitted(grid: Seq<Seq<Rgb>>, src: Seq<Seq<Rgb>>, src_width: int, left: int, top: int) -> Seq<
    Seq<Rgb>,
> {
    blitted_upto(grid, src, src_width, left, top, src.len() as int, 0)
}

/// The grid while the copy is under way: `rows` rows of the source have been
/// copied, and `cols` pixels of the next one.
pub open spec fn blitted_upto(
    grid: Seq<Seq<Rgb>>,
    src: Seq<Seq<Rgb>>,
    src_width: int,
    left: int,
    top: int,
    rows: int,
    cols: int,
) -> Seq<Seq<Rgb>> {
    Seq::new(
        grid.len(),
        |y: int|
            Seq::new(
                grid[y].len(),
                |x: int|
                    if left <= x < left + src_width && top <= y && (y < top + rows || (y == top + rows && x
                        < left + cols)) {
                        src[y - top][x - left]
                    } else {
                        grid[y][x]
                    },
            ),
    )
}

/// A grid of pixels with the order of its rows inverted: row `i` of the result
/// is row `len - 1 - i` of the grid.
pub open spec fn rows_inverted(grid: Seq<Seq<Rgb>>) -> Seq<Seq<Rgb>> {
    Seq::new(grid.len(), |y: int| grid[grid.len() - 1 - y])
}

/// Inverting the order of the rows twice gives the grid back.
pub proof fn lemma_rows_inverted_twice(grid: Seq<Seq<Rgb>>)
    ensures
        rows_inverted(rows_inverted(grid)) == grid,
{
    assert(rows_inverted(rows_inverted(grid)) =~= grid);
}

/// The largest width and the largest height of a raster.
pub const MAX_SIDE: u32 = 0x7fff_ffff;

/// A rectangular image. `self@[y][x]` is the pixel at column `x` of row `y`;
/// row 0 is the top row.
pub struct Raster {
    width: u32,
    height: u32,
    data: Vec<u8>,
}

impl View for Raster {
    type V = Seq<Seq<Rgb>>;

    open spec fn view(&self) -> Seq<Seq<Rgb>> {
        grid_of(self.spec_width() as nat, self.spec_height() as nat, self.samples())
    }
}

impl Raster {
    /// What every raster keeps to: three samples for each pixel, and sides
    /// within the limit.
    #[verifier::type_invariant]
    pub open spec fn inv(&self) -> bool {
        &&& self.samples().len() == 3 * self.spec_width() * self.spec_height()
        &&& self.spec_width() <= MAX_SIDE
        &&& self.spec_height() <= MAX_SIDE
    }

    /// The number of pixels in a row.
    pub closed spec fn spec_width(&self) -> u32 {
        self.width
    }

    /// The number of rows.
    pub closed spec fn spec_height(&self) -> u32 {
        self.height
    }

    /// The samples in storage order.
    pub closed spec fn samples(&self) -> Seq<u8> {
        self.data@
    }

    /// The number of pixels in a row.
    #[verifier::when_used_as_spec(spec_width)]
    pub fn width(&self) -> (w: u32)
        ensures
            w == self.spec_width(),
    {
        self.width
    }

    /// The number of rows.
    #[verifier::when_used_as_spec(spec_height)]
    pub fn height(&self) -> (h: u32)
        ensures
            h == self.spec_height(),
    {
        self.height
    }

    /// A raster of the given size with every pixel black, or `None` where a
    /// side is beyond the limit or the samples are more than the machine can
    /// count.
    pub fn new(width: u32, height: u32) -> (out: Option<Raster>)
        ensures
            out is Some <==> width <= MAX_SIDE && height <= MAX_SIDE && 3 * width * height <= usize::MAX,
            out matches Some(img) ==> {
                &&& img.width() == width
                &&& img.height() == height
                &&& forall|x: int, y: int|
                    0 <= x < width && 0 <= y < height ==> #[trigger] img@[y][x] == black()
            },
    {
        if width > MAX_SIDE || height > MAX_SIDE {
            return None;
        }
        if width == 0 || height == 0 {
            assert(3 * width * height == 0) by (nonlinear_arith)
                requires
                    width == 0 || height == 0,
            ;
            return Some(Raster { width, height, data: Vec::new() });
        }
        let row: Option<usize> = (width as usize).checked_mul(3);
        let count: Option<usize> = match row {
            Some(r) => r.checked_mul(height as usize),
            None => None,
        };
        assert(3 * width * height == (width * 3) * height) by (nonlinear_arith);
        assert((width * 3) * height >= width * 3) by (nonlinear_arith)
            requires
                height >= 1,
                width >= 0,
        ;
        match count {
            Some(n) => {
                let data: Vec<u8> = vec![0u8; n];
                let img = Raster { width, height, data };
                assert forall|x: int, y: int| 0 <= x < width && 0 <= y < height implies #[trigger] img@[y][x]
                    == black() by {
                    lemma_pixel_index(width as nat, height as nat, x, y);
                }
                Some(img)
            },
            None => None,
        }
    }

    /// The number of samples, which is three for each pixel.
    pub fn sample_count(&self) -> (n: usize)
        ensures
            n == self.samples().len(),
            n == 3 * self.width() * self.height(),
    {
        proof {
            use_type_invariant(self);
        }
        self.data.len()
    }

    /// The samples in storage order.
    pub fn as_raw(&self) -> (data: &Vec<u8>)
        ensures
            data@ == self.samples(),
            data@.len() == 3 * self.width() * self.height(),
    {
        proof {
            use_type_invariant(self);
        }
        &self.data
    }

    /// Gives up the raster for its samples.
    pub fn into_raw(self) -> (data: Vec<u8>)
        ensures
            data@ == self.samples(),
            data@.len() == 3 * self.width() * self.height(),
    {
        proof {
            use_type_invariant(&self);
        }
        self.data
    }

    /// The raster of the given size over the given samples, or `None` where
    /// a side is beyond the limit or the number of samples is not three for
    /// each pixel.
    pub fn from_raw(width: u32, height: u32, data: Vec<u8>) -> (out: Option<Raster>)
        ensures
            out is Some <==> width <= MAX_SIDE && height <= MAX_SIDE && data@.len() == 3 * width * height,
            out matches Some(img) ==> {
                &&& img.width() == width
                &&& img.height() == height
                &&& img.samples() == data@
            },
    {
        if width > MAX_SIDE || height > MAX_SIDE {
            return None;
        }
        if width == 0 || height == 0 {
            assert(3 * width * height == 0) by (nonlinear_arith)
                requires
                    width == 0 || height == 0,
            ;
            if data.len() == 0 {
                return Some(Raster { width, height, data });
            }
            return None;
        }
        assert(3 * width * height == (width * 3) * height) by (nonlinear_arith);
        assert((width * 3) * height >= width * 3) by (nonlinear_arith)
            requires
                height >= 1,
                width >= 0,
        ;
        let row: Option<usize> = (width as usize).checked_mul(3);
        let count: Option<usize> = match row {
            Some(r) => r.checked_mul(height as usize),
            None => None,
        };
        assert(data.len() == data@.len());
        match count {
            Some(n) => {
                if data.len() == n {
                    Some(Raster { width, height, data })
                } else {
                    None
                }
            },
            None => None,
        }
    }

    /// Where the samples of the pixel at column `x` of row `y` begin.
    fn offset(&self, x: u32, y: u32) -> (i: usize)
        requires
            x < self.width,
            y < self.height,
        ensures
            i == 3 * (y * self.width + x),
            i + 2 < self.data.len(),
    {
        proof {
            use_type_invariant(self);
            lemma_pixel_index(self.width as nat, self.height as nat, x as int, y as int);
            assert(self.data.len() == 3 * self.width * self.height);
        }
        let row: usize = (y as usize) * (self.width as usize);
        3 * (row + (x as usize))
    }

    /// The pixel at column `x` of row `y`.
    pub fn get_pixel(&self, x: u32, y: u32) -> (c: Rgb)
        requires
            x < self.width(),
            y < self.height(),
        ensures
            c == self@[y as int][x as int],
    {
        let i: usize = self.offset(x, y);
        Rgb { r: self.data[i], g: self.data[i + 1], b: self.data[i + 2] }
    }

    /// Sets the pixel at column `x` of row `y` and leaves the others as they are.
    pub fn put_pixel(&mut self, x: u32, y: u32, c: Rgb)
        requires
            x < old(self).width(),
            y < old(self).height(),
        ensures
            final(self).width() == old(self).width(),
            final(self).height() == old(self).height(),
            final(self)@ == old(self)@.update(y as int, old(self)@[y as int].update(x as int, c)),
    {
        let i: usize = self.offset(x, y);
        proof {
            use_type_invariant(&*self);
        }
        self.data[i] = c.r;
        self.data[i + 1] = c.g;
        self.data[i + 2] = c.b;
        proof {
            let w = self.width as nat;
            let h = self.height as nat;
            let before = old(self)@;
            let after = before.update(y as int, before[y as int].update(x as int, c));
            assert forall|yy: int| 0 <= yy < h implies #[trigger] self@[yy] =~= after[yy] by {
                assert forall|xx: int| 0 <= xx < w implies self@[yy][xx] == after[yy][xx] by {
                    lemma_pixel_index(w, h, xx, yy);
                    if xx != x || yy != y {
                        if yy * w + xx == y * w + x {
                            lemma_pixel_index_distinct(w, xx, yy, x as int, y as int);
                        }
                    }
                }
            }
            assert(self@ =~= after);
        }
    }

    /// Paints the pixels of a rectangle, as far as it lies inside the raster:
    /// the columns from `left` and the rows from `top`, `w` across and `h` down.
    pub fn fill_rect(&mut self, left: i32, top: i32, w: u32, h: u32, c: Rgb)
        ensures
            final(self).width() == old(self).width(),
            final(self).height() == old(self).height(),
            final(self)@ == rect_filled(old(self)@, left as int, top as int, w as int, h as int, c),
    {
        proof {
            use_type_invariant(&*self);
        }
        let l: i64 = if left < 0 { 0 } else { left as i64 };
        let t: i64 = if top < 0 { 0 } else { top as i64 };
        let right: i64 = left as i64 + w as i64;
        let bottom: i64 = top as i64 + h as i64;
        let r: i64 = if right > self.width as i64 { self.width as i64 } else { right };
        let b: i64 = if bottom > self.height as i64 { self.height as i64 } else { bottom };
        if l < r && t < b {
            paint_rect(self.width, self.height, &mut self.data, l as i32, t as i32, (r - l) as u32, (b - t) as u32, c);
        }
        proof {
            let want = rect_filled(old(self)@, left as int, top as int, w as int, h as int, c);
            assert forall|y: int| 0 <= y < self.height implies #[trigger] self@[y] =~= want[y] by {
                assert forall|x: int| 0 <= x < self.width implies self@[y][x] == want[y][x] by {
                    if l < r && t < b {
                        let clipped = rect_filled(old(self)@, l as int, t as int, r - l, b - t, c);
                        assert(self@[y][x] == clipped[y][x]);
                    }
                }
            }
            assert(self@ =~= want);
        }
    }

    /// Paints a filled disc, as far as it lies inside the raster. No pixel
    /// outside the square of side `2 * radius + 1` around the centre changes.
    pub fn fill_disc(&mut self, cx: i32, cy: i32, radius: i32, c: Rgb)
        requires
            0 <= radius,
            -DISC_REACH <= cx - radius,
            cx + radius <= DISC_REACH,
            -DISC_REACH <= cy - radius,
            cy + radius <= DISC_REACH,
        ensures
            final(self).width() == old(self).width(),
            final(self).height() == old(self).height(),
            final(self)@ == disc_filled(old(self)@, cx, cy, radius, c),
            forall|x: int, y: int|
                0 <= x < old(self).width() && 0 <= y < old(self).height() ==> {
                    ||| #[trigger] final(self)@[y][x] == c
                    ||| final(self)@[y][x] == old(self)@[y][x]
                },
            forall|x: int, y: int|
                0 <= x < old(self).width() && 0 <= y < old(self).height() && !in_disc_square(
                    cx as int,
                    cy as int,
                    radius as int,
                    x,
                    y,
                ) ==> #[trigger] final(self)@[y][x] == old(self)@[y][x],
    {
        proof {
            use_type_invariant(&*self);
        }
        paint_disc(self.width, self.height, &mut self.data, cx, cy, radius, c);
    }

    /// Copies another raster onto this one, its top left corner at column
    /// `left` of row `top`. Where it does not fit, nothing is copied and the
    /// answer is `false`.
    pub fn blit(&mut self, src: &Raster, left: u32, top: u32) -> (fits: bool)
        ensures
            fits <==> left + src.width() <= old(self).width() && top + src.height() <= old(self).height(),
            final(self).width() == old(self).width(),
            final(self).height() == old(self).height(),
            fits ==> final(self)@ == blitted(old(self)@, src@, src.width() as int, left as int, top as int),
            !fits ==> final(self).samples() == old(self).samples(),
    {
        proof {
            use_type_invariant(&*self);
            use_type_invariant(src);
        }
        if left > self.width || src.width > self.width - left || top > self.height || src.height > self.height
            - top {
            return false;
        }
        let ghost before = self@;
        let ghost sw = src.width as int;
        assert(self@ =~~= blitted_upto(before, src@, sw, left as int, top as int, 0, 0));
        let mut y: u32 = 0;
        while y < src.height
            invariant
                0 <= y <= src.height,
                self.width == old(self).width,
                self.height == old(self).height,
                left + src.width <= self.width,
                top + src.height <= self.height,
                before == old(self)@,
                sw == src.width,
                self@ == blitted_upto(before, src@, sw, left as int, top as int, y as int, 0),
            decreases src.height - y,
        {
            let mut x: u32 = 0;
            while x < src.width
                invariant
                    0 <= x <= src.width,
                    0 <= y < src.height,
                    self.width == old(self).width,
                    self.height == old(self).height,
                    left + src.width <= self.width,
                    top + src.height <= self.height,
                    before == old(self)@,
                    sw == src.width,
                    self@ == blitted_upto(before, src@, sw, left as int, top as int, y as int, x as int),
                decreases src.width - x,
            {
                let c = src.get_pixel(x, y);
                self.put_pixel(left + x, top + y, c);
                assert(self@ =~~= blitted_upto(before, src@, sw, left as int, top as int, y as int, x + 1));
                x = x + 1;
            }
            assert(self@ =~~= blitted_upto(before, src@, sw, left as int, top as int, y + 1, 0));
            y = y + 1;
        }
        true
    }

    /// The raster with the order of its rows inverted, top to bottom.
    pub fn rows_inverted(&self) -> (out: Raster)
        ensures
            out.width() == self.width(),
            out.height() == self.height(),
            out@ == rows_inverted(self@),
    {
        proof {
            use_type_invariant(self);
            assert(self.data.len() == 3 * self.width * self.height);
        }
        let made = Raster::new(self.width, self.height);
        let mut out = made.unwrap();
        let h = self.height;
        let mut y: u32 = 0;
        while y < h
            invariant
                0 <= y <= h,
                h == self.height,
                out.width == self.width,
                out.height == self.height,
                forall|yy: int| 0 <= yy < y ==> #[trigger] out@[yy] == self@[h - 1 - yy],
            decreases h - y,
        {
            let mut x: u32 = 0;
            while x < self.width
                invariant
                    0 <= x <= self.width,
                    0 <= y < h,
                    h == self.height,
                    out.width == self.width,
                    out.height == self.height,
                    forall|yy: int| 0 <= yy < y ==> #[trigger] out@[yy] == self@[h - 1 - yy],
                    forall|xx: int| 0 <= xx < x ==> #[trigger] out@[y as int][xx] == self@[h - 1 - y][xx],
                decreases self.width - x,
            {
                let c = self.get_pixel(x, h - 1 - y);
                out.put_pixel(x, y, c);
                x = x + 1;
            }
            assert(out@[y as int] =~= self@[h - 1 - y]);
            y = y + 1;
        }
        assert(out@ =~= rows_inverted(self@));
        out
    }
}

} // verus!
