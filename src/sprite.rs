use vstd::prelude::*;

use vstd::arithmetic::div_mod::{lemma_fundamental_div_mod, lemma_fundamental_div_mod_converse};

use crate::buffer::{filled, in_bounds, pixel_at, pixel_index, with_pixel, PixelBuffer};
use crate::color::Rgba;

verus! {

/// Whether (x, y) falls on a `sw` × `sh` sprite whose top-left cell is at
/// (ax, ay).
pub open spec fn covers(sw: int, sh: int, ax: int, ay: int, x: int, y: int) -> bool {
    ax <= x < ax + sw && ay <= y < ay + sh
}

/// The row-major cell index of the sprite cell that lands on (x, y).
pub open spec fn cell_at(sw: int, ax: int, ay: int, x: int, y: int) -> int {
    (y - ay) * sw + (x - ax)
}

/// The pixels of a buffer `bw` pixels wide after a `sw` × `sh` sprite with
/// the given cells is drawn with its top-left cell at (ax, ay): each buffer
/// pixel the sprite covers takes the colour of the cell over it, every other
/// pixel keeps its colour. Cells that fall outside the buffer are dropped.
pub open spec fn blit_view(
    pixels: Seq<Rgba>,
    bw: int,
    cells: Seq<Rgba>,
    sw: int,
    sh: int,
    ax: int,
    ay: int,
) -> Seq<Rgba> {
    Seq::new(
        pixels.len(),
        |k: int|
            if covers(sw, sh, ax, ay, k % bw, k / bw) {
                cells[cell_at(sw, ax, ay, k % bw, k / bw)]
            } else {
                pixels[k]
            },
    )
}

/// As `blit_view`, with only the cells of index below `n` drawn.
spec fn blit_prefix(
    pixels: Seq<Rgba>,
    bw: int,
    cells: Seq<Rgba>,
    sw: int,
    sh: int,
    ax: int,
    ay: int,
    n: int,
) -> Seq<Rgba> {
    Seq::new(
        pixels.len(),
        |k: int|
            if covers(sw, sh, ax, ay, k % bw, k / bw) && cell_at(sw, ax, ay, k % bw, k / bw) < n {
                cells[cell_at(sw, ax, ay, k % bw, k / bw)]
            } else {
                pixels[k]
            },
    )
}

/// In a `w` × `h` grid, a linear index below `w * h` lies on a row below `h`.
pub(crate) proof fn lemma_row_below(k: int, w: int, h: int)
    requires
        0 <= k < w * h,
        0 < w,
    ensures
        0 <= k / w < h,
        0 <= k % w < w,
        k == (k / w) * w + k % w,
{
    lemma_fundamental_div_mod(k, w);
    assert(k == (k / w) * w + k % w) by (nonlinear_arith)
        requires
            k == w * (k / w) + (k % w),
    ;
    assert(0 <= k / w < h) by (nonlinear_arith)
        requires
            0 <= k < w * h,
            0 < w,
            k == (k / w) * w + k % w,
            0 <= k % w < w,
    ;
}

/// A cell offset inside a `w` × `h` rectangle has a row-major index below
/// `w * h`.
proof fn lemma_cell_below(row: int, col: int, w: int, h: int)
    requires
        0 <= row < h,
        0 <= col < w,
    ensures
        0 <= row * w + col < w * h,
{
    assert(0 <= row * w + col < w * h) by (nonlinear_arith)
        requires
            0 <= row < h,
            0 <= col < w,
    ;
}

/// Drawing cell `i` adds exactly one pixel write to a partial blit.
proof fn lemma_blit_step(
    pixels: Seq<Rgba>,
    bw: int,
    bh: int,
    cells: Seq<Rgba>,
    sw: int,
    sh: int,
    ax: int,
    ay: int,
    i: int,
)
    requires
        pixels.len() == bw * bh,
        0 <= bw,
        0 <= bh,
        cells.len() == sw * sh,
        0 < sw,
        0 <= i < sw * sh,
    ensures
        blit_prefix(pixels, bw, cells, sw, sh, ax, ay, i + 1) == with_pixel(
            blit_prefix(pixels, bw, cells, sw, sh, ax, ay, i),
            bw,
            bh,
            ax + i % sw,
            ay + i / sw,
            cells[i],
        ),
{
    let before = blit_prefix(pixels, bw, cells, sw, sh, ax, ay, i);
    let after = blit_prefix(pixels, bw, cells, sw, sh, ax, ay, i + 1);
    let (dx, dy) = (ax + i % sw, ay + i / sw);
    let written = with_pixel(before, bw, bh, dx, dy, cells[i]);
    lemma_row_below(i, sw, sh);
    if in_bounds(bw, bh, dx, dy) {
        lemma_cell_below(dy, dx, bw, bh);
    }
    assert forall|k: int| 0 <= k < pixels.len() implies #[trigger] after[k] == written[k] by {
        assert(0 < bw) by (nonlinear_arith)
            requires
                0 <= k < bw * bh,
                0 <= bw,
                0 <= bh,
        ;
        lemma_row_below(k, bw, bh);
        let (x, y) = (k % bw, k / bw);
        let c = cell_at(sw, ax, ay, x, y);
        if covers(sw, sh, ax, ay, x, y) && c == i {
            lemma_fundamental_div_mod_converse(c, sw, y - ay, x - ax);
            assert(x == dx && y == dy);
            assert(in_bounds(bw, bh, dx, dy));
            assert(k == pixel_index(bw, dx, dy));
        } else if in_bounds(bw, bh, dx, dy) && k == pixel_index(bw, dx, dy) {
            lemma_fundamental_div_mod_converse(k, bw, dy, dx);
            assert(x == dx && y == dy);
            assert(covers(sw, sh, ax, ay, x, y));
            assert(c == i);
        }
    }
    assert(after =~= written);
}

/// A sprite anchored out of the range of `i64` covers no pixel of a buffer
/// whose sides fit in `u32`.
pub(crate) proof fn lemma_blit_far_away(
    pixels: Seq<Rgba>,
    bw: int,
    bh: int,
    cells: Seq<Rgba>,
    sw: int,
    sh: int,
    ax: int,
    ay: int,
)
    requires
        pixels.len() == bw * bh,
        0 <= bw <= u32::MAX,
        0 <= bh <= u32::MAX,
        0 <= sw <= u32::MAX,
        0 <= sh <= u32::MAX,
        ax < i64::MIN || ax > i64::MAX || ay < i64::MIN || ay > i64::MAX,
    ensures
        blit_view(pixels, bw, cells, sw, sh, ax, ay) == pixels,
{
    let drawn = blit_view(pixels, bw, cells, sw, sh, ax, ay);
    assert forall|k: int| 0 <= k < pixels.len() implies #[trigger] drawn[k] == pixels[k] by {
        assert(0 < bw) by (nonlinear_arith)
            requires
                0 <= k < bw * bh,
                0 <= bw,
                0 <= bh,
        ;
        lemma_row_below(k, bw, bh);
    }
    assert(drawn =~= pixels);
}

/// A sprite of one colour drawn with its top-left cell at (0, 0) on a buffer
/// of one other colour: the pixels in its first `sw` columns and `sh` rows
/// take the sprite's colour, and every other pixel keeps the background.
pub proof fn lemma_uniform_blit_at_origin(
    bw: int,
    bh: int,
    sw: int,
    sh: int,
    fill: Rgba,
    background: Rgba,
)
    requires
        0 <= bw,
        0 <= bh,
        0 <= sw,
        0 <= sh,
    ensures
        forall|x: int, y: int|
            in_bounds(bw, bh, x, y) ==> #[trigger] pixel_at(
                blit_view(
                    filled((bw * bh) as nat, background),
                    bw,
                    filled((sw * sh) as nat, fill),
                    sw,
                    sh,
                    0,
                    0,
                ),
                bw,
                x,
                y,
            ) == if x < sw && y < sh {
                fill
            } else {
                background
            },
{
    let pixels = filled((bw * bh) as nat, background);
    let cells = filled((sw * sh) as nat, fill);
    let drawn = blit_view(pixels, bw, cells, sw, sh, 0, 0);
    assert forall|x: int, y: int| in_bounds(bw, bh, x, y) implies #[trigger] pixel_at(
        drawn,
        bw,
        x,
        y,
    ) == if x < sw && y < sh {
        fill
    } else {
        background
    } by {
        let k = pixel_index(bw, x, y);
        lemma_cell_below(y, x, bw, bh);
        lemma_fundamental_div_mod_converse(k, bw, y, x);
        if x < sw && y < sh {
            lemma_cell_below(y, x, sw, sh);
        }
    }
}

/// A rectangular block of RGBA cells, stored row-major: cell `i` sits at
/// column `i % width` and row `i / width`.
pub struct Sprite {
    width: u32,
    height: u32,
    data: Vec<Rgba>,
}

impl View for Sprite {
    type V = Seq<Rgba>;

    closed spec fn view(&self) -> Seq<Rgba> {
        self.data@
    }
}

impl Sprite {
    /// Width in cells.
    pub closed spec fn spec_width(&self) -> int {
        self.width as int
    }

    /// Height in cells.
    pub closed spec fn spec_height(&self) -> int {
        self.height as int
    }

    /// The sprite holds exactly `width * height` cells.
    pub open spec fn wf(&self) -> bool {
        &&& 0 <= self.spec_width() <= u32::MAX
        &&& 0 <= self.spec_height() <= u32::MAX
        &&& self@.len() == self.spec_width() * self.spec_height()
    }

    /// A sprite of the given size over the given row-major cells, or `None`
    /// when there are not exactly `width * height` of them.
    pub fn new(width: u32, height: u32, cells: Vec<Rgba>) -> (s: Option<Sprite>)
        ensures
            s is Some <==> cells@.len() == width * height,
            s is Some ==> s->0.wf() && s->0@ == cells@ && s->0.spec_width() == width
                && s->0.spec_height() == height,
    {
        assert((width as u64) * (height as u64) <= u64::MAX) by (nonlinear_arith)
            requires
                width <= u32::MAX,
                height <= u32::MAX,
        ;
        let area: u64 = (width as u64) * (height as u64);
        if (cells.len() as u64) == area {
            Some(Sprite { width, height, data: cells })
        } else {
            None
        }
    }

    /// A `width` × `height` sprite with every cell of colour `color`.
    pub fn filled(width: u32, height: u32, color: Rgba) -> (s: Sprite)
        requires
            width * height <= usize::MAX,
        ensures
            s.wf(),
            s.spec_width() == width,
            s.spec_height() == height,
            s@ == Seq::new((width * height) as nat, |_i: int| color),
    {
        let n: usize = (width as usize) * (height as usize);
        let mut data: Vec<Rgba> = Vec::new();
        while data.len() < n
            invariant
                data.len() <= n,
                forall|i: int| 0 <= i < data.len() ==> data@[i] == color,
            decreases n - data.len(),
        {
            data.push(color);
        }
        let s = Sprite { width, height, data };
        assert(s@ =~= Seq::new((width * height) as nat, |_i: int| color));
        s
    }

    /// Width in cells.
    pub fn width(&self) -> (w: u32)
        ensures
            w == self.spec_width(),
    {
        self.width
    }

    /// Height in cells.
    pub fn height(&self) -> (h: u32)
        ensures
            h == self.spec_height(),
    {
        self.height
    }

    /// The pixels of a buffer after this sprite is drawn on it with its
    /// top-left cell at (ax, ay).
    pub open spec fn drawn(&self, pixels: Seq<Rgba>, bw: int, ax: int, ay: int) -> Seq<Rgba> {
        blit_view(pixels, bw, self@, self.spec_width(), self.spec_height(), ax, ay)
    }

    /// Draws every cell onto `buf`, cell `i` at
    /// (`anchor_x + i % width`, `anchor_y + i / width`). Each cell goes
    /// through the buffer's bounds-checked setter, so cells past an edge of
    /// the buffer are dropped one by one and the rest are still drawn.
    pub fn draw(&self, buf: &mut PixelBuffer, anchor_x: i64, anchor_y: i64)
        requires
            self.wf(),
            old(buf).wf(),
        ensures
            final(buf).wf(),
            final(buf).spec_width() == old(buf).spec_width(),
            final(buf).spec_height() == old(buf).spec_height(),
            final(buf)@ == self.drawn(old(buf)@, old(buf).spec_width(), anchor_x as int, anchor_y as int),
    {
        let ghost bw = buf.spec_width();
        let ghost bh = buf.spec_height();
        let ghost sw = self.spec_width();
        let ghost sh = self.spec_height();
        let ghost ax = anchor_x as int;
        let ghost ay = anchor_y as int;
        let ghost start = buf@;
        let n = self.data.len();
        let w = self.width as usize;
        let mut i: usize = 0;
        while i < n
            invariant
                self.wf(),
                sw == self.spec_width(),
                sh == self.spec_height(),
                ax == anchor_x as int,
                ay == anchor_y as int,
                n == self@.len(),
                w == sw,
                i <= n,
                buf.wf(),
                buf.spec_width() == bw,
                buf.spec_height() == bh,
                buf@ == blit_prefix(start, bw, self@, sw, sh, ax, ay, i as int),
            decreases n - i,
        {
            assert(w > 0) by (nonlinear_arith)
                requires
                    i < n,
                    n == w * sh,
                    0 <= sh,
            ;
            let col = i % w;
            let row = i / w;
            let dx: i128 = anchor_x as i128 + col as i128;
            let dy: i128 = anchor_y as i128 + row as i128;
            proof {
                lemma_blit_step(start, bw, bh, self@, sw, sh, ax, ay, i as int);
            }
            if i64::MIN as i128 <= dx && dx <= i64::MAX as i128 && i64::MIN as i128 <= dy && dy
                <= i64::MAX as i128 {
                buf.set_pixel(dx as i64, dy as i64, self.data[i]);
            }
            i = i + 1;
        }
        proof {
            assert forall|k: int| 0 <= k < start.len() && covers(sw, sh, ax, ay, k % bw, k / bw)
                implies #[trigger] cell_at(sw, ax, ay, k % bw, k / bw) < n by {
                lemma_cell_below(k / bw - ay, k % bw - ax, sw, sh);
            }
            assert(buf@ =~= self.drawn(start, bw, ax, ay));
        }
    }
}

} // verus!
