//! The glyph layout engine.
//!
//! [`Statement::render_into`] rasterizes one statement's text (or a
//! placeholder) onto a fixed-width pixel [`Canvas`], walking the text
//! character by character with character-granular line wrapping, injecting a
//! synthetic `_` cursor glyph at the cursor position, and reporting the
//! vertical extent consumed so the caller can stack the next statement
//! beneath it. [`Note::draw`] renders a whole document this way.
//!
//! Glyphs are plain bitmaps with advance metrics, supplied by a [`Font`]
//! lookup table with a fallback glyph for characters the font lacks.

use vstd::prelude::*;
use vstd::string::StrSliceExecFns;

use crate::color::Rgba;
use crate::note::{CurV, Note, NoteV, Statement, StatementV, TextCursor, cur_view};

verus! {

/// Upper bound on every glyph dimension, offset magnitude and advance width,
/// so that position arithmetic stays within `i64`.
pub const GLYPH_DIM_MAX: usize = 4096;

/// Upper bound on the canvas width and height, chosen so that the cell
/// count fits a 32-bit `usize`.
pub const CANVAS_DIM_MAX: usize = 65_535;

/// Vertical gap added between two stacked statements.
pub const LINE_SPACING: i64 = 15;

/// Upper bound on a statement's text length accepted by the layout engine,
/// so that the vertical coordinate cannot overflow.
pub const TEXT_LEN_MAX: usize = 1_000_000;

/// Upper bound on the horizontal placement coordinate handed to the layout
/// engine.
pub const START_X_MAX: i64 = 1_000_000;

/// Upper bound on the vertical placement coordinate handed to the layout
/// engine.
pub const START_Y_MAX: i64 = 0x2000_0000_0000;

/// One rasterized character: a row-major `size_x` by `size_y` bitmap, a
/// placement offset relative to the pen position, and the horizontal advance
/// (device width) to apply after placing it.
#[derive(Debug)]
pub struct Glyph {
    pub size_x: usize,
    pub size_y: usize,
    pub off_x: i64,
    pub off_y: i64,
    pub dwidth: i64,
    pub pixels: Vec<bool>,
}

/// The mathematical model of a [`Glyph`].
#[verifier::ext_equal]
pub struct GlyphV {
    pub size_x: int,
    pub size_y: int,
    pub off_x: int,
    pub off_y: int,
    pub dwidth: int,
    pub pixels: Seq<bool>,
}

impl View for Glyph {
    type V = GlyphV;

    open spec fn view(&self) -> GlyphV {
        GlyphV {
            size_x: self.size_x as int,
            size_y: self.size_y as int,
            off_x: self.off_x as int,
            off_y: self.off_y as int,
            dwidth: self.dwidth as int,
            pixels: self.pixels@,
        }
    }
}

impl GlyphV {
    /// Well-formedness: the bitmap matches the dimensions and all metrics
    /// are small enough for overflow-free placement arithmetic.
    pub open spec fn wf(self) -> bool {
        &&& self.pixels.len() == self.size_x * self.size_y
        &&& 0 <= self.size_x <= GLYPH_DIM_MAX
        &&& 0 <= self.size_y <= GLYPH_DIM_MAX
        &&& -(GLYPH_DIM_MAX as int) <= self.off_x <= GLYPH_DIM_MAX
        &&& -(GLYPH_DIM_MAX as int) <= self.off_y <= GLYPH_DIM_MAX
        &&& 0 <= self.dwidth <= GLYPH_DIM_MAX
    }

    /// Whether this glyph, placed with its pen position at `(px, py)`, turns
    /// on the canvas cell `(cx, cy)`.
    pub open spec fn covers(self, px: int, py: int, cx: int, cy: int) -> bool {
        let gx = cx - (px + self.off_x);
        let gy = cy - (py + self.off_y);
        &&& 0 <= gx < self.size_x
        &&& 0 <= gy < self.size_y
        &&& self.pixels[gy * self.size_x + gx]
    }

    /// Like [`GlyphV::covers`], restricted to the first `k` bitmap entries
    /// in row-major order (the prefix a blit loop has already copied).
    pub open spec fn covers_prefix(self, px: int, py: int, cx: int, cy: int, k: int) -> bool {
        let gx = cx - (px + self.off_x);
        let gy = cy - (py + self.off_y);
        &&& 0 <= gx < self.size_x
        &&& 0 <= gy < self.size_y
        &&& gy * self.size_x + gx < k
        &&& self.pixels[gy * self.size_x + gx]
    }
}

/// A character-to-glyph table with a fallback glyph, looked up by linear
/// scan: the first entry for a character wins.
pub struct Font {
    pub glyphs: Vec<(char, Glyph)>,
    pub fallback: Glyph,
}

/// The mathematical model of a [`Font`].
pub struct FontV {
    pub glyphs: Seq<(char, GlyphV)>,
    pub fallback: GlyphV,
}

impl View for Font {
    type V = FontV;

    open spec fn view(&self) -> FontV {
        FontV {
            glyphs: self.glyphs@.map_values(|p: (char, Glyph)| (p.0, p.1@)),
            fallback: self.fallback@,
        }
    }
}

/// The first glyph registered for `c`, or the fallback.
pub open spec fn lookup_glyph(gs: Seq<(char, GlyphV)>, c: char, fb: GlyphV) -> GlyphV
    decreases gs.len(),
{
    if gs.len() == 0 {
        fb
    } else if gs[0].0 == c {
        gs[0].1
    } else {
        lookup_glyph(gs.drop_first(), c, fb)
    }
}

impl FontV {
    pub open spec fn glyph(self, c: char) -> GlyphV {
        lookup_glyph(self.glyphs, c, self.fallback)
    }

    /// Well-formedness: every glyph of the table and the fallback are
    /// well-formed.
    pub open spec fn wf(self) -> bool {
        &&& self.fallback.wf()
        &&& forall|i: int| 0 <= i < self.glyphs.len() ==> (#[trigger] self.glyphs[i]).1.wf()
    }
}

proof fn lemma_lookup_skip(gs: Seq<(char, GlyphV)>, c: char, fb: GlyphV, i: int)
    requires
        0 <= i < gs.len(),
        gs.skip(i)[0].0 != c,
    ensures
        lookup_glyph(gs.skip(i), c, fb) == lookup_glyph(gs.skip(i + 1), c, fb),
{
    assert(gs.skip(i).drop_first() =~= gs.skip(i + 1));
}

impl Font {
    /// Look up the glyph for `c`, falling back to the fallback glyph for a
    /// character the font lacks.
    pub fn glyph(&self, c: char) -> (g: &Glyph)
        requires
            self@.wf(),
        ensures
            g@ == self@.glyph(c),
            g@.wf(),
    {
        let n = self.glyphs.len();
        let mut i: usize = 0;
        proof {
            assert(self@.glyphs.skip(0) =~= self@.glyphs);
        }
        while i < n
            invariant
                n == self.glyphs.len(),
                i <= n,
                self@.wf(),
                self@.glyph(c) == lookup_glyph(self@.glyphs.skip(i as int), c, self@.fallback),
            decreases n - i,
        {
            if self.glyphs[i].0 == c {
                assert(self@.glyphs.skip(i as int)[0] == self@.glyphs[i as int]);
                return &self.glyphs[i].1;
            }
            proof {
                assert(self@.glyphs.skip(i as int)[0] == self@.glyphs[i as int]);
                lemma_lookup_skip(self@.glyphs, c, self@.fallback, i as int);
            }
            i += 1;
        }
        proof {
            assert(self@.glyphs.skip(n as int) =~= Seq::<(char, GlyphV)>::empty());
        }
        &self.fallback
    }
}

/// A fixed-size RGBA pixel grid, indexed row-major.
pub struct Canvas {
    pub width: usize,
    pub height: usize,
    pub data: Vec<Rgba>,
}

/// The mathematical model of a [`Canvas`].
#[verifier::ext_equal]
pub struct CanvasV {
    pub width: int,
    pub height: int,
    pub data: Seq<Rgba>,
}

impl View for Canvas {
    type V = CanvasV;

    open spec fn view(&self) -> CanvasV {
        CanvasV { width: self.width as int, height: self.height as int, data: self.data@ }
    }
}

/// A grid of `n` fully transparent pixels.
pub open spec fn blank_grid(n: nat) -> Seq<Rgba> {
    Seq::new(n, |i: int| crate::color::transparent())
}

impl CanvasV {
    pub open spec fn wf(self) -> bool {
        &&& 1 <= self.width <= CANVAS_DIM_MAX
        &&& 1 <= self.height <= CANVAS_DIM_MAX
        &&& self.data.len() == self.width * self.height
    }
}

impl Canvas {
    /// A fresh, fully transparent canvas.
    pub fn new(width: usize, height: usize) -> (c: Canvas)
        requires
            1 <= width <= CANVAS_DIM_MAX,
            1 <= height <= CANVAS_DIM_MAX,
        ensures
            c@.wf(),
            c@.width == width,
            c@.height == height,
            c@.data == blank_grid((width * height) as nat),
    {
        proof {
            assert((width as int) * (height as int) <= 4_294_836_225int) by (nonlinear_arith)
                requires
                    0 <= width as int <= 65_535,
                    0 <= height as int <= 65_535,
            ;
        }
        let n = width * height;
        let mut data: Vec<Rgba> = Vec::new();
        while data.len() < n
            invariant
                data.len() <= n,
                data@ =~= blank_grid(data.len() as nat),
            decreases n - data.len(),
        {
            data.push(Rgba::transparent());
        }
        proof {
            assert(data@ =~= blank_grid((width * height) as nat));
        }
        Canvas { width, height, data }
    }

    /// The pixel at canvas cell `(x, y)`.
    pub fn get_pixel(&self, x: usize, y: usize) -> (r: Rgba)
        requires
            self@.wf(),
            x < self@.width,
            y < self@.height,
        ensures
            r == self@.data[x + y * self@.width],
    {
        // Binding the length teaches the verifier that the cell count, and
        // with it the cell index, fits a usize.
        let len = self.data.len();
        proof {
            lemma_cell_in_range(self@.width, self@.height, x as int, y as int);
        }
        self.data[x + y * self.width]
    }
}

/// For a cell coordinate `(x, y)` inside a `w` by `h` grid, the row-major
/// index is inside the grid's data and decomposes back into `(x, y)`.
proof fn lemma_cell_in_range(w: int, h: int, x: int, y: int)
    requires
        0 < w,
        0 < h,
        0 <= x < w,
        0 <= y < h,
    ensures
        0 <= x + y * w < w * h,
        (x + y * w) % w == x,
        (x + y * w) / w == y,
{
    vstd::arithmetic::mul::lemma_mul_inequality(y, h - 1, w);
    assert(y * w == w * y) by (nonlinear_arith);
    assert((h - 1) * w == w * h - w) by (nonlinear_arith);
    vstd::arithmetic::div_mod::lemma_fundamental_div_mod_converse(x + y * w, w, y, x);
}

/// The grid after drawing glyph `g` with its pen position at `(px, py)` in
/// color `col`: every cell the glyph covers takes the color; every other
/// cell keeps its pixel. Cells outside the canvas are silently clipped.
pub open spec fn blit(grid: Seq<Rgba>, w: int, g: GlyphV, px: int, py: int, col: Rgba) -> Seq<Rgba> {
    Seq::new(grid.len(), |ci: int| if g.covers(px, py, ci % w, ci / w) { col } else { grid[ci] })
}

/// Copy the "on" pixels of `g` onto the canvas at pen position `(px, py)`,
/// clipping silently to the canvas bounds.
fn blit_glyph(canvas: &mut Canvas, g: &Glyph, px: i64, py: i64, col: Rgba)
    requires
        old(canvas)@.wf(),
        g@.wf(),
        -START_Y_MAX <= px <= 4 * START_Y_MAX,
        -START_Y_MAX <= py <= 4 * START_Y_MAX,
    ensures
        final(canvas)@.width == old(canvas)@.width,
        final(canvas)@.height == old(canvas)@.height,
        final(canvas)@.wf(),
        final(canvas)@.data == blit(old(canvas)@.data, old(canvas)@.width, g@, px as int, py as int, col),
{
    let sx = g.size_x;
    let sy = g.size_y;
    proof {
        vstd::arithmetic::mul::lemma_mul_inequality(sx as int, GLYPH_DIM_MAX as int, sy as int);
        vstd::arithmetic::mul::lemma_mul_inequality(sy as int, GLYPH_DIM_MAX as int, GLYPH_DIM_MAX as int);
    }
    let n = sx * sy;
    let w = canvas.width;
    let h = canvas.height;
    let ghost grid0 = canvas@.data;
    let mut i: usize = 0;
    while i < n
        invariant
            canvas@.wf(),
            canvas@.width == w,
            canvas@.height == h,
            n == sx * sy,
            sx == g.size_x,
            sy == g.size_y,
            g@.wf(),
            i <= n,
            -START_Y_MAX <= px <= 4 * START_Y_MAX,
            -START_Y_MAX <= py <= 4 * START_Y_MAX,
            canvas@.data.len() == grid0.len(),
            forall|ci: int|
                0 <= ci < grid0.len() ==> canvas@.data[ci] == (if g@.covers_prefix(
                    px as int,
                    py as int,
                    ci % (w as int),
                    ci / (w as int),
                    i as int,
                ) {
                    col
                } else {
                    grid0[ci]
                }),
        decreases n - i,
    {
        assert(sx > 0 && sy > 0) by {
            if sx == 0 || sy == 0 {
                assert(n == 0) by (nonlinear_arith)
                    requires
                        n == sx * sy,
                        sx == 0 || sy == 0,
                ;
            }
        }
        let gx = i % sx;
        let gy = i / sx;
        proof {
            vstd::arithmetic::div_mod::lemma_fundamental_div_mod(i as int, sx as int);
            assert(i as int == (gy as int) * (sx as int) + (gx as int)) by (nonlinear_arith)
                requires
                    i as int == (sx as int) * (i as int / sx as int) + (i as int % sx as int),
                    gx as int == i as int % sx as int,
                    gy as int == i as int / sx as int,
            ;
            assert(gy < sy) by {
                if gy >= sy {
                    vstd::arithmetic::mul::lemma_mul_inequality(sy as int, gy as int, sx as int);
                    assert((sy as int) * (sx as int) == (sx as int) * (sy as int))
                        by (nonlinear_arith);
                }
            }
        }
        if g.pixels[i] {
            let cx = px + g.off_x + gx as i64;
            let cy = py + g.off_y + gy as i64;
            if cx >= 0 && cy >= 0 && cx < w as i64 && cy < h as i64 {
                // Binding the length teaches the verifier that the cell
                // index fits a usize.
                let len = canvas.data.len();
                proof {
                    lemma_cell_in_range(w as int, h as int, cx as int, cy as int);
                }
                let ci = cx as usize + (cy as usize) * w;
                canvas.data.set(ci, col);
                proof {
                    lemma_blit_step(
                        grid0,
                        canvas@.data,
                        w as int,
                        h as int,
                        g@,
                        px as int,
                        py as int,
                        col,
                        i as int,
                        ci as int,
                    );
                }
            } else {
                proof {
                    lemma_blit_no_step(
                        grid0,
                        canvas@.data,
                        w as int,
                        h as int,
                        g@,
                        px as int,
                        py as int,
                        col,
                        i as int,
                    );
                }
            }
        } else {
            proof {
                lemma_blit_no_step(
                    grid0,
                    canvas@.data,
                    w as int,
                    h as int,
                    g@,
                    px as int,
                    py as int,
                    col,
                    i as int,
                );
            }
        }
        i += 1;
    }
    proof {
        let target = blit(grid0, w as int, g@, px as int, py as int, col);
        assert forall|ci: int| 0 <= ci < grid0.len() implies #[trigger] canvas@.data[ci]
            == target[ci] by {
            lemma_covers_full(g@, px as int, py as int, ci % (w as int), ci / (w as int), n as int);
        }
        assert(canvas@.data =~= target);
    }
}

/// With `k` the full bitmap length, the prefix-restricted cover test equals
/// the full one.
proof fn lemma_covers_full(g: GlyphV, px: int, py: int, cx: int, cy: int, k: int)
    requires
        g.wf(),
        k == g.size_x * g.size_y,
    ensures
        g.covers_prefix(px, py, cx, cy, k) == g.covers(px, py, cx, cy),
{
    let gx = cx - (px + g.off_x);
    let gy = cy - (py + g.off_y);
    if 0 <= gx < g.size_x && 0 <= gy < g.size_y {
        vstd::arithmetic::mul::lemma_mul_inequality(gy, g.size_y - 1, g.size_x);
        assert(gy * g.size_x + gx < g.size_x * g.size_y) by (nonlinear_arith)
            requires
                gy * g.size_x <= (g.size_y - 1) * g.size_x,
                gx < g.size_x,
        ;
    }
}

/// After the blit loop writes the cell for bitmap entry `i` (an "on" pixel
/// that lands on the canvas), the prefix property advances from `i` to
/// `i + 1`.
proof fn lemma_blit_step(
    grid0: Seq<Rgba>,
    data: Seq<Rgba>,
    w: int,
    h: int,
    g: GlyphV,
    px: int,
    py: int,
    col: Rgba,
    i: int,
    ci: int,
)
    requires
        g.wf(),
        0 < w,
        0 < h,
        grid0.len() == w * h,
        data.len() == w * h,
        0 <= i < g.size_x * g.size_y,
        g.pixels[i],
        ({
            let gx = i % g.size_x;
            let gy = i / g.size_x;
            let cx = px + g.off_x + gx;
            let cy = py + g.off_y + gy;
            &&& 0 <= cx < w
            &&& 0 <= cy < h
            &&& ci == cx + cy * w
        }),
        forall|cj: int|
            0 <= cj < grid0.len() && cj != ci ==> data[cj] == (if g.covers_prefix(
                px,
                py,
                cj % w,
                cj / w,
                i,
            ) {
                col
            } else {
                grid0[cj]
            }),
        data[ci] == col,
    ensures
        forall|cj: int|
            0 <= cj < grid0.len() ==> data[cj] == (if g.covers_prefix(
                px,
                py,
                cj % w,
                cj / w,
                i + 1,
            ) {
                col
            } else {
                grid0[cj]
            }),
{
    let sx = g.size_x;
    let gx = i % sx;
    let gy = i / sx;
    let cx = px + g.off_x + gx;
    let cy = py + g.off_y + gy;
    assert(sx > 0);
    vstd::arithmetic::div_mod::lemma_fundamental_div_mod(i, sx);
    assert(i == gy * sx + gx) by (nonlinear_arith)
        requires
            i == sx * (i / sx) + i % sx,
            gx == i % sx,
            gy == i / sx,
    ;
    assert(gy < g.size_y) by {
        if gy >= g.size_y {
            vstd::arithmetic::mul::lemma_mul_inequality(g.size_y, gy, sx);
            assert(g.size_y * sx == sx * g.size_y) by (nonlinear_arith);
        }
    }
    lemma_cell_in_range(w, h, cx, cy);
    assert forall|cj: int| 0 <= cj < grid0.len() implies data[cj] == (if g.covers_prefix(
        px,
        py,
        cj % w,
        cj / w,
        i + 1,
    ) {
        col
    } else {
        grid0[cj]
    }) by {
        let qx = cj % w;
        let qy = cj / w;
        vstd::arithmetic::div_mod::lemma_fundamental_div_mod(cj, w);
        assert(cj == qx + qy * w) by (nonlinear_arith)
            requires
                cj == w * (cj / w) + cj % w,
                qx == cj % w,
                qy == cj / w,
        ;
        if cj == ci {
            assert(qx == cx && qy == cy);
            let hx = qx - (px + g.off_x);
            let hy = qy - (py + g.off_y);
            assert(hx == gx && hy == gy);
            assert(g.covers_prefix(px, py, qx, qy, i + 1));
        } else {
            // The cell for bitmap entry `i` is exactly `ci`, so any other
            // cell's prefix cover is unchanged by extending the prefix.
            let hx = qx - (px + g.off_x);
            let hy = qy - (py + g.off_y);
            if 0 <= hx < g.size_x && 0 <= hy < g.size_y && hy * sx + hx == i {
                assert(hx == gx && hy == gy) by (nonlinear_arith)
                    requires
                        hy * sx + hx == gy * sx + gx,
                        0 <= hx < sx,
                        0 <= gx < sx,
                        hy >= 0,
                        gy >= 0,
                ;
                assert(qx == cx && qy == cy);
                assert(cj == ci);
            }
        }
    }
}

/// When the blit loop skips bitmap entry `i` (an "off" pixel, or one clipped
/// off the canvas), the prefix property advances from `i` to `i + 1` with no
/// write.
proof fn lemma_blit_no_step(
    grid0: Seq<Rgba>,
    data: Seq<Rgba>,
    w: int,
    h: int,
    g: GlyphV,
    px: int,
    py: int,
    col: Rgba,
    i: int,
)
    requires
        g.wf(),
        0 < w,
        0 < h,
        grid0.len() == w * h,
        data.len() == w * h,
        0 <= i < g.size_x * g.size_y,
        !(g.pixels[i] && ({
            let gx = i % g.size_x;
            let gy = i / g.size_x;
            let cx = px + g.off_x + gx;
            let cy = py + g.off_y + gy;
            0 <= cx < w && 0 <= cy < h
        })),
        forall|cj: int|
            0 <= cj < grid0.len() ==> data[cj] == (if g.covers_prefix(
                px,
                py,
                cj % w,
                cj / w,
                i,
            ) {
                col
            } else {
                grid0[cj]
            }),
    ensures
        forall|cj: int|
            0 <= cj < grid0.len() ==> data[cj] == (if g.covers_prefix(
                px,
                py,
                cj % w,
                cj / w,
                i + 1,
            ) {
                col
            } else {
                grid0[cj]
            }),
{
    let sx = g.size_x;
    let gx = i % sx;
    let gy = i / sx;
    assert(sx > 0);
    vstd::arithmetic::div_mod::lemma_fundamental_div_mod(i, sx);
    assert(i == gy * sx + gx) by (nonlinear_arith)
        requires
            i == sx * (i / sx) + i % sx,
            gx == i % sx,
            gy == i / sx,
    ;
    assert(gy < g.size_y) by {
        if gy >= g.size_y {
            vstd::arithmetic::mul::lemma_mul_inequality(g.size_y, gy, sx);
            assert(g.size_y * sx == sx * g.size_y) by (nonlinear_arith);
        }
    }
    assert forall|cj: int| 0 <= cj < grid0.len() implies data[cj] == (if g.covers_prefix(
        px,
        py,
        cj % w,
        cj / w,
        i + 1,
    ) {
        col
    } else {
        grid0[cj]
    }) by {
        let qx = cj % w;
        let qy = cj / w;
        let hx = qx - (px + g.off_x);
        let hy = qy - (py + g.off_y);
        // The skipped entry cannot newly cover any cell: either its pixel
        // is off, or its cell lies outside the canvas while `(qx, qy)` lies
        // inside.
        if g.covers_prefix(px, py, qx, qy, i + 1) && !g.covers_prefix(px, py, qx, qy, i) {
            assert(hy * sx + hx == i);
            assert(hx == gx && hy == gy) by (nonlinear_arith)
                requires
                    hy * sx + hx == gy * sx + gx,
                    0 <= hx < sx,
                    0 <= gx < sx,
                    hy >= 0,
                    gy >= 0,
            ;
            assert(0 <= qx < w);
            assert(0 <= qy < h) by {
                vstd::arithmetic::div_mod::lemma_fundamental_div_mod(cj, w);
                assert(qy < h) by (nonlinear_arith)
                    requires
                        cj == w * qy + qx,
                        cj < w * h,
                        0 <= qx < w,
                        qy == cj / w,
                        qy >= 0,
                        w > 0,
                ;
            }
            assert(g.pixels[i]);
            assert(false);
        }
    }
}

/// The running state of the layout walk: the canvas contents and the pen
/// position for the next glyph.
#[verifier::ext_equal]
pub struct LayoutState {
    pub grid: Seq<Rgba>,
    pub x: int,
    pub y: int,
}

/// Whether placing glyph `g` at pen column `x` would exceed the canvas's
/// horizontal budget `w`, so the pen must wrap to a new line first. A pen
/// already at column 0 never wraps: the glyph is placed (and clipped) there,
/// which keeps the walk terminating even for a glyph wider than the canvas.
pub open spec fn wrap_needed(x: int, g: GlyphV, w: int) -> bool {
    x > 0 && x + g.off_x + g.size_x >= w
}

/// The pen position after the wrap check for glyph `g`: carriage return and
/// a line feed of the glyph's pixel height, or unchanged.
pub open spec fn wrap_pos(x: int, y: int, g: GlyphV, w: int) -> (int, int) {
    if wrap_needed(x, g, w) {
        (0, y + g.size_y)
    } else {
        (x, y)
    }
}

/// Place one glyph: wrap if needed, draw the bitmap at the pen position,
/// and advance the pen by the glyph's device width (unless the placement is
/// an overstrike, as for a character the cursor glyph will overstrike).
pub open spec fn place_glyph_spec(
    s: LayoutState,
    g: GlyphV,
    w: int,
    col: Rgba,
    advance: bool,
) -> LayoutState {
    let (x1, y1) = wrap_pos(s.x, s.y, g, w);
    LayoutState {
        grid: blit(s.grid, w, g, x1, y1, col),
        x: x1 + (if advance {
            g.dwidth
        } else {
            0int
        }),
        y: y1,
    }
}

/// One step of the layout walk: place the character `c`. When the cursor
/// sits on this character (`is_cursor`), wrap early if even a space glyph
/// would not fit, place the character without advancing, then place the `_`
/// cursor glyph over it and advance by the cursor glyph's device width;
/// otherwise place the character and advance.
pub open spec fn step_char(
    s: LayoutState,
    c: char,
    is_cursor: bool,
    font: FontV,
    w: int,
    col: Rgba,
) -> LayoutState {
    if is_cursor {
        let gsp = font.glyph(' ');
        let (x1, y1) = wrap_pos(s.x, s.y, gsp, w);
        let s1 = LayoutState { grid: s.grid, x: x1, y: y1 };
        let s2 = place_glyph_spec(s1, font.glyph(c), w, col, false);
        place_glyph_spec(s2, font.glyph('_'), w, col, true)
    } else {
        place_glyph_spec(s, font.glyph(c), w, col, true)
    }
}

/// The layout walk over the first `upto` characters of the text: each
/// character is placed in order, the one the cursor sits on together with
/// the `_` cursor glyph.
pub open spec fn run_text(
    s: LayoutState,
    text: Seq<char>,
    tc: CurV,
    upto: int,
    font: FontV,
    w: int,
    col: Rgba,
) -> LayoutState
    decreases upto,
{
    if upto <= 0 {
        s
    } else {
        let prev = run_text(s, text, tc, upto - 1, font, w, col);
        step_char(prev, text[upto - 1], tc == CurV::In(upto - 1), font, w, col)
    }
}

/// The layout walk over the whole text, with the trailing `_` cursor glyph
/// when the cursor is at the append position.
pub open spec fn run_full(
    s: LayoutState,
    text: Seq<char>,
    tc: CurV,
    font: FontV,
    w: int,
    col: Rgba,
) -> LayoutState {
    let r = run_text(s, text, tc, text.len() as int, font, w, col);
    if tc == CurV::End {
        place_glyph_spec(r, font.glyph('_'), w, col, true)
    } else {
        r
    }
}

/// The pixel height of the glyph the walk places last; the walk feeds a
/// line of this height after its final placement. Zero when nothing is
/// placed.
pub open spec fn last_height(text: Seq<char>, tc: CurV, font: FontV) -> int {
    if tc == CurV::End {
        font.glyph('_').size_y
    } else if text.len() == 0 {
        0
    } else if tc == CurV::In(text.len() - 1) {
        font.glyph('_').size_y
    } else {
        font.glyph(text.last()).size_y
    }
}

/// The placeholder shown when the whole document is one empty, unfocused
/// statement.
pub open spec fn demo_text() -> Seq<char> {
    "Write something here..............AAAAAAAAAAAAAAAAAAAAAA"@
}

/// The text a statement is rendered as: the statement's own text, or, when
/// it is empty, the dimmed placeholder (no cursor anywhere) or a single
/// space (so a cursor-bearing blank line still reserves height).
pub open spec fn effective_text(text: Seq<char>, tc: CurV) -> Seq<char> {
    if text.len() == 0 && tc == CurV::Hidden {
        demo_text()
    } else if text.len() == 0 {
        seq![' ']
    } else {
        text
    }
}

/// The color a statement is rendered in: dimmed for the placeholder,
/// ordinary white otherwise.
pub open spec fn effective_col(text: Seq<char>, tc: CurV) -> Rgba {
    if text.len() == 0 && tc == CurV::Hidden {
        crate::color::dimmed()
    } else {
        crate::color::white()
    }
}

/// The full rendering of one statement: the canvas after walking the
/// effective text's events from pen position `(x0, y0)`, and the vertical
/// coordinate for the next statement (a fresh line of the last glyph's
/// height plus the line-spacing gap).
pub open spec fn render_spec(
    text: Seq<char>,
    tc: CurV,
    font: FontV,
    w: int,
    grid: Seq<Rgba>,
    x0: int,
    y0: int,
) -> (Seq<Rgba>, int) {
    let rt = effective_text(text, tc);
    let col = effective_col(text, tc);
    let sf = run_full(LayoutState { grid, x: x0, y: y0 }, rt, tc, font, w, col);
    (sf.grid, sf.y + last_height(rt, tc, font) + LINE_SPACING)
}

/// A pen position on the virtual text canvas.
#[derive(Clone, Copy, PartialEq, Eq, Structural, Debug)]
pub struct Coord {
    pub x: i64,
    pub y: i64,
}

impl Coord {
    pub fn new(x: i64, y: i64) -> (c: Coord)
        ensures
            c.x == x,
            c.y == y,
    {
        Coord { x, y }
    }
}

/// Build the placeholder text as a character vector.
fn demo_chars() -> (v: Vec<char>)
    ensures
        v@ == demo_text(),
        v@.len() == 56,
{
    let s = "Write something here..............AAAAAAAAAAAAAAAAAAAAAA";
    proof {
        reveal_strlit("Write something here..............AAAAAAAAAAAAAAAAAAAAAA");
    }
    let n = s.unicode_len();
    let mut v: Vec<char> = Vec::new();
    proof {
        assert(v@ =~= s@.subrange(0, 0));
    }
    while v.len() < n
        invariant
            n == s@.len(),
            v.len() <= n,
            v@ == s@.subrange(0, v.len() as int),
        decreases n - v.len(),
    {
        let i = v.len();
        v.push(s.get_char(i));
        proof {
            assert(v@ =~= s@.subrange(0, v.len() as int));
        }
    }
    proof {
        assert(v@ =~= s@);
    }
    v
}

/// Apply the wrap check for glyph `g` to the pen position.
fn wrap_if_needed(canvas: &Canvas, x: &mut i64, y: &mut i64, g: &Glyph)
    requires
        canvas@.wf(),
        g@.wf(),
        0 <= *old(x) <= 2_000_000,
        0 <= *old(y) <= 3 * START_Y_MAX,
    ensures
        (*final(x) as int, *final(y) as int) == wrap_pos(
            *old(x) as int,
            *old(y) as int,
            g@,
            canvas@.width,
        ),
        0 <= *final(x) <= *old(x),
        *old(y) <= *final(y) <= *old(y) + GLYPH_DIM_MAX,
{
    if *x > 0 && *x + g.off_x + (g.size_x as i64) >= canvas.width as i64 {
        *x = 0;
        *y = *y + g.size_y as i64;
    }
}

/// Place one glyph at the pen position, per [`place_glyph_spec`].
fn place_glyph(canvas: &mut Canvas, x: &mut i64, y: &mut i64, g: &Glyph, col: Rgba, advance: bool)
    requires
        old(canvas)@.wf(),
        g@.wf(),
        0 <= *old(x) <= 2_000_000,
        0 <= *old(y) <= 3 * START_Y_MAX,
    ensures
        final(canvas)@.width == old(canvas)@.width,
        final(canvas)@.height == old(canvas)@.height,
        final(canvas)@.wf(),
        ({
            let sf = place_glyph_spec(
                LayoutState {
                    grid: old(canvas)@.data,
                    x: *old(x) as int,
                    y: *old(y) as int,
                },
                g@,
                old(canvas)@.width,
                col,
                advance,
            );
            &&& final(canvas)@.data == sf.grid
            &&& *final(x) as int == sf.x
            &&& *final(y) as int == sf.y
        }),
        0 <= *final(x) <= old(canvas)@.width + 2 * GLYPH_DIM_MAX,
        *old(y) <= *final(y) <= *old(y) + GLYPH_DIM_MAX,
{
    if *x > 0 && *x + g.off_x + (g.size_x as i64) >= canvas.width as i64 {
        *x = 0;
        *y = *y + g.size_y as i64;
    }
    blit_glyph(canvas, g, *x, *y, col);
    if advance {
        *x = *x + g.dwidth;
    }
}

impl Statement {
    /// Rasterize this statement onto the canvas, starting at the pen
    /// position in `cursor`, per [`render_spec`]: wrap character by
    /// character at the canvas width, inject the `_` cursor glyph at the
    /// cursor position, substitute the placeholder or a single space for an
    /// empty statement, and leave in `cursor` the vertical coordinate where
    /// the next statement starts. Also records the rendered color in
    /// `self.col`.
    pub fn render_into(
        &mut self,
        canvas: &mut Canvas,
        cursor: &mut Coord,
        text_cursor: TextCursor,
        font: &Font,
    )
        requires
            old(canvas)@.wf(),
            font@.wf(),
            0 <= old(cursor).x <= START_X_MAX,
            0 <= old(cursor).y <= START_Y_MAX,
            old(self)@.text.len() <= TEXT_LEN_MAX,
        ensures
            final(canvas)@.width == old(canvas)@.width,
            final(canvas)@.height == old(canvas)@.height,
            final(canvas)@.wf(),
            final(self)@.text == old(self)@.text,
            final(self)@.col == effective_col(old(self)@.text, cur_view(text_cursor)),
            ({
                let (grid2, y2) = render_spec(
                    old(self)@.text,
                    cur_view(text_cursor),
                    font@,
                    old(canvas)@.width,
                    old(canvas)@.data,
                    old(cursor).x as int,
                    old(cursor).y as int,
                );
                &&& final(canvas)@.data == grid2
                &&& final(cursor).y as int == y2
                &&& final(cursor).x == old(cursor).x
            }),
            old(cursor).y < final(cursor).y,
            final(cursor).y as int <= old(cursor).y as int + 12288 * (old(self)@.text.len() as int)
                + 800_000,
    {
        let ghost tcv = cur_view(text_cursor);
        let is_empty = self.text.len() == 0;
        let is_hidden = match text_cursor {
            TextCursor::Hidden => true,
            _ => false,
        };
        let col = if is_empty && is_hidden {
            Rgba::dimmed()
        } else {
            Rgba::white()
        };
        self.col = col;
        assert(col == effective_col(old(self)@.text, tcv));

        let mut substituted: Vec<char> = Vec::new();
        if is_empty {
            if is_hidden {
                substituted = demo_chars();
            } else {
                substituted.push(' ');
            }
        }
        let rt: &Vec<char> = if is_empty {
            &substituted
        } else {
            &self.text
        };
        assert(rt@ == effective_text(old(self)@.text, tcv)) by {
            if is_empty && !is_hidden {
                assert(rt@ =~= seq![' ']);
            }
        }

        let ghost rtv = rt@;
        let ghost w = canvas@.width;
        let ghost h0 = canvas@.height;
        let ghost x0 = cursor.x as int;
        let ghost y0 = cursor.y as int;
        let ghost s0 = LayoutState { grid: canvas@.data, x: x0, y: y0 };
        let mut lx: i64 = cursor.x;
        let mut ly: i64 = cursor.y;
        let mut last_h: i64 = 0;
        let n = rt.len();
        let mut i: usize = 0;
        while i < n
            invariant
                i <= n,
                n == rt.len(),
                n <= TEXT_LEN_MAX,
                rtv == rt@,
                tcv == cur_view(text_cursor),
                font@.wf(),
                canvas@.wf(),
                canvas@.width == w,
                canvas@.height == h0,
                (LayoutState { grid: canvas@.data, x: lx as int, y: ly as int }) == run_text(
                    s0,
                    rtv,
                    tcv,
                    i as int,
                    font@,
                    w,
                    col,
                ),
                0 <= lx <= 2_000_000,
                y0 <= ly as int <= y0 + 12288 * (i as int),
                0 <= y0 <= START_Y_MAX,
                i > 0 && !(tcv == CurV::In(i as int - 1)) ==> last_h as int == font@.glyph(
                    rtv[i as int - 1],
                ).size_y,
                i > 0 && tcv == CurV::In(i as int - 1) ==> last_h as int == font@.glyph(
                    '_',
                ).size_y,
                i == 0 ==> last_h == 0,
                0 <= last_h <= GLYPH_DIM_MAX,
            decreases n - i,
        {
            let c = rt[i];
            let ghost s_pre = LayoutState { grid: canvas@.data, x: lx as int, y: ly as int };
            let is_cursor = match text_cursor {
                TextCursor::InText(k) => k == i,
                _ => false,
            };
            assert(is_cursor == (tcv == CurV::In(i as int)));
            if is_cursor {
                let gsp = font.glyph(' ');
                wrap_if_needed(canvas, &mut lx, &mut ly, gsp);
                let gc = font.glyph(c);
                place_glyph(canvas, &mut lx, &mut ly, gc, col, false);
                let gu = font.glyph('_');
                place_glyph(canvas, &mut lx, &mut ly, gu, col, true);
                last_h = gu.size_y as i64;
            } else {
                let gc = font.glyph(c);
                place_glyph(canvas, &mut lx, &mut ly, gc, col, true);
                last_h = gc.size_y as i64;
            }
            proof {
                assert((LayoutState { grid: canvas@.data, x: lx as int, y: ly as int })
                    == step_char(s_pre, rtv[i as int], is_cursor, font@, w, col));
            }
            i += 1;
        }
        let at_end = match text_cursor {
            TextCursor::End => true,
            _ => false,
        };
        if at_end {
            let ghost s_pre = LayoutState { grid: canvas@.data, x: lx as int, y: ly as int };
            let gu = font.glyph('_');
            place_glyph(canvas, &mut lx, &mut ly, gu, col, true);
            last_h = gu.size_y as i64;
        }
        proof {
            assert((LayoutState { grid: canvas@.data, x: lx as int, y: ly as int }) == run_full(
                s0,
                rtv,
                tcv,
                font@,
                w,
                col,
            ));
            assert(last_h as int == last_height(rtv, tcv, font@));
        }
        cursor.y = ly + last_h + LINE_SPACING;
    }
}


/// The combined text length of the first `k` statements.
pub open spec fn total_text_len(stmts: Seq<StatementV>, k: int) -> int
    decreases k,
{
    if k <= 0 {
        0
    } else {
        total_text_len(stmts, k - 1) + stmts[k - 1].text.len()
    }
}

pub proof fn lemma_total_text_len_nonneg(stmts: Seq<StatementV>, k: int)
    ensures
        total_text_len(stmts, k) >= 0,
    decreases k,
{
    if k > 0 {
        lemma_total_text_len_nonneg(stmts, k - 1);
    }
}

pub proof fn lemma_total_text_len_monotone(stmts: Seq<StatementV>, k1: int, k2: int)
    requires
        0 <= k1 <= k2,
    ensures
        total_text_len(stmts, k1) <= total_text_len(stmts, k2),
    decreases k2,
{
    if k2 > k1 {
        lemma_total_text_len_monotone(stmts, k1, k2 - 1);
    }
}

/// The cursor position the statement at index `i` is rendered under: the
/// document's cursor on the focused statement, no cursor elsewhere.
pub open spec fn stmt_cursor(n: NoteV, i: int) -> CurV {
    if i == n.idx {
        n.cur
    } else {
        CurV::Hidden
    }
}

/// The canvas contents and next vertical coordinate after rendering the
/// first `k` statements of the document onto a fresh transparent `w` by `h`
/// canvas, stacking them from pen position `(0, 1)` downward.
pub open spec fn draw_upto(n: NoteV, font: FontV, w: int, h: int, k: int) -> (Seq<Rgba>, int)
    decreases k,
{
    if k <= 0 {
        (blank_grid((w * h) as nat), 1)
    } else {
        let (grid, y) = draw_upto(n, font, w, h, k - 1);
        render_spec(n.statements[k - 1].text, stmt_cursor(n, k - 1), font, w, grid, 0, y)
    }
}

/// The full text layer of a document: every statement rendered in order.
pub open spec fn spec_draw(n: NoteV, font: FontV, w: int, h: int) -> Seq<Rgba> {
    draw_upto(n, font, w, h, n.statements.len() as int).0
}

impl Note {
    /// Render the document's text layer: a fresh transparent canvas with
    /// every statement rasterized in order from the top, the focused one
    /// with the cursor glyph. Records in each statement the color it was
    /// rendered in.
    pub fn draw(&mut self, width: usize, height: usize, font: &Font) -> (canvas: Canvas)
        requires
            old(self)@.wf(),
            font@.wf(),
            1 <= width <= CANVAS_DIM_MAX,
            1 <= height <= CANVAS_DIM_MAX,
            old(self)@.statements.len() <= 1000,
            total_text_len(old(self)@.statements, old(self)@.statements.len() as int)
                <= TEXT_LEN_MAX,
        ensures
            canvas@.wf(),
            canvas@.width == width,
            canvas@.height == height,
            canvas@.data == spec_draw(old(self)@, font@, width as int, height as int),
            final(self)@.statements.len() == old(self)@.statements.len(),
            forall|i: int|
                0 <= i < old(self)@.statements.len() ==> {
                    &&& (#[trigger] final(self)@.statements[i]).text == old(
                        self,
                    )@.statements[i].text
                    &&& final(self)@.statements[i].col == effective_col(
                        old(self)@.statements[i].text,
                        stmt_cursor(old(self)@, i),
                    )
                },
            final(self).text_cursor == old(self).text_cursor,
            final(self)@.wf(),
    {
        let ghost nv0 = old(self)@;
        let tc0 = self.text_cursor;
        let mut canvas = Canvas::new(width, height);
        let mut pos = Coord::new(0, 1);
        let ghost w = width as int;
        let ghost h = height as int;
        let n_st = self.statements.len();
        let mut i: usize = 0;
        while i < n_st
            invariant
                i <= n_st,
                self.statements.len() == n_st,
                n_st == nv0.statements.len(),
                n_st <= 1000,
                nv0.wf(),
                total_text_len(nv0.statements, n_st as int) <= TEXT_LEN_MAX,
                font@.wf(),
                canvas@.wf(),
                canvas@.width == w,
                canvas@.height == h,
                self.text_cursor == tc0,
                nv0.idx == tc0.0 as int,
                nv0.cur == cur_view(tc0.1),
                forall|j: int|
                    i <= j < n_st ==> (#[trigger] self@.statements[j]) == nv0.statements[j],
                forall|j: int|
                    0 <= j < i ==> {
                        &&& (#[trigger] self@.statements[j]).text == nv0.statements[j].text
                        &&& self@.statements[j].col == effective_col(
                            nv0.statements[j].text,
                            stmt_cursor(nv0, j),
                        )
                    },
                (canvas@.data, pos.y as int) == draw_upto(nv0, font@, w, h, i as int),
                pos.x == 0,
                1 <= pos.y,
                pos.y as int <= 1 + 12288 * total_text_len(nv0.statements, i as int) + 800_000 * (
                i as int),
            decreases n_st - i,
        {
            let tc = if i == self.text_cursor.0 {
                self.text_cursor.1
            } else {
                TextCursor::Hidden
            };
            proof {
                assert(cur_view(tc) == stmt_cursor(nv0, i as int));
                lemma_total_text_len_nonneg(nv0.statements, i as int);
                lemma_total_text_len_monotone(nv0.statements, i as int + 1, n_st as int);
                assert(total_text_len(nv0.statements, i as int + 1) == total_text_len(
                    nv0.statements,
                    i as int,
                ) + nv0.statements[i as int].text.len());
                assert(self@.statements[i as int] == nv0.statements[i as int]);
            }
            let ghost pre_stmts = self.statements@;
            let mut st = self.statements.remove(i);
            st.render_into(&mut canvas, &mut pos, tc, font);
            self.statements.insert(i, st);
            proof {
                assert(self.statements@ =~= pre_stmts.update(i as int, st));
                assert forall|j: int| 0 <= j < n_st && j != i as int implies (
                #[trigger] self@.statements[j]) == pre_stmts.map_values(|s: Statement| s@)[j] by {
                    assert(self.statements@[j] == pre_stmts[j]);
                }
            }
            i += 1;
        }
        proof {
            assert(self@.statements.len() == nv0.statements.len());
        }
        canvas
    }
}

/// Map a screen pixel coordinate to the text-canvas pixel under it, given
/// the canvas's screen offset and integer scale: the pixel, or nothing when
/// the coordinate lies outside the scaled canvas.
pub open spec fn spec_sample_screen(
    c: CanvasV,
    x: int,
    y: int,
    off_x: int,
    off_y: int,
    scale: int,
) -> Option<Rgba> {
    if x < off_x || y < off_y {
        Option::None
    } else {
        let tx = (x - off_x) / scale;
        let ty = (y - off_y) / scale;
        if tx < c.width && ty < c.height {
            Option::Some(c.data[tx + ty * c.width])
        } else {
            Option::None
        }
    }
}

impl Canvas {
    /// The canvas pixel under a screen coordinate, per
    /// [`spec_sample_screen`].
    pub fn sample_screen(&self, x: usize, y: usize, off_x: usize, off_y: usize, scale: usize) -> (r:
        Option<Rgba>)
        requires
            self@.wf(),
            scale >= 1,
        ensures
            r == spec_sample_screen(
                self@,
                x as int,
                y as int,
                off_x as int,
                off_y as int,
                scale as int,
            ),
    {
        if x < off_x || y < off_y {
            return Option::None;
        }
        let tx = (x - off_x) / scale;
        let ty = (y - off_y) / scale;
        if tx < self.width && ty < self.height {
            // Binding the length teaches the verifier that the cell index
            // fits a usize.
            let len = self.data.len();
            proof {
                lemma_cell_in_range(self@.width, self@.height, tx as int, ty as int);
            }
            Option::Some(self.data[tx + ty * self.width])
        } else {
            Option::None
        }
    }
}

} // verus!

