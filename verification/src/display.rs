//! Framebuffer compositor: a fixed-size monochrome pixel grid, stored
//! row-major, with a whole-grid clear and the XOR sprite blit.
//!
//! The blit draws sprite bytes most-significant-bit first, clips at the
//! right and bottom edges (pixels past an edge are discarded, never
//! wrapped), and reports a collision exactly when some cell that was on
//! is turned off, accumulated over the whole draw. Rendering to a real
//! surface is left to the embedder: `draw` hands back the cell commands
//! for the affected rectangle.

use vstd::arithmetic::div_mod::{lemma_fundamental_div_mod, lemma_fundamental_div_mod_converse};
use vstd::pervasive::VecAdditionalExecFns;
use vstd::prelude::*;

verus! {

/// The mathematical content of a `MonochromeDisplay`: the pixel grid as a
/// row-major boolean sequence, its dimensions, and the window title.
pub ghost struct DisplayView {
    pub img: Seq<bool>,
    pub width: int,
    pub height: int,
    pub title: Seq<char>,
}

/// The monochrome pixel grid.
pub struct MonochromeDisplay {
    width: u16,
    height: u16,
    title: String,
    img: Vec<bool>,
}

impl View for MonochromeDisplay {
    type V = DisplayView;

    closed spec fn view(&self) -> DisplayView {
        DisplayView {
            img: self.img@,
            width: self.width as int,
            height: self.height as int,
            title: self.title@,
        }
    }
}

/// Bit `c` of a sprite byte, most significant bit first: bit 0 is the
/// leftmost pixel of the row.
pub open spec fn sprite_bit(b: u8, c: int) -> bool {
    b & (0x80u8 >> (c as u8)) != 0
}

/// How many of the up-to-`want` pixels starting at the anchor fit before
/// the edge `avail` pixels away: clipping, never wrapping.
pub open spec fn spec_clip(avail: int, want: int) -> int {
    if avail <= 0 {
        0
    } else if want < avail {
        want
    } else {
        avail
    }
}

/// Whether linear grid cell `i` lies inside the blit rectangle anchored
/// at column `x`, row `y`, of width `ew` and height `eh`, on a grid of
/// row length `w`.
pub open spec fn in_blit_rect(w: int, x: int, y: int, ew: int, eh: int, i: int) -> bool {
    &&& y <= i / w < y + eh
    &&& x <= i % w < x + ew
}

/// The grid after XOR-drawing `eh` rows of the sprite, `ew` pixels each,
/// anchored at column `x`, row `y`: cells in the rectangle are XORed with
/// the matching sprite bit, all other cells are untouched.
pub open spec fn spec_blit(
    img: Seq<bool>,
    w: int,
    sprite: Seq<u8>,
    x: int,
    y: int,
    ew: int,
    eh: int,
) -> Seq<bool> {
    Seq::new(
        img.len(),
        |i: int|
            if in_blit_rect(w, x, y, ew, eh, i) {
                img[i] ^ sprite_bit(sprite[i / w - y], i % w - x)
            } else {
                img[i]
            },
    )
}

/// Whether the draw turns any already-on cell off: some cell of the blit
/// rectangle is on in `img` while the matching sprite bit is set.
pub open spec fn spec_collision(
    img: Seq<bool>,
    w: int,
    sprite: Seq<u8>,
    x: int,
    y: int,
    ew: int,
    eh: int,
) -> bool {
    exists|r: int, c: int|
        0 <= r < eh && 0 <= c < ew && img[(y + r) * w + (x + c)] && #[trigger] sprite_bit(
            sprite[r],
            c,
        )
}

/// The collision test restricted to the cells already processed by a
/// row-major walk: all rows before `rr`, and the first `cc` cells of row
/// `rr`.
spec fn spec_collision_upto(
    img: Seq<bool>,
    w: int,
    sprite: Seq<u8>,
    x: int,
    y: int,
    ew: int,
    rr: int,
    cc: int,
) -> bool {
    exists|r: int, c: int|
        0 <= c < ew && 0 <= r && (r < rr || (r == rr && c < cc)) && img[(y + r) * w + (x + c)]
            && #[trigger] sprite_bit(sprite[r], c)
}

/// A linear index built from a row and a column recovers them by
/// division and remainder.
proof fn lemma_rowcol(w: int, row: int, col: int)
    requires
        w > 0,
        0 <= row,
        0 <= col < w,
    ensures
        (row * w + col) / w == row,
        (row * w + col) % w == col,
{
    lemma_fundamental_div_mod_converse(row * w + col, w, row, col);
}

/// Processing one more cell extends the accumulated collision test by
/// exactly that cell's contribution.
proof fn lemma_collision_upto_step(
    img: Seq<bool>,
    w: int,
    sprite: Seq<u8>,
    x: int,
    y: int,
    ew: int,
    rr: int,
    cc: int,
)
    requires
        0 <= cc < ew,
        0 <= rr,
    ensures
        spec_collision_upto(img, w, sprite, x, y, ew, rr, cc + 1) == (spec_collision_upto(
            img,
            w,
            sprite,
            x,
            y,
            ew,
            rr,
            cc,
        ) || (img[(y + rr) * w + (x + cc)] && sprite_bit(sprite[rr], cc))),
{
    if spec_collision_upto(img, w, sprite, x, y, ew, rr, cc + 1) {
        let (r, c) = choose|r: int, c: int|
            0 <= c < ew && 0 <= r && (r < rr || (r == rr && c < cc + 1)) && img[(y + r) * w + (x
                + c)] && #[trigger] sprite_bit(sprite[r], c);
        if r == rr && c == cc {
            assert(img[(y + rr) * w + (x + cc)] && sprite_bit(sprite[rr], cc));
        } else {
            assert(spec_collision_upto(img, w, sprite, x, y, ew, rr, cc));
        }
    }
    if spec_collision_upto(img, w, sprite, x, y, ew, rr, cc) {
        let (r, c) = choose|r: int, c: int|
            0 <= c < ew && 0 <= r && (r < rr || (r == rr && c < cc)) && img[(y + r) * w + (x + c)]
                && #[trigger] sprite_bit(sprite[r], c);
        assert(0 <= c < ew && 0 <= r && (r < rr || (r == rr && c < cc + 1)) && img[(y + r) * w + (x
            + c)] && sprite_bit(sprite[r], c));
    }
    if img[(y + rr) * w + (x + cc)] && sprite_bit(sprite[rr], cc) {
        assert(0 <= cc < ew && 0 <= rr && (rr < rr || (rr == rr && cc < cc + 1)) && img[(y + rr) * w
            + (x + cc)] && sprite_bit(sprite[rr], cc));
        assert(spec_collision_upto(img, w, sprite, x, y, ew, rr, cc + 1));
    }
}

/// Finishing a row of the walk is the same as standing at the start of
/// the next row.
proof fn lemma_collision_upto_row(
    img: Seq<bool>,
    w: int,
    sprite: Seq<u8>,
    x: int,
    y: int,
    ew: int,
    rr: int,
)
    requires
        0 <= rr,
    ensures
        spec_collision_upto(img, w, sprite, x, y, ew, rr, ew) == spec_collision_upto(
            img,
            w,
            sprite,
            x,
            y,
            ew,
            rr + 1,
            0,
        ),
{
    if spec_collision_upto(img, w, sprite, x, y, ew, rr, ew) {
        let (r, c) = choose|r: int, c: int|
            0 <= c < ew && 0 <= r && (r < rr || (r == rr && c < ew)) && img[(y + r) * w + (x + c)]
                && #[trigger] sprite_bit(sprite[r], c);
        assert(0 <= c < ew && 0 <= r && r < rr + 1 && img[(y + r) * w + (x + c)] && sprite_bit(
            sprite[r],
            c,
        ));
    }
    if spec_collision_upto(img, w, sprite, x, y, ew, rr + 1, 0) {
        let (r, c) = choose|r: int, c: int|
            0 <= c < ew && 0 <= r && (r < rr + 1 || (r == rr + 1 && c < 0)) && img[(y + r) * w + (x
                + c)] && #[trigger] sprite_bit(sprite[r], c);
        assert(0 <= c < ew && 0 <= r && (r < rr || (r == rr && c < ew)) && img[(y + r) * w + (x
            + c)] && sprite_bit(sprite[r], c));
    }
}

/// The accumulated collision test over all `eh` rows is exactly the
/// collision predicate of the whole draw.
proof fn lemma_collision_upto_full(
    img: Seq<bool>,
    w: int,
    sprite: Seq<u8>,
    x: int,
    y: int,
    ew: int,
    eh: int,
)
    ensures
        spec_collision_upto(img, w, sprite, x, y, ew, eh, 0) == spec_collision(
            img,
            w,
            sprite,
            x,
            y,
            ew,
            eh,
        ),
{
    if spec_collision_upto(img, w, sprite, x, y, ew, eh, 0) {
        let (r, c) = choose|r: int, c: int|
            0 <= c < ew && 0 <= r && (r < eh || (r == eh && c < 0)) && img[(y + r) * w + (x + c)]
                && #[trigger] sprite_bit(sprite[r], c);
        assert(0 <= r < eh && 0 <= c < ew && img[(y + r) * w + (x + c)] && sprite_bit(
            sprite[r],
            c,
        ));
    }
    if spec_collision(img, w, sprite, x, y, ew, eh) {
        let (r, c) = choose|r: int, c: int|
            0 <= r < eh && 0 <= c < ew && img[(y + r) * w + (x + c)] && #[trigger] sprite_bit(
                sprite[r],
                c,
            );
        assert(0 <= c < ew && 0 <= r && (r < eh || (r == eh && c < 0)) && img[(y + r) * w + (x + c)]
            && sprite_bit(sprite[r], c));
    }
}

/// Drawing the same sprite twice at the same anchor restores every cell
/// to its value before the first draw: XOR blending cancels itself.
pub proof fn lemma_double_blit_restores(
    img: Seq<bool>,
    w: int,
    sprite: Seq<u8>,
    x: int,
    y: int,
    ew: int,
    eh: int,
)
    ensures
        spec_blit(spec_blit(img, w, sprite, x, y, ew, eh), w, sprite, x, y, ew, eh) == img,
{
    let img1 = spec_blit(img, w, sprite, x, y, ew, eh);
    let img2 = spec_blit(img1, w, sprite, x, y, ew, eh);
    assert forall|i: int| 0 <= i < img.len() implies img2[i] == img[i] by {
        assert(img1.len() == img.len());
    }
    assert(img2 =~= img);
}

/// Whenever some cell of the blit rectangle is on while the matching
/// sprite bit is set, the draw collides — no matter at which row or
/// column the overlap lies.
pub proof fn lemma_collision_any_overlap(
    img: Seq<bool>,
    w: int,
    sprite: Seq<u8>,
    x: int,
    y: int,
    ew: int,
    eh: int,
    r: int,
    c: int,
)
    requires
        0 <= r < eh,
        0 <= c < ew,
        img[(y + r) * w + (x + c)],
        sprite_bit(sprite[r], c),
    ensures
        spec_collision(img, w, sprite, x, y, ew, eh),
{
    assert(0 <= r < eh && 0 <= c < ew && img[(y + r) * w + (x + c)] && sprite_bit(sprite[r], c));
}

impl MonochromeDisplay {
    /// The structural invariant: the grid holds exactly one cell per
    /// coordinate pair.
    pub open spec fn wf(&self) -> bool {
        self@.img.len() == self@.width * self@.height
    }

    /// A fresh grid of the given dimensions, all cells off.
    pub fn new(width: u16, height: u16, title: String) -> (r: Self)
        ensures
            r.wf(),
            r@.width == width,
            r@.height == height,
            r@.title == title@,
            forall|i: int| 0 <= i < r@.img.len() ==> !r@.img[i],
    {
        proof {
            assert(width as int * height as int <= 0xFFFF * 0xFFFF) by (nonlinear_arith)
                requires
                    width <= 0xFFFF,
                    height <= 0xFFFF,
            ;
        }
        let img: Vec<bool> = vec![false; width as usize * height as usize];
        Self { width, height, title, img }
    }

    /// The window title.
    pub fn title(&self) -> (r: &String)
        ensures
            r@ == self@.title,
    {
        &self.title
    }

    /// The grid dimensions, width first.
    pub fn dimensions(&self) -> (r: (u16, u16))
        ensures
            r.0 == self@.width,
            r.1 == self@.height,
    {
        (self.width, self.height)
    }

    /// Borrow the pixel grid, row-major.
    pub fn img(&self) -> (r: &[bool])
        ensures
            r@ == self@.img,
    {
        self.img.as_slice()
    }

    /// Turn every cell off; dimensions and title are untouched.
    pub fn clear(&mut self)
        ensures
            final(self).wf() == old(self).wf(),
            final(self)@.width == old(self)@.width,
            final(self)@.height == old(self)@.height,
            final(self)@.title == old(self)@.title,
            final(self)@.img.len() == old(self)@.img.len(),
            forall|i: int| 0 <= i < final(self)@.img.len() ==> !final(self)@.img[i],
    {
        let n = self.img.len();
        let mut i: usize = 0;
        while i < n
            invariant
                self@.img.len() == n,
                self@.width == old(self)@.width,
                self@.height == old(self)@.height,
                self@.title == old(self)@.title,
                0 <= i <= n,
                forall|j: int| 0 <= j < i ==> !self@.img[j],
            decreases n - i,
        {
            self.img.set(i, false);
            i += 1;
        }
    }

    /// XOR-draw up to `rows` sprite bytes anchored at column `x`, row
    /// `y`, eight pixels per row, most significant bit leftmost, clipped
    /// at the right and bottom edges and cut short if the sprite bytes
    /// run out. Returns whether any cell flipped from on to off,
    /// accumulated over the whole draw.
    pub fn blit_sprite(&mut self, x: usize, y: usize, sprite: &Vec<u8>, rows: usize) -> (collision:
        bool)
        requires
            old(self).wf(),
            x < old(self)@.width,
            y < old(self)@.height,
        ensures
            final(self).wf(),
            final(self)@.width == old(self)@.width,
            final(self)@.height == old(self)@.height,
            final(self)@.title == old(self)@.title,
            ({
                let w = old(self)@.width;
                let ew = spec_clip(w - x, 8);
                let eh = spec_clip(old(self)@.height - y, if sprite@.len() < rows {
                    sprite@.len() as int
                } else {
                    rows as int
                });
                &&& final(self)@.img == spec_blit(
                    old(self)@.img,
                    w,
                    sprite@,
                    x as int,
                    y as int,
                    ew,
                    eh,
                )
                &&& collision == spec_collision(
                    old(self)@.img,
                    w,
                    sprite@,
                    x as int,
                    y as int,
                    ew,
                    eh,
                )
            }),
    {
        let w = self.width as usize;
        let h = self.height as usize;
        let ew: usize = if w - x < 8 {
            w - x
        } else {
            8
        };
        let want: usize = if sprite.len() < rows {
            sprite.len()
        } else {
            rows
        };
        let eh: usize = if h - y < want {
            h - y
        } else {
            want
        };
        let ghost img0 = self@.img;
        let ghost gw = w as int;
        let ghost gh = h as int;
        let mut collision = false;
        let mut rr: usize = 0;
        proof {
            assert(spec_clip(gw - x, 8) == ew);
            assert(spec_clip(
                old(self)@.height - y,
                if sprite@.len() < rows {
                    sprite@.len() as int
                } else {
                    rows as int
                },
            ) == eh);
        }
        while rr < eh
            invariant
                0 <= rr <= eh,
                eh <= h - y,
                eh <= sprite@.len(),
                ew <= w - x,
                ew <= 8,
                x < w,
                y < h,
                w == old(self)@.width,
                h == old(self)@.height,
                gw == w as int,
                gh == h as int,
                img0 == old(self)@.img,
                img0.len() == gw * gh,
                self@.img.len() == img0.len(),
                self@.width == old(self)@.width,
                self@.height == old(self)@.height,
                self@.title == old(self)@.title,
                collision == spec_collision_upto(
                    img0,
                    gw,
                    sprite@,
                    x as int,
                    y as int,
                    ew as int,
                    rr as int,
                    0,
                ),
                forall|i: int|
                    0 <= i < img0.len() ==> self@.img[i] == (if in_blit_rect(
                        gw,
                        x as int,
                        y as int,
                        ew as int,
                        rr as int,
                        i,
                    ) {
                        img0[i] ^ sprite_bit(sprite@[i / gw - y], i % gw - x)
                    } else {
                        img0[i]
                    }),
            decreases eh - rr,
        {
            let b = sprite[rr];
            let mut cc: usize = 0;
            while cc < ew
                invariant
                    0 <= cc <= ew,
                    rr < eh,
                    eh <= h - y,
                    eh <= sprite@.len(),
                    ew <= w - x,
                    ew <= 8,
                    x < w,
                    y < h,
                    w == old(self)@.width,
                    h == old(self)@.height,
                    gw == w as int,
                    gh == h as int,
                    img0 == old(self)@.img,
                    img0.len() == gw * gh,
                    self@.img.len() == img0.len(),
                    self@.width == old(self)@.width,
                    self@.height == old(self)@.height,
                    self@.title == old(self)@.title,
                    b == sprite@[rr as int],
                    collision == spec_collision_upto(
                        img0,
                        gw,
                        sprite@,
                        x as int,
                        y as int,
                        ew as int,
                        rr as int,
                        cc as int,
                    ),
                    forall|i: int|
                        0 <= i < img0.len() ==> self@.img[i] == (if in_blit_rect(
                            gw,
                            x as int,
                            y as int,
                            ew as int,
                            rr as int,
                            i,
                        ) || (i / gw == y + rr && x <= i % gw < x + cc) {
                            img0[i] ^ sprite_bit(sprite@[i / gw - y], i % gw - x)
                        } else {
                            img0[i]
                        }),
                decreases ew - cc,
            {
                let n = self.img.len();
                proof {
                    assert((y + rr) * gw + (x + cc) < gw * gh) by (nonlinear_arith)
                        requires
                            0 <= y + rr,
                            y + rr < gh,
                            0 <= x + cc,
                            x + cc < gw,
                            gw > 0,
                    ;
                    lemma_rowcol(gw, y + rr, x + cc);
                }
                let idx = (y + rr) * w + (x + cc);
                let old_px = self.img[idx];
                let bit = b & (0x80u8 >> (cc as u8)) != 0;
                proof {
                    assert(bit == sprite_bit(sprite@[rr as int], cc as int));
                    assert(old_px == img0[idx as int]);
                }
                let ghost pre = self@.img;
                self.img.set(idx, old_px ^ bit);
                if old_px && bit {
                    collision = true;
                }
                proof {
                    lemma_collision_upto_step(
                        img0,
                        gw,
                        sprite@,
                        x as int,
                        y as int,
                        ew as int,
                        rr as int,
                        cc as int,
                    );
                    assert(self@.img == pre.update(idx as int, old_px ^ bit));
                    assert forall|i: int| 0 <= i < img0.len() implies #[trigger] self@.img[i] == (
                    if in_blit_rect(gw, x as int, y as int, ew as int, rr as int, i) || (i / gw == y
                        + rr && x <= i % gw < x + cc + 1) {
                        img0[i] ^ sprite_bit(sprite@[i / gw - y], i % gw - x)
                    } else {
                        img0[i]
                    }) by {
                        if i == idx as int {
                            assert(i / gw == y + rr);
                            assert(i % gw == x + cc);
                            assert(self@.img[i] == old_px ^ bit);
                            assert(img0[i] == old_px);
                            assert(sprite_bit(sprite@[i / gw - y], i % gw - x) == bit);
                        } else {
                            assert(self@.img[i] == pre[i]);
                            assert(pre[i] == (if in_blit_rect(
                                gw,
                                x as int,
                                y as int,
                                ew as int,
                                rr as int,
                                i,
                            ) || (i / gw == y + rr && x <= i % gw < x + cc) {
                                img0[i] ^ sprite_bit(sprite@[i / gw - y], i % gw - x)
                            } else {
                                img0[i]
                            }));
                            lemma_fundamental_div_mod(i, gw);
                            assert(!(i / gw == y + rr && i % gw == x + cc));
                        }
                    };
                }
                cc += 1;
            }
            proof {
                lemma_collision_upto_row(
                    img0,
                    gw,
                    sprite@,
                    x as int,
                    y as int,
                    ew as int,
                    rr as int,
                );
            }
            rr += 1;
        }
        proof {
            lemma_collision_upto_full(
                img0,
                gw,
                sprite@,
                x as int,
                y as int,
                ew as int,
                eh as int,
            );
            assert(self@.img =~= spec_blit(
                img0,
                gw,
                sprite@,
                x as int,
                y as int,
                spec_clip(gw - x, 8),
                eh as int,
            ));
        }
        collision
    }

    /// The cell commands that flush the clipped rectangle anchored at
    /// (`start_x`, `start_y`) of the given width and height to a display
    /// sink: one `(row, column, on)` triple per cell, row-major.
    pub fn draw(&self, start_x: usize, start_y: usize, width: usize, height: usize) -> (r: Vec<
        (usize, usize, bool),
    >)
        requires
            self.wf(),
        ensures
            ({
                let w = self@.width;
                let ew = spec_clip(w - start_x, width as int);
                let eh = spec_clip(self@.height - start_y, height as int);
                &&& r@.len() == eh * ew
                &&& forall|k: int|
                    0 <= k < r@.len() ==> (#[trigger] r@[k]).0 == start_y + k / ew && r@[k].1
                        == start_x + k % ew && r@[k].2 == self@.img[(start_y + k / ew) * w + (
                    start_x + k % ew)]
            }),
    {
        let w = self.width as usize;
        let h = self.height as usize;
        let ew: usize = if start_x >= w {
            0
        } else if width < w - start_x {
            width
        } else {
            w - start_x
        };
        let eh: usize = if start_y >= h {
            0
        } else if height < h - start_y {
            height
        } else {
            h - start_y
        };
        let ghost gw = w as int;
        let ghost gh = h as int;
        let mut out: Vec<(usize, usize, bool)> = Vec::new();
        if ew == 0 {
            proof {
                assert(spec_clip(gw - start_x, width as int) == 0);
            }
            return out;
        }
        let mut rr: usize = 0;
        while rr < eh
            invariant
                0 <= rr <= eh,
                0 < ew,
                ew <= w - start_x,
                start_x < w,
                eh > 0 ==> start_y < h,
                eh <= h - start_y || eh == 0,
                w == self@.width,
                h == self@.height,
                gw == w as int,
                gh == h as int,
                self.wf(),
                out@.len() == rr * ew,
                forall|k: int|
                    0 <= k < out@.len() ==> (#[trigger] out@[k]).0 == start_y + k / (ew as int)
                        && out@[k].1 == start_x + k % (ew as int) && out@[k].2 == self@.img[(start_y
                        + k / (ew as int)) * gw + (start_x + k % (ew as int))],
            decreases eh - rr,
        {
            let mut cc: usize = 0;
            while cc < ew
                invariant
                    0 <= cc <= ew,
                    rr < eh,
                    0 < ew,
                    ew <= w - start_x,
                    start_x < w,
                    start_y < h,
                    eh <= h - start_y,
                    w == self@.width,
                    h == self@.height,
                    gw == w as int,
                    gh == h as int,
                    self.wf(),
                    out@.len() == rr * ew + cc,
                    forall|k: int|
                        0 <= k < out@.len() ==> (#[trigger] out@[k]).0 == start_y + k / (ew as int)
                            && out@[k].1 == start_x + k % (ew as int) && out@[k].2
                            == self@.img[(start_y + k / (ew as int)) * gw + (start_x + k % (
                        ew as int))],
                decreases ew - cc,
            {
                let n = self.img.len();
                proof {
                    assert((start_y + rr) * gw + (start_x + cc) < gw * gh) by (nonlinear_arith)
                        requires
                            0 <= start_y + rr,
                            start_y + rr < gh,
                            0 <= start_x + cc,
                            start_x + cc < gw,
                            gw > 0,
                    ;
                    lemma_rowcol(ew as int, rr as int, cc as int);
                }
                let idx = (start_y + rr) * w + (start_x + cc);
                let px = self.img[idx];
                out.push((start_y + rr, start_x + cc, px));
                cc += 1;
            }
            proof {
                assert(rr as int * ew + ew == (rr + 1) as int * ew) by (nonlinear_arith);
            }
            rr += 1;
        }
        proof {
            assert(out@.len() == eh as int * ew);
            assert(spec_clip(gw - start_x, width as int) == ew as int);
            assert(spec_clip(self@.height - start_y, height as int) == eh as int);
        }
        out
    }
}

} // verus!
