//! Dirty rectangles, for clients that refuse H.264: what changed since the last frame,
//! found tile by tile and written as it is asked for, as a rule as raw colour planes.

use crate::coding::{coded, coded_as, law_rows_carry_the_picture, rows, Coding};
use crate::pdu::PATCH_MAX;
use vstd::arithmetic::div_mod::{lemma_fundamental_div_mod, lemma_fundamental_div_mod_converse};
use vstd::prelude::*;

verus! {

/// The side of a tile, in pixels.
pub const TILE: u16 = 64;

/// How many bytes of rectangles a frame takes.
pub const BUDGET: usize = 1024 * 1024;

/// How many frames may wait for the client's acknowledgement.
pub const IN_FLIGHT: u32 = 2;

/// Header of a planar bitmap without alpha plane and without run-length coding.
pub const RAW_PLANES: u8 = 0x20;

/// A rectangle of pixels; right and bottom are not part of it.
#[derive(Clone, Copy, PartialEq, Eq, Structural, Debug)]
pub struct Rect {
    pub left: u16,
    pub top: u16,
    pub right: u16,
    pub bottom: u16,
}

impl Rect {
    /// Whether a place is in it.
    pub open spec fn contains(self, x: int, y: int) -> bool {
        self.left <= x < self.right && self.top <= y < self.bottom
    }

    /// How many columns it has.
    pub open spec fn width(self) -> int {
        self.right - self.left
    }

    /// How many rows it has.
    pub open spec fn height(self) -> int {
        self.bottom - self.top
    }

    /// Whether there is something in it, all of it in a picture of `w` by `h` pixels.
    pub open spec fn within(self, w: u16, h: u16) -> bool {
        self.left < self.right <= w && self.top < self.bottom <= h
    }

    /// How many bytes its planes take, with header and padding.
    pub open spec fn packed(self) -> int {
        3 * (self.width() * self.height()) + 2
    }
}

/// Where in a picture of `w` pixels a row the bytes of a pixel are.
pub open spec fn position(w: u16, x: int, y: int) -> int {
    (y * w + x) * 4
}

/// Whether two pictures have the same pixel at a place.
pub open spec fn same_at(a: Seq<u8>, b: Seq<u8>, w: u16, x: int, y: int) -> bool {
    let p = position(w, x, y);
    a[p] == b[p] && a[p + 1] == b[p + 1] && a[p + 2] == b[p + 2] && a[p + 3] == b[p + 3]
}

/// Whether two pictures are the same in a rectangle.
pub open spec fn same_in(a: Seq<u8>, b: Seq<u8>, w: u16, r: Rect) -> bool {
    forall|x: int, y: int| r.contains(x, y) ==> #[trigger] same_at(a, b, w, x, y)
}

/// Colour plane `c` of a rectangle of a picture.
pub open spec fn plane(picture: Seq<u8>, w: u16, r: Rect, c: int) -> Seq<u8> {
    Seq::new(
        (r.width() * r.height()) as nat,
        |k: int| picture[position(w, r.left + k % r.width(), r.top + k / r.width()) + c],
    )
}

/// A rectangle of a picture as a planar bitmap: red, green and blue, row by row.
pub open spec fn planes(picture: Seq<u8>, w: u16, r: Rect) -> Seq<u8> {
    seq![RAW_PLANES] + plane(picture, w, r, 2) + plane(picture, w, r, 1) + plane(
        picture,
        w,
        r,
        0,
    ) + seq![0u8]
}

pub(crate) proof fn lemma_position(w: u16, h: u16, x: int, y: int)
    requires
        0 <= x < w,
        0 <= y < h,
    ensures
        0 <= y * w,
        0 <= position(w, x, y),
        position(w, x, y) + 3 < w * h * 4,
{
    assert(0 <= y * w && y * w + x < w * h) by (nonlinear_arith)
        requires
            0 <= x < w,
            0 <= y < h,
    ;
}

/// Different places have different bytes.
proof fn lemma_apart(w: u16, x: int, y: int, u: int, v: int)
    requires
        0 <= x < w,
        0 <= u < w,
        (x, y) != (u, v),
    ensures
        position(w, x, y) + 3 < position(w, u, v) || position(w, u, v) + 3 < position(w, x, y),
{
    if y < v {
        assert(y * w + w <= v * w) by (nonlinear_arith)
            requires
                y < v,
                0 < w,
        ;
    } else if v < y {
        assert(v * w + w <= y * w) by (nonlinear_arith)
            requires
                v < y,
                0 < w,
        ;
    }
}

fn same_pixel(a: &[u8], b: &[u8], w: u16, x: u16, y: u16, Ghost(h): Ghost<u16>) -> (r: bool)
    requires
        a@.len() == w * h * 4,
        b@.len() == w * h * 4,
        x < w,
        y < h,
    ensures
        r == same_at(a@, b@, w, x as int, y as int),
{
    proof {
        lemma_position(w, h, x as int, y as int);
        assert(a.len() == a@.len());
    }
    let p: usize = (y as usize * w as usize + x as usize) * 4;
    a[p] == b[p] && a[p + 1] == b[p + 1] && a[p + 2] == b[p + 2] && a[p + 3] == b[p + 3]
}

/// Whether two pictures differ in a rectangle.
pub fn differ(a: &[u8], b: &[u8], w: u16, h: u16, rect: Rect) -> (r: bool)
    requires
        a@.len() == w * h * 4,
        b@.len() == w * h * 4,
        rect.within(w, h),
    ensures
        r == !same_in(a@, b@, w, rect),
{
    let mut y: u16 = rect.top;
    while y < rect.bottom
        invariant
            a@.len() == w * h * 4,
            b@.len() == w * h * 4,
            rect.within(w, h),
            rect.top <= y <= rect.bottom,
            forall|u: int, v: int|
                rect.contains(u, v) && v < y ==> #[trigger] same_at(a@, b@, w, u, v),
        decreases rect.bottom - y,
    {
        let mut x: u16 = rect.left;
        while x < rect.right
            invariant
                a@.len() == w * h * 4,
                b@.len() == w * h * 4,
                rect.within(w, h),
                rect.top <= y < rect.bottom,
                rect.left <= x <= rect.right,
                forall|u: int, v: int|
                    rect.contains(u, v) && (v < y || v == y && u < x) ==> #[trigger] same_at(
                        a@,
                        b@,
                        w,
                        u,
                        v,
                    ),
            decreases rect.right - x,
        {
            if !same_pixel(a, b, w, x, y, Ghost(h)) {
                assert(rect.contains(x as int, y as int));
                return true;
            }
            x += 1;
        }
        y += 1;
    }
    false
}

fn push_plane(out: &mut Vec<u8>, picture: &[u8], w: u16, h: u16, rect: Rect, c: usize)
    requires
        picture@.len() == w * h * 4,
        rect.within(w, h),
        c < 4,
    ensures
        final(out)@ == old(out)@ + plane(picture@, w, rect, c as int),
{
    let ghost n = old(out)@.len();
    let ghost rw = rect.width();
    let mut y: u16 = rect.top;
    while y < rect.bottom
        invariant
            picture@.len() == w * h * 4,
            rect.within(w, h),
            c < 4,
            rw == rect.width(),
            n == old(out)@.len(),
            rect.top <= y <= rect.bottom,
            out@.len() == n + (y - rect.top) * rw,
            out@.take(n as int) == old(out)@,
            forall|k: int|
                0 <= k < (y - rect.top) * rw ==> #[trigger] out@[n + k] == plane(
                    picture@,
                    w,
                    rect,
                    c as int,
                )[k],
        decreases rect.bottom - y,
    {
        let ghost j = y - rect.top;
        let mut x: u16 = rect.left;
        while x < rect.right
            invariant
                picture@.len() == w * h * 4,
                rect.within(w, h),
                c < 4,
                rw == rect.width(),
                n == old(out)@.len(),
                rect.top <= y < rect.bottom,
                rect.left <= x <= rect.right,
                j == y - rect.top,
                out@.len() == n + j * rw + (x - rect.left),
                out@.take(n as int) == old(out)@,
                forall|k: int|
                    0 <= k < j * rw + (x - rect.left) ==> #[trigger] out@[n + k] == plane(
                        picture@,
                        w,
                        rect,
                        c as int,
                    )[k],
            decreases rect.right - x,
        {
            let ghost before = out@;
            proof {
                lemma_position(w, h, x as int, y as int);
                assert(picture.len() == picture@.len());
            }
            let p: usize = (y as usize * w as usize + x as usize) * 4;
            out.push(picture[p + c]);
            proof {
                let i = x - rect.left;
                let at = j * rw + i;
                assert(0 <= at < rw * rect.height()) by (nonlinear_arith)
                    requires
                        at == j * rw + i,
                        0 <= i < rw,
                        0 <= j < rect.height(),
                ;
                lemma_fundamental_div_mod_converse(at, rw, j, i);
                assert(out@.take(n as int) =~= before.take(n as int));
                assert forall|k: int| 0 <= k < at + 1 implies #[trigger] out@[n + k] == plane(
                    picture@,
                    w,
                    rect,
                    c as int,
                )[k] by {
                    if k < at {
                        assert(before[n + k] == out@[n + k]);
                    }
                }
            }
            x += 1;
        }
        proof {
            assert((j + 1) * rw == j * rw + rw) by (nonlinear_arith);
        }
        y += 1;
    }
    proof {
        assert(rw * rect.height() == rect.height() * rw) by (nonlinear_arith);
        assert forall|k: int| 0 <= k < out@.len() implies out@[k] == (old(out)@ + plane(
            picture@,
            w,
            rect,
            c as int,
        ))[k] by {
            if k < n {
                assert(out@.take(n as int)[k] == out@[k]);
            } else {
                assert(out@[n + (k - n)] == plane(picture@, w, rect, c as int)[k - n]);
            }
        }
        assert(out@ =~= old(out)@ + plane(picture@, w, rect, c as int));
    }
}

/// Packs a rectangle of a picture.
pub fn pack(picture: &[u8], w: u16, h: u16, rect: Rect) -> (r: Vec<u8>)
    requires
        picture@.len() == w * h * 4,
        rect.within(w, h),
    ensures
        r@ == planes(picture@, w, rect),
        r@.len() == rect.packed(),
{
    let mut out: Vec<u8> = Vec::new();
    out.push(RAW_PLANES);
    push_plane(&mut out, picture, w, h, rect, 2);
    push_plane(&mut out, picture, w, h, rect, 1);
    push_plane(&mut out, picture, w, h, rect, 0);
    out.push(0);
    proof {
        assert(0 <= rect.width() * rect.height()) by (nonlinear_arith)
            requires
                0 <= rect.width(),
                0 <= rect.height(),
        ;
        assert(out@ =~= planes(picture@, w, rect));
    }
    out
}

// ------------------------------------------------------------ what the client has

/// Whether a place is in a picture.
pub open spec fn inside(w: u16, h: u16, x: int, y: int) -> bool {
    0 <= x < w && 0 <= y < h
}

fn copy_pixel(shown: &mut Vec<u8>, new: &[u8], w: u16, h: u16, x: u16, y: u16)
    requires
        old(shown)@.len() == w * h * 4,
        new@.len() == w * h * 4,
        x < w,
        y < h,
    ensures
        final(shown)@.len() == w * h * 4,
        same_at(final(shown)@, new@, w, x as int, y as int),
        forall|u: int, v: int|
            inside(w, h, u, v) && (u, v) != (x as int, y as int) ==> #[trigger] same_at(
                final(shown)@,
                old(shown)@,
                w,
                u,
                v,
            ),
{
    proof {
        lemma_position(w, h, x as int, y as int);
        assert(new.len() == new@.len());
    }
    let p: usize = (y as usize * w as usize + x as usize) * 4;
    shown.set(p, new[p]);
    shown.set(p + 1, new[p + 1]);
    shown.set(p + 2, new[p + 2]);
    shown.set(p + 3, new[p + 3]);
    proof {
        assert forall|u: int, v: int|
            inside(w, h, u, v) && (u, v) != (x as int, y as int) implies #[trigger] same_at(
            shown@,
            old(shown)@,
            w,
            u,
            v,
        ) by {
            lemma_position(w, h, u, v);
            lemma_apart(w, x as int, y as int, u, v);
        }
    }
}

fn copy(shown: &mut Vec<u8>, new: &[u8], w: u16, h: u16, rect: Rect)
    requires
        old(shown)@.len() == w * h * 4,
        new@.len() == w * h * 4,
        rect.within(w, h),
    ensures
        final(shown)@.len() == w * h * 4,
        same_in(final(shown)@, new@, w, rect),
        forall|u: int, v: int|
            inside(w, h, u, v) && !rect.contains(u, v) ==> #[trigger] same_at(
                final(shown)@,
                old(shown)@,
                w,
                u,
                v,
            ),
{
    let mut y: u16 = rect.top;
    while y < rect.bottom
        invariant
            shown@.len() == w * h * 4,
            new@.len() == w * h * 4,
            rect.within(w, h),
            rect.top <= y <= rect.bottom,
            forall|u: int, v: int|
                rect.contains(u, v) && v < y ==> #[trigger] same_at(shown@, new@, w, u, v),
            forall|u: int, v: int|
                inside(w, h, u, v) && !rect.contains(u, v) ==> #[trigger] same_at(
                    shown@,
                    old(shown)@,
                    w,
                    u,
                    v,
                ),
        decreases rect.bottom - y,
    {
        let mut x: u16 = rect.left;
        while x < rect.right
            invariant
                shown@.len() == w * h * 4,
                new@.len() == w * h * 4,
                rect.within(w, h),
                rect.top <= y < rect.bottom,
                rect.left <= x <= rect.right,
                forall|u: int, v: int|
                    rect.contains(u, v) && (v < y || v == y && u < x) ==> #[trigger] same_at(
                        shown@,
                        new@,
                        w,
                        u,
                        v,
                    ),
                forall|u: int, v: int|
                    inside(w, h, u, v) && !rect.contains(u, v) ==> #[trigger] same_at(
                        shown@,
                        old(shown)@,
                        w,
                        u,
                        v,
                    ),
            decreases rect.right - x,
        {
            let ghost before = shown@;
            copy_pixel(shown, new, w, h, x, y);
            proof {
                assert forall|u: int, v: int|
                    rect.contains(u, v) && (v < y || v == y
                        && u < x + 1) implies #[trigger] same_at(shown@, new@, w, u, v) by {
                    if (u, v) != (x as int, y as int) {
                        assert(same_at(before, new@, w, u, v));
                        assert(same_at(shown@, before, w, u, v));
                    }
                }
                assert forall|u: int, v: int|
                    inside(w, h, u, v) && !rect.contains(u, v) implies #[trigger] same_at(
                    shown@,
                    old(shown)@,
                    w,
                    u,
                    v,
                ) by {
                    assert(same_at(before, old(shown)@, w, u, v));
                    assert(same_at(shown@, before, w, u, v));
                }
            }
            x += 1;
        }
        y += 1;
    }
}

/// A changed rectangle, packed.
pub struct Patch {
    pub rect: Rect,
    pub data: Vec<u8>,
}

/// How many bytes a row of patches takes.
pub open spec fn spent(patches: Seq<Patch>) -> int
    decreases patches.len(),
{
    if patches.len() == 0 {
        0
    } else {
        spent(patches.drop_last()) + patches.last().data@.len()
    }
}

/// Whether a place is in one of the patches.
pub open spec fn covered(patches: Seq<Patch>, x: int, y: int) -> bool {
    exists|i: int| 0 <= i < patches.len() && (#[trigger] patches[i]).rect.contains(x, y)
}

/// The tile that begins at a column and a row, as far as it is in the picture.
pub open spec fn tile(w: u16, h: u16, left: int, top: int) -> Rect {
    Rect {
        left: left as u16,
        top: top as u16,
        right: if left + TILE < w {
            (left + TILE) as u16
        } else {
            w
        },
        bottom: if top + TILE < h {
            (top + TILE) as u16
        } else {
            h
        },
    }
}

/// Whether a rectangle is a row of whole tiles, each of which has a pixel that differs.
pub open spec fn changed_span(a: Seq<u8>, b: Seq<u8>, w: u16, h: u16, r: Rect) -> bool {
    &&& r.within(w, h)
    &&& r.left % TILE == 0
    &&& r.top % TILE == 0
    &&& r.right % TILE == 0 || r.right == w
    &&& r.bottom == tile(w, h, r.left as int, r.top as int).bottom
    &&& forall|left: int|
        r.left <= left < r.right && left % TILE as int == 0 ==> !same_in(
            a,
            b,
            w,
            #[trigger] tile(w, h, left, r.top as int),
        )
}

/// Whether a row of tiles goes as far to the right as the change does: to the end of the
/// picture, or to a tile in which nothing differs.
pub open spec fn ends(a: Seq<u8>, b: Seq<u8>, w: u16, h: u16, r: Rect) -> bool {
    r.right == w || same_in(a, b, w, tile(w, h, r.right as int, r.top as int))
}

/// Whether a row of tiles goes as far to the left as the change does.
pub open spec fn begins(a: Seq<u8>, b: Seq<u8>, w: u16, h: u16, r: Rect) -> bool {
    r.left == 0 || same_in(a, b, w, tile(w, h, r.left - TILE, r.top as int))
}

/// Whether a rectangle is all of a change in a row of tiles: changed tiles and nothing
/// else, and no changed tile next to them.
pub open spec fn whole_span(a: Seq<u8>, b: Seq<u8>, w: u16, h: u16, r: Rect) -> bool {
    changed_span(a, b, w, h, r) && begins(a, b, w, h, r) && ends(a, b, w, h, r)
}

/// Whether a rectangle comes before another: in a row of tiles above, or in the same row
/// and to the left. The two have nothing in common.
pub open spec fn comes_before(a: Rect, b: Rect) -> bool {
    a.bottom <= b.top || a.top == b.top && a.right <= b.left
}

/// Whether a place comes before a rectangle: above it, or in its rows and to the left.
pub open spec fn place_before(x: int, y: int, r: Rect) -> bool {
    y < r.top || y < r.bottom && x < r.left
}

/// Whether patches come from the top, and from left to right.
pub open spec fn ordered(patches: Seq<Patch>) -> bool {
    forall|i: int, j: int|
        0 <= i < j < patches.len() ==> comes_before(
            (#[trigger] patches[i]).rect,
            (#[trigger] patches[j]).rect,
        )
}

/// The picture that a client has.
pub struct Canvas {
    pub w: u16,
    pub h: u16,
    pub shown: Vec<u8>,
}

impl Canvas {
    /// Whether every pixel is there.
    pub open spec fn wf(self) -> bool {
        self.shown@.len() == self.w * self.h * 4
    }

    /// Whether `patches` bring the client's picture up to date with `new`, as far as the
    /// budget goes, and leave it as `after`. Each is all of a change in its row of tiles,
    /// and they come in order, each once; where they are, the picture is as in `new`, and
    /// elsewhere as it was. None is too large for a message. The budget is kept, but for a
    /// single patch. Only a full budget leaves something out.
    pub open spec fn updated(
        self,
        new: Seq<u8>,
        coding: Coding,
        budget: usize,
        patches: Seq<Patch>,
        after: Canvas,
    ) -> bool {
        &&& after.wf()
        &&& after.w == self.w
        &&& after.h == self.h
        &&& forall|i: int|
            0 <= i < patches.len() ==> whole_span(
                self.shown@,
                new,
                self.w,
                self.h,
                (#[trigger] patches[i]).rect,
            ) && patches[i].data@ == coded_as(coding, new, self.w, patches[i].rect)
        &&& forall|i: int|
            0 <= i < patches.len() ==> (#[trigger] patches[i]).data@.len() <= PATCH_MAX
        &&& ordered(patches)
        &&& forall|x: int, y: int|
            inside(self.w, self.h, x, y) && covered(patches, x, y) ==> #[trigger] same_at(
                after.shown@,
                new,
                self.w,
                x,
                y,
            )
        &&& forall|x: int, y: int|
            inside(self.w, self.h, x, y) && !covered(patches, x, y) ==> #[trigger] same_at(
                after.shown@,
                self.shown@,
                self.w,
                x,
                y,
            )
        &&& patches.len() <= 1 || spent(patches) <= budget
        &&& after.shown@ == new || patches.len() > 0 && exists|r: Rect| #[trigger]
            self.full(new, coding, budget, patches, after, r)
    }

    /// Whether the budget is full before the rectangle `r`: it is the next change behind
    /// the patches, all that comes before it is up to date, and it would go over the
    /// budget.
    pub open spec fn full(
        self,
        new: Seq<u8>,
        coding: Coding,
        budget: usize,
        patches: Seq<Patch>,
        after: Canvas,
        r: Rect,
    ) -> bool {
        &&& whole_span(self.shown@, new, self.w, self.h, r)
        &&& forall|i: int|
            0 <= i < patches.len() ==> comes_before((#[trigger] patches[i]).rect, r)
        &&& forall|x: int, y: int|
            inside(self.w, self.h, x, y) && place_before(x, y, r) ==> #[trigger] same_at(
                after.shown@,
                new,
                self.w,
                x,
                y,
            )
        &&& spent(patches) + coded_as(coding, new, self.w, r).len() > budget
    }
}

/// How far a search for changes has come: the rows above `top` are done, and of the rows
/// from there to `bottom` the columns before `x`.
spec fn passed(px: int, py: int, x: int, top: int, bottom: int) -> bool {
    py < top || py < bottom && px < x
}

/// What holds of the client's picture during the search: what was passed is as in `new`;
/// only what was passed is in a patch; and without a patch a pixel is as in `first`.
spec fn tracks(
    first: Seq<u8>,
    shown: Seq<u8>,
    new: Seq<u8>,
    w: u16,
    h: u16,
    patches: Seq<Patch>,
    x: int,
    top: int,
    bottom: int,
) -> bool {
    &&& shown.len() == w * h * 4
    &&& forall|px: int, py: int|
        inside(w, h, px, py) && passed(px, py, x, top, bottom) ==> #[trigger] same_at(
            shown,
            new,
            w,
            px,
            py,
        )
    &&& forall|px: int, py: int| #[trigger]
        covered(patches, px, py) ==> passed(px, py, x, top, bottom)
    &&& forall|px: int, py: int|
        inside(w, h, px, py) && !covered(patches, px, py) ==> #[trigger] same_at(
            shown,
            first,
            w,
            px,
            py,
        )
}

/// Whether the tile at column `x` and the one before it are not both changed, so that a
/// change which is found at `x` begins there.
spec fn starts_afresh(
    first: Seq<u8>,
    new: Seq<u8>,
    w: u16,
    h: u16,
    x: int,
    top: int,
) -> bool {
    ||| x == 0
    ||| x == w
    ||| same_in(first, new, w, tile(w, h, x - TILE, top))
    ||| same_in(first, new, w, tile(w, h, x, top))
}

/// Whether the patches are in order, and none reaches beyond what was passed.
spec fn behind(patches: Seq<Patch>, x: int, top: int) -> bool {
    &&& ordered(patches)
    &&& forall|i: int|
        0 <= i < patches.len() ==> (#[trigger] patches[i]).rect.bottom <= top
            || patches[i].rect.top == top && patches[i].rect.right <= x
}

/// Whether the patches are what changed from `first` to `new`.
spec fn all_changed(
    first: Seq<u8>,
    new: Seq<u8>,
    coding: Coding,
    w: u16,
    h: u16,
    patches: Seq<Patch>,
) -> bool {
    forall|i: int|
        0 <= i < patches.len() ==> whole_span(first, new, w, h, (#[trigger] patches[i]).rect)
            && patches[i].data@ == coded_as(coding, new, w, patches[i].rect)
            && patches[i].data@.len() <= PATCH_MAX
}

/// A patch behind the others that is what changed leaves them so.
proof fn lemma_one_more_changed(
    first: Seq<u8>,
    new: Seq<u8>,
    coding: Coding,
    w: u16,
    h: u16,
    patches: Seq<Patch>,
    patch: Patch,
)
    requires
        all_changed(first, new, coding, w, h, patches),
        whole_span(first, new, w, h, patch.rect),
        patch.data@ == coded_as(coding, new, w, patch.rect),
        patch.data@.len() <= PATCH_MAX,
    ensures
        all_changed(first, new, coding, w, h, patches.push(patch)),
{
    let more = patches.push(patch);
    assert forall|i: int| 0 <= i < more.len() implies whole_span(
        first,
        new,
        w,
        h,
        (#[trigger] more[i]).rect,
    ) && more[i].data@ == coded_as(coding, new, w, more[i].rect) && more[i].data@.len()
        <= PATCH_MAX by {
        if i < patches.len() {
            assert(more[i] == patches[i]);
        }
    }
}

proof fn lemma_same_transfer(a: Seq<u8>, b: Seq<u8>, c: Seq<u8>, w: u16, r: Rect)
    requires
        forall|x: int, y: int| r.contains(x, y) ==> #[trigger] same_at(a, b, w, x, y),
    ensures
        same_in(a, c, w, r) == same_in(b, c, w, r),
{
    if same_in(a, c, w, r) {
        assert forall|x: int, y: int| r.contains(x, y) implies #[trigger] same_at(
            b,
            c,
            w,
            x,
            y,
        ) by {
            assert(same_at(a, b, w, x, y));
            assert(same_at(a, c, w, x, y));
        }
    }
    if same_in(b, c, w, r) {
        assert forall|x: int, y: int| r.contains(x, y) implies #[trigger] same_at(
            a,
            c,
            w,
            x,
            y,
        ) by {
            assert(same_at(a, b, w, x, y));
            assert(same_at(b, c, w, x, y));
        }
    }
}

/// Pictures with the same pixels are the same.
proof fn lemma_equal(a: Seq<u8>, b: Seq<u8>, w: u16, h: u16)
    requires
        a.len() == w * h * 4,
        b.len() == w * h * 4,
        forall|x: int, y: int| inside(w, h, x, y) ==> #[trigger] same_at(a, b, w, x, y),
    ensures
        a == b,
{
    assert forall|k: int| 0 <= k < a.len() implies a[k] == b[k] by {
        assert(w > 0) by (nonlinear_arith)
            requires
                0 <= k < w * h * 4,
        ;
        let p = k / 4;
        let x = p % (w as int);
        let y = p / (w as int);
        lemma_fundamental_div_mod(p, w as int);
        assert(0 <= y < h) by (nonlinear_arith)
            requires
                p == w * y + x,
                0 <= x < w,
                0 <= p < w * h,
                0 < w,
        ;
        assert(same_at(a, b, w, x, y));
        assert(w * y == y * w) by (nonlinear_arith);
    }
    assert(a =~= b);
}

/// Where nothing changed the search goes on.
proof fn lemma_pass_same(
    first: Seq<u8>,
    shown: Seq<u8>,
    new: Seq<u8>,
    w: u16,
    h: u16,
    patches: Seq<Patch>,
    x: int,
    t: Rect,
)
    requires
        tracks(first, shown, new, w, h, patches, x, t.top as int, t.bottom as int),
        t.left == x,
        t.left < t.right,
        same_in(shown, new, w, t),
    ensures
        tracks(first, shown, new, w, h, patches, t.right as int, t.top as int, t.bottom as int),
{
    let (top, bottom) = (t.top as int, t.bottom as int);
    assert forall|px: int, py: int|
        inside(w, h, px, py) && passed(px, py, t.right as int, top, bottom) implies #[trigger] same_at(
        shown,
        new,
        w,
        px,
        py,
    ) by {
        if !passed(px, py, x, top, bottom) {
            assert(t.contains(px, py));
        }
    }
    assert forall|px: int, py: int| #[trigger] covered(patches, px, py) implies passed(
        px,
        py,
        t.right as int,
        top,
        bottom,
    ) by {
        assert(passed(px, py, x, top, bottom));
    }
}

/// A patch takes the search to its end.
proof fn lemma_pass_patch(
    first: Seq<u8>,
    before: Seq<u8>,
    shown: Seq<u8>,
    new: Seq<u8>,
    w: u16,
    h: u16,
    patches: Seq<Patch>,
    p: Patch,
)
    requires
        ({
            let r = p.rect;
            &&& r.left < r.right
            &&& tracks(
                first,
                before,
                new,
                w,
                h,
                patches,
                r.left as int,
                r.top as int,
                r.bottom as int,
            )
            &&& shown.len() == w * h * 4
            &&& same_in(shown, new, w, r)
            &&& forall|u: int, v: int|
                inside(w, h, u, v) && !r.contains(u, v) ==> #[trigger] same_at(
                    shown,
                    before,
                    w,
                    u,
                    v,
                )
        }),
    ensures
        tracks(
            first,
            shown,
            new,
            w,
            h,
            patches.push(p),
            p.rect.right as int,
            p.rect.top as int,
            p.rect.bottom as int,
        ),
{
    let r = p.rect;
    let (x, top, bottom) = (r.left as int, r.top as int, r.bottom as int);
    let more = patches.push(p);
    assert forall|px: int, py: int| covered(more, px, py) == (covered(patches, px, py)
        || r.contains(px, py)) by {
        if covered(patches, px, py) {
            let i = choose|i: int|
                0 <= i < patches.len() && (#[trigger] patches[i]).rect.contains(px, py);
            assert(more[i].rect.contains(px, py));
        }
        if r.contains(px, py) {
            assert(more[patches.len() as int].rect.contains(px, py));
        }
        if covered(more, px, py) {
            let i = choose|i: int|
                0 <= i < more.len() && (#[trigger] more[i]).rect.contains(px, py);
            if i < patches.len() {
                assert(patches[i].rect.contains(px, py));
            }
        }
    }
    assert forall|px: int, py: int|
        inside(w, h, px, py) && passed(px, py, r.right as int, top, bottom) implies #[trigger] same_at(
        shown,
        new,
        w,
        px,
        py,
    ) by {
        if !r.contains(px, py) {
            assert(passed(px, py, x, top, bottom));
            assert(same_at(before, new, w, px, py));
            assert(same_at(shown, before, w, px, py));
        }
    }
    assert forall|px: int, py: int| #[trigger] covered(more, px, py) implies passed(
        px,
        py,
        r.right as int,
        top,
        bottom,
    ) by {
        if covered(patches, px, py) {
            assert(passed(px, py, x, top, bottom));
        }
    }
    assert forall|px: int, py: int|
        inside(w, h, px, py) && !covered(more, px, py) implies #[trigger] same_at(
        shown,
        first,
        w,
        px,
        py,
    ) by {
        assert(!covered(patches, px, py));
        assert(same_at(before, first, w, px, py));
        assert(same_at(shown, before, w, px, py));
    }
}

/// A tile that was not passed yet differs as it did in the first picture.
proof fn lemma_tile_of_first(
    first: Seq<u8>,
    shown: Seq<u8>,
    new: Seq<u8>,
    w: u16,
    h: u16,
    patches: Seq<Patch>,
    x: int,
    top: u16,
    bottom: u16,
    left: int,
)
    requires
        tracks(first, shown, new, w, h, patches, x, top as int, bottom as int),
        0 <= x <= left < w,
        top < bottom <= h,
    ensures
        same_in(shown, new, w, tile(w, h, left, top as int)) == same_in(
            first,
            new,
            w,
            tile(w, h, left, top as int),
        ),
{
    let t = tile(w, h, left, top as int);
    assert forall|px: int, py: int| t.contains(px, py) implies #[trigger] same_at(
        shown,
        first,
        w,
        px,
        py,
    ) by {
        assert(!passed(px, py, x, top as int, bottom as int));
        assert(!covered(patches, px, py));
    }
    lemma_same_transfer(shown, first, new, w, t);
}

/// A span that was not passed yet is one of the first picture too, and ends where it ends
/// there.
proof fn lemma_span_of_first(
    first: Seq<u8>,
    shown: Seq<u8>,
    new: Seq<u8>,
    w: u16,
    h: u16,
    patches: Seq<Patch>,
    r: Rect,
)
    requires
        tracks(
            first,
            shown,
            new,
            w,
            h,
            patches,
            r.left as int,
            r.top as int,
            r.bottom as int,
        ),
        changed_span(shown, new, w, h, r),
        ends(shown, new, w, h, r),
    ensures
        changed_span(first, new, w, h, r),
        ends(first, new, w, h, r),
{
    let x = r.left as int;
    assert forall|left: int|
        r.left <= left < r.right && left % TILE as int == 0 implies !same_in(
        first,
        new,
        w,
        #[trigger] tile(w, h, left, r.top as int),
    ) by {
        lemma_tile_of_first(first, shown, new, w, h, patches, x, r.top, r.bottom, left);
    }
    if r.right < w {
        lemma_tile_of_first(
            first,
            shown,
            new,
            w,
            h,
            patches,
            x,
            r.top,
            r.bottom,
            r.right as int,
        );
    }
}

fn tile_at(w: u16, h: u16, left: u16, top: u16) -> (r: Rect)
    requires
        left < w,
        top < h,
    ensures
        r == tile(w, h, left as int, top as int),
        r.within(w, h),
{
    Rect {
        left,
        top,
        right: if w - left > TILE {
            left + TILE
        } else {
            w
        },
        bottom: if h - top > TILE {
            top + TILE
        } else {
            h
        },
    }
}

/// The changed tiles from `t` on, as one rectangle: as many as follow each other.
fn span(shown: &[u8], new: &[u8], w: u16, h: u16, t: Rect) -> (r: Rect)
    requires
        shown@.len() == w * h * 4,
        new@.len() == w * h * 4,
        t.left < w,
        t.top < h,
        t.left % TILE == 0,
        t.top % TILE == 0,
        t == tile(w, h, t.left as int, t.top as int),
        !same_in(shown@, new@, w, t),
    ensures
        changed_span(shown@, new@, w, h, r),
        ends(shown@, new@, w, h, r),
        r.left == t.left,
        r.top == t.top,
        r.bottom == t.bottom,
{
    let mut end: u16 = t.right;
    while end < w && differ(shown, new, w, h, tile_at(w, h, end, t.top))
        invariant
            shown@.len() == w * h * 4,
            new@.len() == w * h * 4,
            t.left < end <= w,
            t.top < h,
            t.left % TILE == 0,
            end % TILE == 0 || end == w,
            forall|left: int|
                t.left <= left < end && left % TILE as int == 0 ==> !same_in(
                    shown@,
                    new@,
                    w,
                    #[trigger] tile(w, h, left, t.top as int),
                ),
        decreases w - end,
    {
        end = tile_at(w, h, end, t.top).right;
    }
    Rect { left: t.left, top: t.top, right: end, bottom: t.bottom }
}

impl Canvas {
    /// A new surface is black.
    pub fn new(w: u16, h: u16) -> (r: Canvas)
        requires
            w * h * 4 <= usize::MAX,
        ensures
            r.wf(),
            r.w == w,
            r.h == h,
            forall|k: int| 0 <= k < w * h * 4 ==> #[trigger] r.shown@[k] == 0,
    {
        proof {
            assert(0 <= w * h) by (nonlinear_arith);
        }
        let mut shown: Vec<u8> = Vec::new();
        shown.resize(w as usize * h as usize * 4, 0);
        Canvas { w, h, shown }
    }

    /// Brings the client's picture up to date with `new`, as far as the budget goes: what
    /// changed, from the top, as rows of tiles. One patch goes out however large it is;
    /// what does not fit is left for the next frame.
    #[verifier::spinoff_prover]
    #[verifier::rlimit(40)]
    pub fn update(&mut self, new: &[u8], coding: Coding, budget: usize) -> (r: Vec<Patch>)
        requires
            old(self).wf(),
            new@.len() == old(self).w * old(self).h * 4,
        ensures
            old(self).updated(new@, coding, budget, r@, *final(self)),
    {
        let w: u16 = self.w;
        let h: u16 = self.h;
        let ghost first = self.shown@;
        let mut patches: Vec<Patch> = Vec::new();
        let mut used: usize = 0;
        let mut top: u16 = 0;
        while top < h
            invariant
                self.w == w,
                self.h == h,
                new@.len() == w * h * 4,
                top <= h,
                top % TILE == 0 || top == h,
                tracks(first, self.shown@, new@, w, h, patches@, 0, top as int, top as int),
                all_changed(first, new@, coding, w, h, patches@),
                behind(patches@, 0, top as int),
                used == spent(patches@),
                patches@.len() <= 1 || used <= budget,
                first == old(self).shown@,
                w == old(self).w,
                h == old(self).h,
            decreases h - top,
        {
            let bottom: u16 = if h - top > TILE {
                top + TILE
            } else {
                h
            };
            let mut x: u16 = 0;
            proof {
                lemma_band(
                    first,
                    self.shown@,
                    new@,
                    w,
                    h,
                    patches@,
                    top as int,
                    bottom as int,
                );
            }
            while x < w
                invariant
                    self.w == w,
                    self.h == h,
                    new@.len() == w * h * 4,
                    top < h,
                    top % TILE == 0,
                    bottom == tile(w, h, x as int, top as int).bottom,
                    x <= w,
                    x % TILE == 0 || x == w,
                    starts_afresh(first, new@, w, h, x as int, top as int),
                    tracks(
                        first,
                        self.shown@,
                        new@,
                        w,
                        h,
                        patches@,
                        x as int,
                        top as int,
                        bottom as int,
                    ),
                    all_changed(first, new@, coding, w, h, patches@),
                    behind(patches@, x as int, top as int),
                    used == spent(patches@),
                    patches@.len() <= 1 || used <= budget,
                    first == old(self).shown@,
                    w == old(self).w,
                    h == old(self).h,
                decreases w - x,
            {
                let t: Rect = tile_at(w, h, x, top);
                proof {
                    lemma_tile_of_first(
                        first,
                        self.shown@,
                        new@,
                        w,
                        h,
                        patches@,
                        x as int,
                        top,
                        bottom,
                        x as int,
                    );
                }
                if !differ(self.shown.as_slice(), new, w, h, t) {
                    proof {
                        lemma_pass_same(
                            first,
                            self.shown@,
                            new@,
                            w,
                            h,
                            patches@,
                            x as int,
                            t,
                        );
                    }
                    x = t.right;
                } else {
                    let rect: Rect = span(self.shown.as_slice(), new, w, h, t);
                    proof {
                        lemma_span_of_first(first, self.shown@, new@, w, h, patches@, rect);
                        lemma_size(rect);
                    }
                    let data: Vec<u8> = coded(coding, new, w, h, rect);
                    let size: usize = data.len();
                    if patches.len() > 0 && (used > budget || size > budget - used) {
                        proof {
                            assert(old(self).full(
                                new@,
                                coding,
                                budget,
                                patches@,
                                *self,
                                rect,
                            ));
                            lemma_tracked(
                                first,
                                self.shown@,
                                new@,
                                w,
                                h,
                                patches@,
                                x as int,
                                top as int,
                                bottom as int,
                            );
                        }
                        return patches;
                    }
                    let ghost before = self.shown@;
                    copy(&mut self.shown, new, w, h, rect);
                    let patch = Patch { rect, data };
                    proof {
                        lemma_pass_patch(
                            first,
                            before,
                            self.shown@,
                            new@,
                            w,
                            h,
                            patches@,
                            patch,
                        );
                        assert(patches@.push(patch).drop_last() =~= patches@);
                        lemma_one_more_changed(first, new@, coding, w, h, patches@, patch);
                    }
                    patches.push(patch);
                    used = used + size;
                    x = rect.right;
                }
            }
            proof {
                lemma_next_band(
                    first,
                    self.shown@,
                    new@,
                    w,
                    h,
                    patches@,
                    top as int,
                    bottom as int,
                );
            }
            top = bottom;
        }
        proof {
            lemma_tracked(
                first,
                self.shown@,
                new@,
                w,
                h,
                patches@,
                0,
                top as int,
                top as int,
            );
            assert forall|px: int, py: int| inside(w, h, px, py) implies #[trigger] same_at(
                self.shown@,
                new@,
                w,
                px,
                py,
            ) by {
                assert(passed(px, py, 0, top as int, top as int));
            }
            lemma_equal(self.shown@, new@, w, h);
        }
        patches
    }
}

proof fn lemma_size(r: Rect)
    requires
        r.left < r.right,
        r.top < r.bottom <= r.top + TILE,
    ensures
        0 < r.width() * r.height() <= 65535 * 64,
{
    assert(0 < r.width() * r.height() <= 65535 * 64) by (nonlinear_arith)
        requires
            0 < r.width() <= 65535,
            0 < r.height() <= 64,
    ;
}

/// Before the first column nothing of a band is passed.
proof fn lemma_band(
    first: Seq<u8>,
    shown: Seq<u8>,
    new: Seq<u8>,
    w: u16,
    h: u16,
    patches: Seq<Patch>,
    top: int,
    bottom: int,
)
    requires
        tracks(first, shown, new, w, h, patches, 0, top, top),
    ensures
        tracks(first, shown, new, w, h, patches, 0, top, bottom),
{
    assert forall|px: int, py: int| #[trigger] covered(patches, px, py) implies passed(
        px,
        py,
        0,
        top,
        bottom,
    ) by {
        assert(passed(px, py, 0, top, top));
    }
}

/// Behind the last column all of a band is passed.
proof fn lemma_next_band(
    first: Seq<u8>,
    shown: Seq<u8>,
    new: Seq<u8>,
    w: u16,
    h: u16,
    patches: Seq<Patch>,
    top: int,
    bottom: int,
)
    requires
        tracks(first, shown, new, w, h, patches, w as int, top, bottom),
        top < bottom,
    ensures
        tracks(first, shown, new, w, h, patches, 0, bottom, bottom),
{
    assert forall|px: int, py: int| #[trigger] covered(patches, px, py) implies passed(
        px,
        py,
        0,
        bottom,
        bottom,
    ) by {
        assert(passed(px, py, w as int, top, bottom));
    }
    assert forall|px: int, py: int|
        inside(w, h, px, py) && passed(px, py, 0, bottom, bottom) implies #[trigger] same_at(
        shown,
        new,
        w,
        px,
        py,
    ) by {
        assert(passed(px, py, w as int, top, bottom));
    }
}

/// What is in a patch is as in the new picture.
proof fn lemma_tracked(
    first: Seq<u8>,
    shown: Seq<u8>,
    new: Seq<u8>,
    w: u16,
    h: u16,
    patches: Seq<Patch>,
    x: int,
    top: int,
    bottom: int,
)
    requires
        tracks(first, shown, new, w, h, patches, x, top, bottom),
    ensures
        forall|px: int, py: int|
            inside(w, h, px, py) && covered(patches, px, py) ==> #[trigger] same_at(
                shown,
                new,
                w,
                px,
                py,
            ),
        forall|px: int, py: int|
            inside(w, h, px, py) && !covered(patches, px, py) ==> #[trigger] same_at(
                shown,
                first,
                w,
                px,
                py,
            ),
{
}

// ------------------------------------------------------------ laws

/// The value of colour `c` at a place, as a client reads it out of raw planes.
pub open spec fn unpacked(data: Seq<u8>, r: Rect, x: int, y: int, c: int) -> u8 {
    data[1 + (2 - c) * (r.width() * r.height()) + (y - r.top) * r.width() + (x - r.left)]
}

/// The same, of a rectangle that is written row by row.
pub open spec fn read(data: Seq<u8>, r: Rect, x: int, y: int, c: int) -> u8 {
    data[4 * ((y - r.top) * r.width() + (x - r.left)) + c]
}

/// A packed rectangle holds the colours of the picture: 2 is red, 1 green and 0 blue.
pub proof fn law_planes_carry_the_picture(
    picture: Seq<u8>,
    w: u16,
    r: Rect,
    x: int,
    y: int,
    c: int,
)
    requires
        r.contains(x, y),
        0 <= c < 3,
    ensures
        unpacked(planes(picture, w, r), r, x, y, c) == picture[position(w, x, y) + c],
{
    let rw = r.width();
    let area = rw * r.height();
    let k = (y - r.top) * rw + (x - r.left);
    assert(0 <= k < area) by (nonlinear_arith)
        requires
            k == (y - r.top) * rw + (x - r.left),
            0 <= x - r.left < rw,
            0 <= y - r.top < r.height(),
            area == rw * r.height(),
    ;
    lemma_fundamental_div_mod_converse(k, rw, y - r.top, x - r.left);
    assert(plane(picture, w, r, c)[k] == picture[position(w, x, y) + c]);
    let data = planes(picture, w, r);
    assert((2 - c) * area == (if c == 2 {
        0
    } else if c == 1 {
        area
    } else {
        2 * area
    })) by (nonlinear_arith)
        requires
            0 <= c < 3,
    ;
    assert(data[1 + (2 - c) * area + k] == plane(picture, w, r, c)[k]);
}

/// What the client has is what is kept here: wherever a patch goes, its colours are those
/// of the picture that the update leaves. Of run-length coding it is said in `updated`
/// that the outside coder got those colours.
pub proof fn law_client_has_what_is_kept(
    before: Canvas,
    new: Seq<u8>,
    coding: Coding,
    budget: usize,
    patches: Seq<Patch>,
    after: Canvas,
    i: int,
    x: int,
    y: int,
    c: int,
)
    requires
        before.updated(new, coding, budget, patches, after),
        0 <= i < patches.len(),
        patches[i].rect.contains(x, y),
        0 <= c < 3,
    ensures
        ({
            let (data, r) = (patches[i].data@, patches[i].rect);
            let kept = after.shown@[position(before.w, x, y) + c];
            match coding {
                Coding::Raw => unpacked(data, r, x, y, c) == kept,
                Coding::Off => read(data, r, x, y, c) == kept,
                Coding::Rle => read(rows(new, before.w, r), r, x, y, c) == kept,
            }
        }),
{
    law_planes_carry_the_picture(new, before.w, patches[i].rect, x, y, c);
    law_rows_carry_the_picture(new, before.w, patches[i].rect, x, y, c);
    assert(covered(patches, x, y));
    assert(changed_span(before.shown@, new, before.w, before.h, patches[i].rect));
    assert(inside(before.w, before.h, x, y));
    assert(same_at(after.shown@, new, before.w, x, y));
}

/// Something goes out exactly if something changed.
pub proof fn law_only_changes_go_out(
    before: Canvas,
    new: Seq<u8>,
    coding: Coding,
    budget: usize,
    patches: Seq<Patch>,
    after: Canvas,
)
    requires
        before.wf(),
        new.len() == before.w * before.h * 4,
        before.updated(new, coding, budget, patches, after),
    ensures
        patches.len() == 0 <==> before.shown@ == new,
{
    let (w, h) = (before.w, before.h);
    if patches.len() == 0 {
        assert forall|x: int, y: int| inside(w, h, x, y) implies #[trigger] same_at(
            before.shown@,
            new,
            w,
            x,
            y,
        ) by {
            assert(!covered(patches, x, y));
            assert(same_at(after.shown@, before.shown@, w, x, y));
        }
        lemma_equal(before.shown@, new, w, h);
    } else {
        let r = patches[0].rect;
        assert(changed_span(before.shown@, new, w, h, r));
        assert(!same_in(before.shown@, new, w, tile(w, h, r.left as int, r.top as int)));
    }
}

/// Pixels that differ, in the first `n` of a picture.
pub open spec fn stale(a: Seq<u8>, b: Seq<u8>, w: u16, n: nat) -> nat
    decreases n,
{
    if n == 0 {
        0
    } else {
        let k = n - 1;
        stale(a, b, w, k as nat) + if same_at(a, b, w, k % (w as int), k / (w as int)) {
            0nat
        } else {
            1nat
        }
    }
}

proof fn lemma_stale_shrinks(
    a: Seq<u8>,
    b: Seq<u8>,
    new: Seq<u8>,
    w: u16,
    h: u16,
    n: nat,
    k0: int,
)
    requires
        w > 0,
        n <= w * h,
        forall|x: int, y: int|
            inside(w, h, x, y) && same_at(a, new, w, x, y) ==> #[trigger] same_at(
                b,
                new,
                w,
                x,
                y,
            ),
        !same_at(a, new, w, k0 % (w as int), k0 / (w as int)),
        same_at(b, new, w, k0 % (w as int), k0 / (w as int)),
    ensures
        stale(b, new, w, n) <= stale(a, new, w, n),
        0 <= k0 < n ==> stale(b, new, w, n) < stale(a, new, w, n),
    decreases n,
{
    if n > 0 {
        let k = n - 1;
        lemma_stale_shrinks(a, b, new, w, h, k as nat, k0);
        let x = k % (w as int);
        let y = k / (w as int);
        lemma_fundamental_div_mod(k, w as int);
        assert(0 <= y < h) by (nonlinear_arith)
            requires
                k == w * y + x,
                0 <= x < w,
                0 <= k < w * h,
                0 < w,
        ;
        assert(inside(w, h, x, y));
    }
}

/// While the screen stands still, every update leaves fewer pixels out of date, until
/// none is: however small the budget, the client's picture catches up.
pub proof fn law_picture_catches_up(
    before: Canvas,
    new: Seq<u8>,
    coding: Coding,
    budget: usize,
    patches: Seq<Patch>,
    after: Canvas,
)
    requires
        before.wf(),
        new.len() == before.w * before.h * 4,
        before.updated(new, coding, budget, patches, after),
        before.shown@ != new,
    ensures
        ({
            let n = (before.w * before.h) as nat;
            stale(after.shown@, new, before.w, n) < stale(before.shown@, new, before.w, n)
        }),
{
    let (w, h) = (before.w, before.h);
    law_only_changes_go_out(before, new, coding, budget, patches, after);
    let r = patches[0].rect;
    assert(changed_span(before.shown@, new, w, h, r));
    let t = tile(w, h, r.left as int, r.top as int);
    assert(!same_in(before.shown@, new, w, t));
    let (x, y) = choose|x: int, y: int|
        t.contains(x, y) && !#[trigger] same_at(before.shown@, new, w, x, y);
    assert(r.contains(x, y));
    assert(covered(patches, x, y));
    assert(same_at(after.shown@, new, w, x, y));
    let k0 = y * w + x;
    lemma_position(w, h, x, y);
    lemma_fundamental_div_mod_converse(k0, w as int, y, x);
    assert forall|u: int, v: int|
        inside(w, h, u, v) && same_at(before.shown@, new, w, u, v) implies #[trigger] same_at(
        after.shown@,
        new,
        w,
        u,
        v,
    ) by {
        if !covered(patches, u, v) {
            assert(same_at(after.shown@, before.shown@, w, u, v));
        }
    }
    lemma_stale_shrinks(before.shown@, after.shown@, new, w, h, (w * h) as nat, k0);
}

/// Patches are rows of tiles of 64 pixels: each begins at a multiple of 64 across and along,
/// is 64 high or reaches the bottom, ends at a multiple of 64 or at the right edge, and
/// has, in every 64 columns, a pixel that changed.
pub proof fn law_patches_are_rows_of_tiles(
    before: Canvas,
    new: Seq<u8>,
    coding: Coding,
    budget: usize,
    patches: Seq<Patch>,
    after: Canvas,
    i: int,
    x: int,
)
    requires
        before.updated(new, coding, budget, patches, after),
        0 <= i < patches.len(),
        patches[i].rect.left <= x < patches[i].rect.right,
        x % 64 == 0,
    ensures
        ({
            let r = patches[i].rect;
            &&& r.left % 64 == 0
            &&& r.top % 64 == 0
            &&& r.bottom == r.top + 64 || r.bottom == before.h && r.bottom - r.top <= 64
            &&& r.right % 64 == 0 || r.right == before.w
            &&& r.left < r.right <= before.w
            &&& r.top < r.bottom <= before.h
            &&& exists|u: int, v: int|
                x <= u < x + 64 && u < r.right && r.top <= v < r.bottom && !#[trigger] same_at(
                    before.shown@,
                    new,
                    before.w,
                    u,
                    v,
                )
        }),
{
    let r = patches[i].rect;
    let (w, h) = (before.w, before.h);
    assert(whole_span(before.shown@, new, w, h, r));
    let t = tile(w, h, x, r.top as int);
    assert(!same_in(before.shown@, new, w, t));
    let (u, v) = choose|u: int, v: int|
        t.contains(u, v) && !#[trigger] same_at(before.shown@, new, w, u, v);
    assert(x + 64 <= r.right || r.right == w);
}

/// What a row of patches takes is the sum of what each takes.
pub proof fn law_budget_adds_up(patches: Seq<Patch>, p: Patch)
    ensures
        spent(Seq::empty()) == 0,
        spent(patches.push(p)) == spent(patches) + p.data@.len(),
{
    assert(patches.push(p).drop_last() =~= patches);
}

/// A pixel is the same exactly if its four bytes are, and its bytes are where a row of the
/// picture's width puts them.
pub proof fn law_pixels_are_compared_whole(a: Seq<u8>, b: Seq<u8>, w: u16, x: int, y: int)
    ensures
        same_at(a, b, w, x, y) <==> forall|c: int|
            0 <= c < 4 ==> #[trigger] a[(y * w + x) * 4 + c] == b[(y * w + x) * 4 + c],
{
    let p = (y * w + x) * 4;
    if forall|c: int| 0 <= c < 4 ==> #[trigger] a[(y * w + x) * 4 + c] == b[(y * w + x) * 4 + c] {
        assert(a[p + 0] == b[p + 0]);
        assert(a[p + 1] == b[p + 1]);
        assert(a[p + 2] == b[p + 2]);
        assert(a[p + 3] == b[p + 3]);
    }
}

/// Patches come from the top and from left to right, and are as wide as the change: the 64
/// columns to the left of one and those to the right of it are as they were.
pub proof fn law_patches_are_as_wide_as_the_change(
    before: Canvas,
    new: Seq<u8>,
    coding: Coding,
    budget: usize,
    patches: Seq<Patch>,
    after: Canvas,
    i: int,
    j: int,
    x: int,
    y: int,
)
    requires
        before.updated(new, coding, budget, patches, after),
        0 <= i < j < patches.len(),
        0 <= x < before.w,
        patches[i].rect.top <= y < patches[i].rect.bottom,
        patches[i].rect.left - 64 <= x < patches[i].rect.left || patches[i].rect.right <= x
            < patches[i].rect.right + 64,
    ensures
        patches[i].rect.bottom <= patches[j].rect.top || patches[i].rect.top == patches[j].rect.top
            && patches[i].rect.right < patches[j].rect.left,
        same_at(before.shown@, new, before.w, x, y),
{
    let (a, b) = (patches[i].rect, patches[j].rect);
    let (w, h) = (before.w, before.h);
    assert(whole_span(before.shown@, new, w, h, a));
    assert(whole_span(before.shown@, new, w, h, b));
    assert(comes_before(a, b));
    if x < a.left {
        assert(tile(w, h, a.left - TILE, a.top as int).contains(x, y));
    } else {
        assert(tile(w, h, a.right as int, a.top as int).contains(x, y));
    }
    if a.bottom > b.top && a.right == b.left {
        assert(same_in(before.shown@, new, w, tile(w, h, b.left - TILE, b.top as int)));
        let last = tile(w, h, a.right - TILE, a.top as int);
        assert(a.right % 64 == 0);
        assert((a.right - TILE) % 64 == 0);
        assert(a.left <= a.right - TILE);
        assert(!same_in(before.shown@, new, w, last));
    }
}

/// More than one patch keeps to the budget. Where a place is still not up to date, the next
/// change, which is not behind that place, would have gone over it.
pub proof fn law_only_a_full_budget_leaves_something_out(
    before: Canvas,
    new: Seq<u8>,
    coding: Coding,
    budget: usize,
    patches: Seq<Patch>,
    after: Canvas,
    x: int,
    y: int,
)
    requires
        before.updated(new, coding, budget, patches, after),
        0 <= x < before.w,
        0 <= y < before.h,
        !same_at(after.shown@, new, before.w, x, y),
    ensures
        patches.len() > 0,
        patches.len() > 1 ==> spent(patches) <= budget,
        exists|r: Rect|
            {
                &&& r.left < r.right <= before.w
                &&& r.top < r.bottom <= before.h
                &&& spent(patches) + (#[trigger] coded_as(coding, new, before.w, r)).len() > budget
                &&& y >= r.bottom || y >= r.top && x >= r.left
                &&& forall|i: int|
                    0 <= i < patches.len() ==> (#[trigger] patches[i]).rect.bottom <= r.top
                        || patches[i].rect.top == r.top && patches[i].rect.right <= r.left
            },
{
    assert(inside(before.w, before.h, x, y));
    assert(after.shown@ != new);
    let r = choose|r: Rect| #[trigger] before.full(new, coding, budget, patches, after, r);
    assert(coded_as(coding, new, before.w, r).len() + spent(patches) > budget);
    assert forall|i: int| 0 <= i < patches.len() implies (#[trigger] patches[i]).rect.bottom
        <= r.top || patches[i].rect.top == r.top && patches[i].rect.right <= r.left by {
        assert(comes_before(patches[i].rect, r));
    }
}

} // verus!
