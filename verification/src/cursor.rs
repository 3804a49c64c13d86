//! Cursor overlay: the X server leaves the pointer out of a grabbed frame, so it
//! is blended in.

use vstd::arithmetic::div_mod::lemma_fundamental_div_mod_converse;
use vstd::prelude::*;

verus! {

/// The pointer as the X server describes it.
pub struct CursorImage {
    /// Where the hot spot is on the screen.
    pub x: i16,
    pub y: i16,
    pub width: u16,
    pub height: u16,
    /// Where the hot spot is in the image.
    pub xhot: u16,
    pub yhot: u16,
    /// Premultiplied ARGB, row by row.
    pub pixels: Vec<u32>,
}

impl CursorImage {
    /// Screen column of the image's left edge.
    pub open spec fn left(self) -> int {
        self.x - self.xhot
    }

    /// Screen row of the image's top edge.
    pub open spec fn top(self) -> int {
        self.y - self.yhot
    }

    /// Whether the image covers the screen position.
    pub open spec fn covers(self, px: int, py: int) -> bool {
        &&& self.left() <= px < self.left() + self.width
        &&& self.top() <= py < self.top() + self.height
    }

    /// Index of the image's pixel at a screen position that it covers.
    pub open spec fn cell(self, px: int, py: int) -> int {
        (py - self.top()) * self.width + (px - self.left())
    }
}

/// Opacity of a pixel.
pub open spec fn alpha(p: u32) -> u32 {
    p / 16777216
}

/// Blue, green or red part of a pixel, for `c` zero, one and two.
pub open spec fn channel(p: u32, c: int) -> u32 {
    if c == 0 {
        p % 256
    } else if c == 1 {
        p / 256 % 256
    } else {
        p / 65536 % 256
    }
}

/// A premultiplied colour over what is there: `src + dst * (1 - a)`, at most 255.
pub open spec fn over(src: u32, dst: u8, a: u32) -> u8 {
    let sum = src + dst * (255 - a) / 255;
    if sum > 255 {
        255
    } else {
        sum as u8
    }
}

/// Byte `k` of the frame with the first `done` pixels of the cursor drawn: those
/// on screen and not fully transparent change blue, green and red of the frame's
/// pixel below them, and nothing else changes.
pub open spec fn drawn(
    frame: Seq<u8>,
    fw: int,
    fh: int,
    cur: CursorImage,
    done: int,
    k: int,
) -> u8 {
    let px = k / 4 % fw;
    let py = k / 4 / fw;
    let p = cur.pixels@[cur.cell(px, py)];
    if fw > 0 && py < fh && k % 4 < 3 && cur.covers(px, py) && cur.cell(px, py) < done && alpha(p)
        != 0 {
        over(channel(p, k % 4), frame[k], alpha(p))
    } else {
        frame[k]
    }
}

/// Whether every pixel of the cursor that is on screen is there, and so is the
/// frame's pixel below it unless it is fully transparent.
pub open spec fn drawable(frame: Seq<u8>, fw: int, fh: int, cur: CursorImage) -> bool {
    forall|px: int, py: int|
        0 <= px < fw && 0 <= py < fh && cur.covers(px, py) ==> {
            &&& #[trigger] cur.cell(px, py) < cur.pixels@.len()
            &&& alpha(cur.pixels@[cur.cell(px, py)]) != 0 ==> (py * fw + px) * 4 + 2 < frame.len()
        }
}

fn blend(src: u32, dst: u8, a: u32) -> (r: u8)
    requires
        src <= 255,
        a <= 255,
    ensures
        r == over(src, dst, a),
{
    let inv: u32 = 255 - a;
    proof {
        assert(0 <= dst * inv <= 255 * 255) by (nonlinear_arith)
            requires
                0 <= dst <= 255,
                0 <= inv <= 255,
        ;
    }
    let sum: u32 = src + dst as u32 * inv / 255;
    if sum > 255 {
        255
    } else {
        sum as u8
    }
}

/// Drawing pixel `done` of the cursor, at frame pixel `at`, extends what is drawn.
proof fn lemma_draw_one(
    frame: Seq<u8>,
    fw: int,
    fh: int,
    cur: CursorImage,
    cx: int,
    cy: int,
    k: int,
)
    requires
        fw > 0,
        0 <= cx < cur.width,
        0 <= cy < cur.height,
        0 <= k < frame.len(),
    ensures
        ({
            let done = cy * cur.width + cx;
            let px = cur.left() + cx;
            let py = cur.top() + cy;
            let p = cur.pixels@[done];
            let here = 0 <= px < fw && 0 <= py < fh && alpha(p) != 0 && k / 4 == py * fw + px && k
                % 4 < 3;
            drawn(frame, fw, fh, cur, done + 1, k) == if here {
                over(channel(p, k % 4), frame[k], alpha(p))
            } else {
                drawn(frame, fw, fh, cur, done, k)
            }
        }),
        ({
            let done = cy * cur.width + cx;
            let px = cur.left() + cx;
            let py = cur.top() + cy;
            0 <= px < fw && 0 <= py < fh && k / 4 == py * fw + px ==> drawn(
                frame,
                fw,
                fh,
                cur,
                done,
                k,
            ) == frame[k]
        }),
{
    let i = k / 4;
    let qx = i % fw;
    let qy = i / fw;
    let done = cy * cur.width + cx;
    let px = cur.left() + cx;
    let py = cur.top() + cy;
    let w = cur.width as int;
    assert(0 <= qx < fw && 0 <= qy && i == qy * fw + qx) by {
        vstd::arithmetic::div_mod::lemma_fundamental_div_mod(i, fw);
        vstd::arithmetic::div_mod::lemma_div_pos_is_pos(i, fw);
        vstd::arithmetic::mul::lemma_mul_is_commutative(fw, qy);
    }
    if 0 <= px < fw && 0 <= py < fh && i == py * fw + px {
        lemma_fundamental_div_mod_converse(i, fw, py, px);
        assert(cur.cell(qx, qy) == done);
    }
    if cur.covers(qx, qy) && cur.cell(qx, qy) == done {
        let ry = qy - cur.top();
        let rx = qx - cur.left();
        lemma_fundamental_div_mod_converse(done, w, ry, rx);
        lemma_fundamental_div_mod_converse(done, w, cy, cx);
        assert(ry == cy && rx == cx);
    }
}

/// Alpha-blends the cursor onto a frame of `fw` by `fh` pixels of four bytes each:
/// blue, green, red and one that is left alone.
pub fn draw_cursor(frame: &mut [u8], fw: usize, fh: usize, cur: &CursorImage)
    requires
        fw <= i32::MAX,
        fh <= i32::MAX,
        drawable(old(frame)@, fw as int, fh as int, *cur),
    ensures
        final(frame)@.len() == old(frame)@.len(),
        forall|k: int|
            0 <= k < old(frame)@.len() ==> #[trigger] final(frame)@[k] == drawn(
                old(frame)@,
                fw as int,
                fh as int,
                *cur,
                cur.width * cur.height,
                k,
            ),
{
    let ox: i32 = cur.x as i32 - cur.xhot as i32;
    let oy: i32 = cur.y as i32 - cur.yhot as i32;
    let cw: usize = cur.width as usize;
    let ch: usize = cur.height as usize;
    let ghost was = frame@;
    let mut cy: usize = 0;
    while cy < ch
        invariant
            cw == cur.width,
            ch == cur.height,
            cy <= ch,
            ox == cur.left(),
            oy == cur.top(),
            fw <= i32::MAX,
            fh <= i32::MAX,
            frame@.len() == was.len(),
            drawable(was, fw as int, fh as int, *cur),
            forall|k: int|
                0 <= k < was.len() ==> #[trigger] frame@[k] == drawn(
                    was,
                    fw as int,
                    fh as int,
                    *cur,
                    cy * cw,
                    k,
                ),
        decreases ch - cy,
    {
        let y: i32 = oy + cy as i32;
        let mut cx: usize = 0;
        while cx < cw
            invariant
                cw == cur.width,
                ch == cur.height,
                cy < ch,
                cx <= cw,
                y == cur.top() + cy,
                ox == cur.left(),
                fw <= i32::MAX,
                fh <= i32::MAX,
                frame@.len() == was.len(),
                drawable(was, fw as int, fh as int, *cur),
                forall|k: int|
                    0 <= k < was.len() ==> #[trigger] frame@[k] == drawn(
                        was,
                        fw as int,
                        fh as int,
                        *cur,
                        cy * cw + cx,
                        k,
                    ),
            decreases cw - cx,
        {
            let x: i32 = ox + cx as i32;
            let ghost before = frame@;
            let ghost done = cy * cw + cx;
            if 0 <= y && y < fh as i32 && 0 <= x && x < fw as i32 {
                proof {
                    assert(cur.covers(x as int, y as int));
                    assert(cur.cell(x as int, y as int) == done);
                    assert(done < cur.pixels.len());
                    assert(0 <= cy * cw) by (nonlinear_arith)
                        requires
                            0 <= cy,
                            0 <= cw,
                    ;
                }
                let p: u32 = cur.pixels[cy * cw + cx];
                let a: u32 = p / 16777216;
                if a != 0 {
                    proof {
                        assert(0 <= y * fw) by (nonlinear_arith)
                            requires
                                0 <= y,
                                0 <= fw,
                        ;
                        assert((y * fw + x) * 4 + 2 < frame.len());
                    }
                    let i: usize = (y as usize * fw + x as usize) * 4;
                    frame[i] = blend(p % 256, frame[i], a);
                    frame[i + 1] = blend(p / 256 % 256, frame[i + 1], a);
                    frame[i + 2] = blend(p / 65536 % 256, frame[i + 2], a);
                }
            }
            proof {
                assert forall|k: int| 0 <= k < was.len() implies #[trigger] frame@[k] == drawn(
                    was,
                    fw as int,
                    fh as int,
                    *cur,
                    done + 1,
                    k,
                ) by {
                    if fw > 0 {
                        lemma_draw_one(was, fw as int, fh as int, *cur, cx as int, cy as int, k);
                    }
                    assert(before[k] == drawn(was, fw as int, fh as int, *cur, done, k));
                }
            }
            cx += 1;
        }
        proof {
            assert(cy * cw + cw == (cy + 1) * cw) by (nonlinear_arith);
        }
        cy += 1;
    }
    proof {
        assert(ch * cw == cur.width * cur.height) by (nonlinear_arith)
            requires
                ch == cur.height,
                cw == cur.width,
        ;
    }
}

/// A frame keeps every byte that the cursor does not cover, and the fourth byte of
/// every pixel.
pub proof fn law_cursor_leaves_the_rest(
    frame: Seq<u8>,
    fw: int,
    fh: int,
    cur: CursorImage,
    done: int,
    k: int,
)
    requires
        !cur.covers(k / 4 % fw, k / 4 / fw) || k % 4 == 3,
    ensures
        drawn(frame, fw, fh, cur, done, k) == frame[k],
{
}

/// An opaque pixel replaces what is below it.
pub proof fn law_opaque_replaces(src: u32, dst: u8)
    requires
        src <= 255,
    ensures
        over(src, dst, 255) == src,
{
}

/// The colour of a premultiplied pixel is at most its opacity, and then nothing is
/// cut off: the result is `src + dst * (1 - a)`.
pub proof fn law_premultiplied_never_clips(src: u32, dst: u8, a: u32)
    requires
        src <= a <= 255,
    ensures
        over(src, dst, a) == src + dst * (255 - a) / 255,
{
    let inv: int = 255 - a;
    assert(dst * inv <= 255 * inv) by (nonlinear_arith)
        requires
            0 <= dst <= 255,
            0 <= inv,
    ;
    assert(0 <= dst * inv) by (nonlinear_arith)
        requires
            0 <= dst,
            0 <= inv,
    ;
    assert(dst * inv / 255 <= inv);
}

/// The pixel in column `i` and row `j` of the image is drawn `i - xhot` to the right of the
/// pointer and `j - yhot` below it, so the hot spot is on the pointer's place. There blue,
/// green and red become the pixel's own plus what was there times the opacity that is
/// left, at most 255; a pixel without opacity changes nothing.
pub proof fn law_image_is_drawn_round_its_hot_spot(
    frame: Seq<u8>,
    fw: int,
    fh: int,
    cur: CursorImage,
    i: int,
    j: int,
    c: int,
)
    requires
        0 <= i < cur.width,
        0 <= j < cur.height,
        0 <= cur.x - cur.xhot + i < fw,
        0 <= cur.y - cur.yhot + j < fh,
        0 <= c < 3,
    ensures
        ({
            let p = cur.pixels@[j * cur.width + i];
            let k = ((cur.y - cur.yhot + j) * fw + (cur.x - cur.xhot + i)) * 4 + c;
            let a = p as int / 0x100_0000;
            let own = (if c == 0 {
                p as int
            } else if c == 1 {
                p as int / 0x100
            } else {
                p as int / 0x1_0000
            }) % 0x100;
            let sum = own + frame[k] * (255 - a) / 255;
            drawn(frame, fw, fh, cur, cur.width * cur.height, k) as int == if a == 0 {
                frame[k] as int
            } else if sum > 255 {
                255
            } else {
                sum
            }
        }),
{
    let px = cur.x - cur.xhot + i;
    let py = cur.y - cur.yhot + j;
    let k = (py * fw + px) * 4 + c;
    assert(k / 4 == py * fw + px);
    lemma_fundamental_div_mod_converse(k / 4, fw, py, px);
    assert(0 <= j * cur.width + i < cur.width * cur.height) by (nonlinear_arith)
        requires
            0 <= i < cur.width,
            0 <= j < cur.height,
    ;
    assert(cur.cell(px, py) == j * cur.width + i);
    let p = cur.pixels@[j * cur.width + i];
    assert(0 <= frame[k] * (255 - p as int / 0x100_0000)) by (nonlinear_arith)
        requires
            0 <= frame[k],
            0 <= 255 - p as int / 0x100_0000,
    ;
}

/// Where the image is not, every byte of the frame stays, and so does the fourth byte of
/// every pixel.
pub proof fn law_cursor_is_nowhere_else(
    frame: Seq<u8>,
    fw: int,
    fh: int,
    cur: CursorImage,
    px: int,
    py: int,
    c: int,
)
    requires
        0 <= px < fw,
        0 <= py < fh,
        0 <= c < 4,
        c == 3 || px < cur.x - cur.xhot || px >= cur.x - cur.xhot + cur.width || py < cur.y
            - cur.yhot || py >= cur.y - cur.yhot + cur.height,
    ensures
        ({
            let k = (py * fw + px) * 4 + c;
            drawn(frame, fw, fh, cur, cur.width * cur.height, k) == frame[k]
        }),
{
    let k = (py * fw + px) * 4 + c;
    assert(k / 4 == py * fw + px && k % 4 == c);
    lemma_fundamental_div_mod_converse(k / 4, fw, py, px);
}

/// The hot spot of the image is drawn where the pointer is.
pub proof fn law_hot_spot_is_on_the_pointer(cur: CursorImage)
    requires
        cur.xhot < cur.width,
        cur.yhot < cur.height,
    ensures
        cur.covers(cur.x as int, cur.y as int),
        cur.cell(cur.x as int, cur.y as int) == cur.yhot * cur.width + cur.xhot,
{
}

} // verus!
