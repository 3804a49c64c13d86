//! How a changed rectangle is written for a client that refuses H.264, and what of it
//! the environment can change to look into trouble with a client.

use crate::text::same;
use crate::tiles::{lemma_position, pack, plane, planes, position, Rect};
use vstd::arithmetic::div_mod::lemma_fundamental_div_mod_converse;
use vstd::prelude::*;

verus! {

/// A way to write a rectangle.
#[derive(Clone, Copy, PartialEq, Eq, Structural, Debug)]
pub enum Coding {
    /// Colour planes with run-length coding.
    Rle,
    /// Colour planes as they are.
    Raw,
    /// No planes: the pixels row by row.
    Off,
}

/// A rectangle of a picture, row by row, four bytes a pixel.
pub open spec fn rows(picture: Seq<u8>, w: u16, r: Rect) -> Seq<u8> {
    Seq::new(
        (4 * (r.width() * r.height())) as nat,
        |k: int| plane(picture, w, r, k % 4)[k / 4],
    )
}

/// The planar bitmap with run-length coding of `width` by `height` pixels of four bytes:
/// blue, green, red, and one that does not count.
pub uninterp spec fn rle_planes(width: usize, height: usize, pixels: Seq<u8>) -> Seq<u8>;

/// `ironrdp_graphics::rdp6::BitmapStreamEncoder::encode_bitmap`, with blue first and with
/// run-length coding. What it writes depends on the size and the pixels alone. It fails
/// only where pixels or room run out. A segment of run-length coding takes at most twice
/// as many bytes as it stands for pixels of a plane, so six bytes a pixel and one for the
/// header are room enough. What a decoder makes of the bytes is not said here.
#[verifier::external_body]
fn compress(width: usize, height: usize, pixels: &[u8], room: usize) -> (r: Option<Vec<u8>>)
    requires
        width > 0,
        height > 0,
        pixels@.len() == 4 * (width * height),
        room >= 6 * (width * height) + 1,
    ensures
        r is Some,
        r->0@ == rle_planes(width, height, pixels@),
        r->0@.len() <= room,
{
    let mut out: Vec<u8> = vec![0; room];
    let mut encoder = ironrdp_graphics::rdp6::BitmapStreamEncoder::new(width, height);
    let written: Option<usize> = encoder
        .encode_bitmap::<ironrdp_graphics::rdp6::BgrAChannels>(pixels, &mut out, true)
        .ok();
    written.map(|n| { out.truncate(n); out })
}

/// A rectangle of a picture as it is written.
pub open spec fn coded_as(coding: Coding, picture: Seq<u8>, w: u16, r: Rect) -> Seq<u8> {
    match coding {
        Coding::Rle => rle_planes(
            r.width() as usize,
            r.height() as usize,
            rows(picture, w, r),
        ),
        Coding::Raw => planes(picture, w, r),
        Coding::Off => rows(picture, w, r),
    }
}

/// Takes a rectangle out of a picture.
pub fn crop(picture: &[u8], w: u16, h: u16, rect: Rect) -> (r: Vec<u8>)
    requires
        picture@.len() == w * h * 4,
        rect.within(w, h),
    ensures
        r@ == rows(picture@, w, rect),
{
    let ghost rw = rect.width();
    let ghost all = rows(picture@, w, rect);
    let mut out: Vec<u8> = Vec::new();
    let mut y: u16 = rect.top;
    while y < rect.bottom
        invariant
            picture@.len() == w * h * 4,
            rect.within(w, h),
            rw == rect.width(),
            all == rows(picture@, w, rect),
            rect.top <= y <= rect.bottom,
            out@.len() == 4 * ((y - rect.top) * rw),
            forall|k: int| 0 <= k < out@.len() ==> #[trigger] out@[k] == all[k],
        decreases rect.bottom - y,
    {
        let ghost j = y - rect.top;
        let mut x: u16 = rect.left;
        while x < rect.right
            invariant
                picture@.len() == w * h * 4,
                rect.within(w, h),
                rw == rect.width(),
                all == rows(picture@, w, rect),
                rect.top <= y < rect.bottom,
                rect.left <= x <= rect.right,
                j == y - rect.top,
                out@.len() == 4 * (j * rw + (x - rect.left)),
                forall|k: int| 0 <= k < out@.len() ==> #[trigger] out@[k] == all[k],
            decreases rect.right - x,
        {
            let ghost before = out@;
            proof {
                lemma_position(w, h, x as int, y as int);
                assert(picture.len() == picture@.len());
            }
            let p: usize = (y as usize * w as usize + x as usize) * 4;
            out.push(picture[p]);
            out.push(picture[p + 1]);
            out.push(picture[p + 2]);
            out.push(picture[p + 3]);
            proof {
                let i = x - rect.left;
                let at = j * rw + i;
                assert(0 <= at < rw * rect.height()) by (nonlinear_arith)
                    requires
                        at == j * rw + i,
                        0 <= i < rw,
                        0 <= j < rect.height(),
                ;
                lemma_fundamental_div_mod_converse(at, rw, j, i);
                assert forall|k: int| 0 <= k < out@.len() implies #[trigger] out@[k]
                    == all[k] by {
                    if k < before.len() {
                        assert(before[k] == out@[k]);
                    } else {
                        assert(k / 4 == at);
                        assert(plane(picture@, w, rect, k % 4)[at] == picture@[p + k % 4]);
                    }
                }
            }
            x += 1;
        }
        proof {
            assert((j + 1) * rw == j * rw + rw) by (nonlinear_arith);
        }
        y += 1;
    }
    proof {
        assert(rw * rect.height() == rect.height() * rw) by (nonlinear_arith);
        assert(out@ =~= all);
    }
    out
}

/// Writes a rectangle of a picture.
pub fn coded(coding: Coding, picture: &[u8], w: u16, h: u16, rect: Rect) -> (r: Vec<u8>)
    requires
        picture@.len() == w * h * 4,
        rect.within(w, h),
        6 * (rect.width() * rect.height()) + 1 <= usize::MAX,
    ensures
        r@ == coded_as(coding, picture@, w, rect),
        r@.len() <= 6 * (rect.width() * rect.height()) + 1,
{
    proof {
        assert(1 <= rect.width() * rect.height()) by (nonlinear_arith)
            requires
                1 <= rect.width(),
                1 <= rect.height(),
        ;
    }
    match coding {
        Coding::Raw => pack(picture, w, h, rect),
        Coding::Off => crop(picture, w, h, rect),
        Coding::Rle => {
            let width: usize = (rect.right - rect.left) as usize;
            let height: usize = (rect.bottom - rect.top) as usize;
            let pixels: Vec<u8> = crop(picture, w, h, rect);
            proof {
                assert(0 <= width * height) by (nonlinear_arith);
            }
            compress(width, height, pixels.as_slice(), width * height * 6 + 1).unwrap()
        },
    }
}

// ------------------------------------------------------------ diagnostics

/// What the environment asks for.
#[derive(Clone, Copy, PartialEq, Eq, Structural, Debug)]
pub struct Diagnostics {
    /// Whether a test bitmap goes out in place of the screen.
    pub test: bool,
    /// How rectangles are written.
    pub coding: Coding,
}

/// The diagnostics of two settings: the kind of test, and the coding. A test is written
/// without any coding; without a setting, or with one that has no meaning, rectangles are
/// raw planes.
pub open spec fn asked(test: Option<Seq<char>>, planar: Option<Seq<char>>) -> Diagnostics {
    if test == Some("uncompressed"@) {
        Diagnostics { test: true, coding: Coding::Off }
    } else if planar == Some("rle"@) {
        Diagnostics { test: false, coding: Coding::Rle }
    } else if planar == Some("off"@) {
        Diagnostics { test: false, coding: Coding::Off }
    } else {
        Diagnostics { test: false, coding: Coding::Raw }
    }
}

/// What a setting holds.
pub open spec fn text_of(setting: Option<&str>) -> Option<Seq<char>> {
    match setting {
        Some(s) => Some(s@),
        None => None,
    }
}

fn is(setting: Option<&str>, value: &str) -> (r: bool)
    ensures
        r == (text_of(setting) == Some(value@)),
{
    match setting {
        Some(s) => same(s, value),
        None => false,
    }
}

/// Reads the two settings.
pub fn diagnostics(test: Option<&str>, planar: Option<&str>) -> (r: Diagnostics)
    ensures
        r == asked(text_of(test), text_of(planar)),
{
    if is(test, "uncompressed") {
        Diagnostics { test: true, coding: Coding::Off }
    } else if is(planar, "rle") {
        Diagnostics { test: false, coding: Coding::Rle }
    } else if is(planar, "off") {
        Diagnostics { test: false, coding: Coding::Off }
    } else {
        Diagnostics { test: false, coding: Coding::Raw }
    }
}

impl Diagnostics {
    /// Whether a client gets H.264: one that takes it, unless a test is asked for.
    pub fn avc420(self, supported: bool) -> (r: bool)
        ensures
            r == (supported && !self.test),
    {
        supported && !self.test
    }
}

/// A byte of the test bitmap: blue by the column, green by the row, and no red.
pub open spec fn test_byte(w: u16, k: int) -> u8 {
    let (x, y) = ((k / 4) % (w as int), (k / 4) / (w as int));
    if k % 4 == 0 {
        (x % 256) as u8
    } else if k % 4 == 1 {
        (y % 256) as u8
    } else {
        0
    }
}

/// The test bitmap.
pub fn test_bitmap(w: u16, h: u16) -> (r: Vec<u8>)
    requires
        w * h * 4 <= usize::MAX,
    ensures
        r@ == Seq::new((w * h * 4) as nat, |k: int| test_byte(w, k)),
{
    let mut out: Vec<u8> = Vec::new();
    let mut y: u16 = 0;
    while y < h
        invariant
            y <= h,
            out@.len() == 4 * (y * w),
            forall|k: int| 0 <= k < out@.len() ==> #[trigger] out@[k] == test_byte(w, k),
        decreases h - y,
    {
        let mut x: u16 = 0;
        while x < w
            invariant
                y < h,
                x <= w,
                out@.len() == 4 * (y * w + x),
                forall|k: int| 0 <= k < out@.len() ==> #[trigger] out@[k] == test_byte(w, k),
            decreases w - x,
        {
            let ghost before = out@;
            out.push((x % 256) as u8);
            out.push((y % 256) as u8);
            out.push(0);
            out.push(0);
            proof {
                let at = y * w + x;
                lemma_fundamental_div_mod_converse(at, w as int, y as int, x as int);
                assert forall|k: int| 0 <= k < out@.len() implies #[trigger] out@[k]
                    == test_byte(w, k) by {
                    if k < before.len() {
                        assert(before[k] == out@[k]);
                    } else {
                        assert(k / 4 == at);
                    }
                }
            }
            x += 1;
        }
        proof {
            assert((y + 1) * w == y * w + w) by (nonlinear_arith);
        }
        y += 1;
    }
    proof {
        assert(h * w == w * h) by (nonlinear_arith);
        assert(0 <= w * h) by (nonlinear_arith);
        assert(out@ =~= Seq::new((w * h * 4) as nat, |k: int| test_byte(w, k)));
    }
    out
}

// ------------------------------------------------------------ laws

/// Pixels that are written row by row are those of the picture.
pub proof fn law_rows_carry_the_picture(
    picture: Seq<u8>,
    w: u16,
    r: Rect,
    x: int,
    y: int,
    c: int,
)
    requires
        r.contains(x, y),
        0 <= c < 4,
    ensures
        rows(picture, w, r)[4 * ((y - r.top) * r.width() + (x - r.left)) + c] == picture[position(
            w,
            x,
            y,
        ) + c],
{
    let rw = r.width();
    let k = (y - r.top) * rw + (x - r.left);
    assert(0 <= k < rw * r.height()) by (nonlinear_arith)
        requires
            k == (y - r.top) * rw + (x - r.left),
            0 <= x - r.left < rw,
            0 <= y - r.top < r.height(),
    ;
    lemma_fundamental_div_mod_converse(k, rw, y - r.top, x - r.left);
    assert((4 * k + c) / 4 == k && (4 * k + c) % 4 == c);
    assert(plane(picture, w, r, c)[k] == picture[position(w, x, y) + c]);
}

/// What goes to the run-length coder is the rectangle's size, across first, and its pixels,
/// row by row, with their four bytes as they are.
pub proof fn law_coder_gets_the_rectangle(picture: Seq<u8>, w: u16, r: Rect)
    requires
        r.left < r.right,
        r.top < r.bottom,
    ensures
        coded_as(Coding::Rle, picture, w, r) == rle_planes(
            (r.right - r.left) as usize,
            (r.bottom - r.top) as usize,
            Seq::new(
                (4 * ((r.right - r.left) * (r.bottom - r.top))) as nat,
                |k: int|
                    picture[((r.top + k / 4 / (r.right - r.left)) * w + (r.left + k / 4 % (r.right
                        - r.left))) * 4 + k % 4],
            ),
        ),
{
    let (a, b) = (r.right - r.left, r.bottom - r.top);
    let s = Seq::new(
        (4 * (a * b)) as nat,
        |k: int| picture[((r.top + k / 4 / a) * w + (r.left + k / 4 % a)) * 4 + k % 4],
    );
    assert(0 <= a * b) by (nonlinear_arith)
        requires
            0 < a,
            0 < b,
    ;
    assert(s =~= rows(picture, w, r));
}

/// Raw planes begin with the byte 32, which says that there is no alpha and no coding, and
/// end with a zero; between them are three planes.
pub proof fn law_planes_have_a_header(picture: Seq<u8>, w: u16, r: Rect)
    requires
        r.left < r.right,
        r.top < r.bottom,
    ensures
        ({
            let data = coded_as(Coding::Raw, picture, w, r);
            &&& data.len() == 3 * ((r.right - r.left) * (r.bottom - r.top)) + 2
            &&& data[0] == 32
            &&& data[data.len() - 1] == 0
        }),
{
    assert(0 <= (r.right - r.left) * (r.bottom - r.top)) by (nonlinear_arith)
        requires
            0 < r.right - r.left,
            0 < r.bottom - r.top,
    ;
}

/// The settings: a test of uncompressed bitmaps is asked for by one word and wins over the
/// other setting, which names run-length coding or none; all else is raw planes.
pub proof fn law_settings_choose_the_coding(test: Option<Seq<char>>, planar: Option<Seq<char>>)
    ensures
        asked(test, planar).test <==> test == Some("uncompressed"@),
        test == Some("uncompressed"@) ==> asked(test, planar).coding == Coding::Off,
        test != Some("uncompressed"@) && planar == Some("rle"@) ==> asked(test, planar).coding
            == Coding::Rle,
        test != Some("uncompressed"@) && planar == Some("off"@) ==> asked(test, planar).coding
            == Coding::Off,
        test != Some("uncompressed"@) && planar != Some("rle"@) && planar != Some("off"@)
            ==> asked(test, planar).coding == Coding::Raw,
{
    reveal_strlit("rle");
    reveal_strlit("off");
    assert("rle"@[0] != "off"@[0]);
}

/// The pixel of the test bitmap at a place has the place's column in blue and its row in
/// green.
pub proof fn law_test_bitmap_shows_places(w: u16, h: u16, x: int, y: int)
    requires
        0 <= x < w,
        0 <= y < h,
    ensures
        test_byte(w, (y * w + x) * 4) == x % 256,
        test_byte(w, (y * w + x) * 4 + 1) == y % 256,
        test_byte(w, (y * w + x) * 4 + 2) == 0,
        test_byte(w, (y * w + x) * 4 + 3) == 0,
{
    lemma_fundamental_div_mod_converse(y * w + x, w as int, y, x);
}

} // verus!
