//! The screen as a client sees it: scaled to fit its desktop, or as a window of the
//! same size that pans over the screen.

use vstd::arithmetic::div_mod::{
    lemma_div_is_ordered, lemma_div_multiples_vanish, lemma_fundamental_div_mod,
    lemma_fundamental_div_mod_converse,
};
use vstd::prelude::*;

verus! {

/// Below this scale, in percent, a client gets a window in place of the whole screen.
pub const MIN_SCALE: u32 = 45;

/// How far from its edge the pointer moves the window, in pixels.
pub const BORDER: u16 = 48;

/// A screen of `sw` by `sh` pixels as a picture of `cw` by `ch` pixels.
#[derive(Clone, Copy, PartialEq, Eq, Structural, Debug)]
pub struct Scene {
    pub sw: u16,
    pub sh: u16,
    pub cw: u16,
    pub ch: u16,
    /// Whether the picture is a window onto the screen.
    pub window: bool,
    /// Where on the screen the window is.
    pub x: u16,
    pub y: u16,
}

/// The part of the picture that shows the screen.
#[derive(Clone, Copy, PartialEq, Eq, Structural, Debug)]
pub struct Frame {
    pub left: u16,
    pub top: u16,
    pub width: u16,
    pub height: u16,
}

/// The smaller of two numbers.
pub open spec fn least(a: int, b: int) -> int {
    if a < b {
        a
    } else {
        b
    }
}

/// Whether fitting the screen into the picture would shrink it below the least scale.
pub open spec fn too_small(sw: u16, sh: u16, cw: u16, ch: u16) -> bool {
    cw * 100 < MIN_SCALE * sw || ch * 100 < MIN_SCALE * sh
}

/// Whether the picture is smaller than the screen.
pub open spec fn smaller(sw: u16, sh: u16, cw: u16, ch: u16) -> bool {
    cw < sw || ch < sh
}

/// The extent along one side when the other fills the picture: in proportion, and not
/// nothing.
pub open spec fn in_proportion(side: int, picture: int, screen: int) -> int {
    if side * picture / screen < 1 {
        1
    } else {
        side * picture / screen
    }
}

impl Scene {
    /// Whether there is a screen and a picture, and the window is on the screen.
    pub open spec fn wf(self) -> bool {
        &&& self.sw > 0 && self.sh > 0 && self.cw > 0 && self.ch > 0
        &&& self.x + least(self.cw as int, self.sw as int) <= self.sw
        &&& self.y + least(self.ch as int, self.sh as int) <= self.sh
    }

    /// Whether the width of the picture, and not its height, limits the scale.
    pub open spec fn wide(self) -> bool {
        self.cw * self.sh <= self.ch * self.sw
    }

    /// The part of the picture that shows the screen, in the middle of it.
    pub open spec fn frame(self) -> Frame {
        let w = if self.window {
            least(self.cw as int, self.sw as int)
        } else if self.wide() {
            self.cw as int
        } else {
            in_proportion(self.sw as int, self.ch as int, self.sh as int)
        };
        let h = if self.window {
            least(self.ch as int, self.sh as int)
        } else if self.wide() {
            in_proportion(self.sh as int, self.cw as int, self.sw as int)
        } else {
            self.ch as int
        };
        Frame {
            left: ((self.cw - w) / 2) as u16,
            top: ((self.ch - h) / 2) as u16,
            width: w as u16,
            height: h as u16,
        }
    }

    /// Whether a place of the picture shows the screen.
    pub open spec fn shows(self, px: int, py: int) -> bool {
        let f = self.frame();
        f.left <= px < f.left + f.width && f.top <= py < f.top + f.height
    }

    /// The column of the screen at a column of the frame.
    pub open spec fn column(self, i: int) -> int {
        if self.window {
            self.x + i
        } else {
            i * self.sw / self.frame().width as int
        }
    }

    /// The row of the screen at a row of the frame.
    pub open spec fn row(self, j: int) -> int {
        if self.window {
            self.y + j
        } else {
            j * self.sh / self.frame().height as int
        }
    }

    /// Byte `c` of the picture's pixel at a place: the screen's where it shows the
    /// screen, and black elsewhere.
    pub open spec fn shown(self, screen: Seq<u8>, px: int, py: int, c: int) -> u8 {
        let f = self.frame();
        if self.shows(px, py) {
            screen[(self.row(py - f.top) * self.sw + self.column(px - f.left)) * 4 + c]
        } else {
            0
        }
    }

    /// The whole picture, row by row, four bytes for a pixel.
    pub open spec fn picture(self, screen: Seq<u8>) -> Seq<u8> {
        Seq::new(
            (self.cw * self.ch * 4) as nat,
            |k: int| self.shown(screen, k / 4 % self.cw as int, k / 4 / self.cw as int, k % 4),
        )
    }
}

/// `v`, or the nearest place in a stretch of `n` from `from` on.
pub open spec fn nearest(v: int, from: int, n: int) -> int {
    if v < from {
        0
    } else if v >= from + n {
        n - 1
    } else {
        v - from
    }
}

/// Where a stretch of the window's length goes when the pointer is at `i` in it: away from
/// an edge that the pointer is close to, by as much as it is too close, and no further
/// than the screen goes.
pub open spec fn panned(at: int, i: int, len: int, screen: int) -> int {
    if i < BORDER {
        if at < BORDER - i {
            0
        } else {
            at - (BORDER - i)
        }
    } else if i >= len - BORDER {
        least(screen - len, at + (i - (len - BORDER) + 1))
    } else {
        at
    }
}

proof fn lemma_in_proportion(side: u16, picture: u16, screen: u16, limit: u16)
    requires
        screen > 0,
        side > 0,
        picture > 0,
        limit > 0,
        picture * side <= limit * screen,
    ensures
        side * picture >= 0,
        1 <= in_proportion(side as int, picture as int, screen as int) <= limit,
{
    let v = side * picture;
    assert(v == picture * side) by (nonlinear_arith)
        requires
            v == side * picture,
    ;
    assert(v >= 0) by (nonlinear_arith)
        requires
            v == side * picture,
    ;
    lemma_div_is_ordered(v, limit * screen, screen as int);
    assert(limit * screen / (screen as int) == limit) by {
        lemma_div_multiples_vanish(limit as int, screen as int);
        assert(screen * limit == limit * screen) by (nonlinear_arith);
    }
}

/// The frame has a size and is in the picture.
proof fn lemma_frame(s: Scene)
    requires
        s.wf(),
    ensures
        s.frame().width > 0,
        s.frame().height > 0,
        s.frame().left + s.frame().width <= s.cw,
        s.frame().top + s.frame().height <= s.ch,
{
    if !s.window {
        if s.wide() {
            lemma_in_proportion(s.sh, s.cw, s.sw, s.ch);
        } else {
            assert(s.ch * s.sw <= s.cw * s.sh);
            lemma_in_proportion(s.sw, s.ch, s.sh, s.cw);
        }
    }
}

/// A place of the frame is a place of the screen.
proof fn lemma_on_screen(s: Scene, i: int, j: int)
    requires
        s.wf(),
        0 <= i < s.frame().width,
        0 <= j < s.frame().height,
    ensures
        0 <= s.column(i) < s.sw,
        0 <= s.row(j) < s.sh,
{
    lemma_frame(s);
    if !s.window {
        lemma_scaled(i, s.frame().width as int, s.sw as int);
        lemma_scaled(j, s.frame().height as int, s.sh as int);
    }
}

proof fn lemma_scaled(i: int, n: int, m: int)
    requires
        0 <= i < n,
        0 < m,
    ensures
        0 <= i * m,
        0 <= i * m / n < m,
{
    assert(0 <= i * m <= (n - 1) * m) by (nonlinear_arith)
        requires
            0 <= i < n,
            0 < m,
    ;
    let q = i * m / n;
    let r = i * m % n;
    lemma_fundamental_div_mod(i * m, n);
    assert(0 <= q < m) by (nonlinear_arith)
        requires
            i * m == n * q + r,
            0 <= r < n,
            0 <= i * m <= (n - 1) * m,
            0 < m,
            0 < n,
    ;
}

fn in_proportion_of(side: u16, picture: u16, screen: u16, Ghost(limit): Ghost<u16>) -> (r: u16)
    requires
        screen > 0,
        side > 0,
        picture > 0,
        limit > 0,
        picture * side <= limit * screen,
    ensures
        r == in_proportion(side as int, picture as int, screen as int),
{
    proof {
        lemma_in_proportion(side, picture, screen, limit);
        assert(side * picture <= 65535 * 65535) by (nonlinear_arith);
    }
    let v: u32 = side as u32 * picture as u32 / screen as u32;
    if v < 1 {
        1
    } else {
        v as u16
    }
}

impl Scene {
    /// The whole screen where the scale allows it and no window is asked for; a window
    /// at the screen's corner where it does not, or where `viewport` asks for one and
    /// the picture is smaller than the screen.
    pub open spec fn fresh(sw: u16, sh: u16, cw: u16, ch: u16, viewport: bool) -> Scene {
        Scene {
            sw,
            sh,
            cw,
            ch,
            window: too_small(sw, sh, cw, ch) || viewport && smaller(sw, sh, cw, ch),
            x: 0,
            y: 0,
        }
    }

    /// Chooses how a screen is shown as a picture of a size.
    pub fn new(sw: u16, sh: u16, cw: u16, ch: u16, viewport: bool) -> (r: Scene)
        requires
            sw > 0,
            sh > 0,
            cw > 0,
            ch > 0,
        ensures
            r.wf(),
            r == Scene::fresh(sw, sh, cw, ch, viewport),
    {
        let small: bool = (cw as u32) * 100 < MIN_SCALE * sw as u32 || (ch as u32) * 100
            < MIN_SCALE * sh as u32;
        let window: bool = small || (viewport && (cw < sw || ch < sh));
        Scene { sw, sh, cw, ch, window, x: 0, y: 0 }
    }

    /// The part of the picture that shows the screen.
    pub fn place(&self) -> (r: Frame)
        requires
            self.wf(),
        ensures
            r == self.frame(),
            r.width > 0,
            r.height > 0,
            r.left + r.width <= self.cw,
            r.top + r.height <= self.ch,
    {
        proof {
            lemma_frame(*self);
            assert(self.cw * self.sh <= 65535 * 65535) by (nonlinear_arith)
                requires
                    self.cw <= 65535,
                    self.sh <= 65535,
            ;
            assert(self.ch * self.sw <= 65535 * 65535) by (nonlinear_arith)
                requires
                    self.ch <= 65535,
                    self.sw <= 65535,
            ;
        }
        let width: u16;
        let height: u16;
        if self.window {
            width = if self.cw < self.sw {
                self.cw
            } else {
                self.sw
            };
            height = if self.ch < self.sh {
                self.ch
            } else {
                self.sh
            };
        } else if self.cw as u32 * self.sh as u32 <= self.ch as u32 * self.sw as u32 {
            width = self.cw;
            height = in_proportion_of(self.sh, self.cw, self.sw, Ghost(self.ch));
        } else {
            width = in_proportion_of(self.sw, self.ch, self.sh, Ghost(self.cw));
            height = self.ch;
        }
        Frame { left: (self.cw - width) / 2, top: (self.ch - height) / 2, width, height }
    }

    /// The place of the screen that a place of the picture stands for: what it shows
    /// there, or what it shows closest to it.
    pub open spec fn on_screen(self, px: int, py: int) -> (int, int) {
        let f = self.frame();
        (
            self.column(nearest(px, f.left as int, f.width as int)),
            self.row(nearest(py, f.top as int, f.height as int)),
        )
    }

    /// Maps a place of the picture back to the screen.
    pub fn to_screen(&self, px: u16, py: u16) -> (r: (u16, u16))
        requires
            self.wf(),
        ensures
            (r.0 as int, r.1 as int) == self.on_screen(px as int, py as int),
            r.0 < self.sw,
            r.1 < self.sh,
    {
        let f: Frame = self.place();
        let i: u16 = nearest_in(px, f.left, f.width);
        let j: u16 = nearest_in(py, f.top, f.height);
        proof {
            lemma_on_screen(*self, i as int, j as int);
        }
        if self.window {
            (self.x + i, self.y + j)
        } else {
            (scaled(i, self.sw, f.width), scaled(j, self.sh, f.height))
        }
    }

    /// The scene with the window moved by a pointer at a place of the picture.
    pub open spec fn moved(self, px: int, py: int) -> Scene {
        let f = self.frame();
        if self.window {
            Scene {
                x: panned(
                    self.x as int,
                    nearest(px, f.left as int, f.width as int),
                    f.width as int,
                    self.sw as int,
                ) as u16,
                y: panned(
                    self.y as int,
                    nearest(py, f.top as int, f.height as int),
                    f.height as int,
                    self.sh as int,
                ) as u16,
                ..self
            }
        } else {
            self
        }
    }

    /// The pointer goes to a place of the picture. It moves the window where it is pushed
    /// against the edge, and ends at the place of the screen that is then shown there.
    pub fn pointer(&mut self, px: u16, py: u16) -> (r: (u16, u16))
        requires
            old(self).wf(),
        ensures
            final(self).wf(),
            *final(self) == old(self).moved(px as int, py as int),
            (r.0 as int, r.1 as int) == final(self).on_screen(px as int, py as int),
            r.0 < final(self).sw,
            r.1 < final(self).sh,
    {
        if self.window {
            let f: Frame = self.place();
            let i: u16 = nearest_in(px, f.left, f.width);
            let j: u16 = nearest_in(py, f.top, f.height);
            self.x = pan(self.x, i, f.width, self.sw);
            self.y = pan(self.y, j, f.height, self.sh);
        }
        self.to_screen(px, py)
    }
}

fn nearest_in(v: u16, from: u16, n: u16) -> (r: u16)
    requires
        n > 0,
        from + n <= u16::MAX,
    ensures
        r == nearest(v as int, from as int, n as int),
        r < n,
{
    if v < from {
        0
    } else if v >= from + n {
        n - 1
    } else {
        v - from
    }
}

fn scaled(i: u16, m: u16, n: u16) -> (r: u16)
    requires
        i < n,
        m > 0,
    ensures
        r == i * m / n as int,
        r < m,
{
    proof {
        lemma_scaled(i as int, n as int, m as int);
        assert(i * m <= 65535 * 65535) by (nonlinear_arith);
    }
    (i as u32 * m as u32 / n as u32) as u16
}

fn pan(at: u16, i: u16, len: u16, screen: u16) -> (r: u16)
    requires
        i < len,
        at + len <= screen,
    ensures
        r == panned(at as int, i as int, len as int, screen as int),
        r + len <= screen,
{
    if i < BORDER {
        if at < BORDER - i {
            0
        } else {
            at - (BORDER - i)
        }
    } else if i as i32 >= len as i32 - BORDER as i32 {
        let push: i32 = i as i32 - (len as i32 - BORDER as i32) + 1;
        if (screen - len) as i32 - (at as i32) < push {
            screen - len
        } else {
            at + push as u16
        }
    } else {
        at
    }
}

// ------------------------------------------------------------ the picture

/// Byte `c` of pixel `n` of a row of `w` pixels is where it should be.
proof fn lemma_position(px: int, py: int, w: int, c: int)
    requires
        0 <= px < w,
        0 <= py,
        0 <= c < 4,
    ensures
        0 <= py * w,
        ({
            let k = (py * w + px) * 4 + c;
            k / 4 % w == px && k / 4 / w == py && k % 4 == c
        }),
{
    assert(0 <= py * w) by (nonlinear_arith)
        requires
            0 <= py,
            0 < w,
    ;
    let k = (py * w + px) * 4 + c;
    assert(k / 4 == py * w + px);
    lemma_fundamental_div_mod_converse(k / 4, w, py, px);
}

/// A pixel that lies before the end of `h` rows of `w` pixels.
proof fn lemma_inside(x: int, y: int, w: int, h: int)
    requires
        0 <= x < w,
        0 <= y < h,
    ensures
        0 <= y * w + x < w * h,
{
    assert(0 <= y * w + x < w * h) by (nonlinear_arith)
        requires
            0 <= x < w,
            0 <= y < h,
    ;
}

impl Scene {
    /// Draws the picture of a screen.
    pub fn render(&self, screen: &[u8]) -> (r: Vec<u8>)
        requires
            self.wf(),
            screen@.len() == self.sw * self.sh * 4,
            self.cw * self.ch * 4 <= usize::MAX,
        ensures
            r@ == self.picture(screen@),
    {
        let f: Frame = self.place();
        let mut out: Vec<u8> = Vec::new();
        let mut py: u16 = 0;
        while py < self.ch
            invariant
                self.wf(),
                screen@.len() == self.sw * self.sh * 4,
                self.cw * self.ch * 4 <= usize::MAX,
                f == self.frame(),
                f.width > 0,
                f.height > 0,
                f.left + f.width <= self.cw,
                f.top + f.height <= self.ch,
                py <= self.ch,
                out@.len() == py * self.cw * 4,
                self.drawn(screen@, out@),
            decreases self.ch - py,
        {
            let vertical: bool = f.top <= py && py < f.top + f.height;
            let sy: u16 = if vertical {
                self.source_row(py - f.top, f)
            } else {
                0
            };
            let mut px: u16 = 0;
            while px < self.cw
                invariant
                    self.wf(),
                    screen@.len() == self.sw * self.sh * 4,
                    self.cw * self.ch * 4 <= usize::MAX,
                    f == self.frame(),
                    f.width > 0,
                    f.height > 0,
                    f.left + f.width <= self.cw,
                    f.top + f.height <= self.ch,
                    py < self.ch,
                    vertical == (f.top <= py < f.top + f.height),
                    vertical ==> sy == self.row(py - f.top) && sy < self.sh,
                    px <= self.cw,
                    out@.len() == (py * self.cw + px) * 4,
                    self.drawn(screen@, out@),
                decreases self.cw - px,
            {
                let ghost before = out@;
                if vertical && f.left <= px && px < f.left + f.width {
                    let sx: u16 = self.source_column(px - f.left, f);
                    proof {
                        lemma_inside(sx as int, sy as int, self.sw as int, self.sh as int);
                        assert(screen.len() == screen@.len());
                        assert(self.sw * self.sh == self.sh * self.sw) by (nonlinear_arith);
                        assert(0 <= sy * self.sw) by (nonlinear_arith);
                    }
                    let at: usize = (sy as usize * self.sw as usize + sx as usize) * 4;
                    out.push(screen[at]);
                    out.push(screen[at + 1]);
                    out.push(screen[at + 2]);
                    out.push(screen[at + 3]);
                } else {
                    out.push(0);
                    out.push(0);
                    out.push(0);
                    out.push(0);
                }
                proof {
                    assert forall|k: int| 0 <= k < out@.len() implies #[trigger] out@[k]
                        == self.byte(screen@, k) by {
                        if k < before.len() {
                            assert(out@[k] == before[k]);
                            assert(before[k] == self.byte(screen@, k));
                        } else {
                            let c = k - before.len();
                            lemma_position(px as int, py as int, self.cw as int, c);
                        }
                    }
                }
                px += 1;
            }
            proof {
                assert((py + 1) * self.cw == py * self.cw + self.cw) by (nonlinear_arith);
            }
            py += 1;
        }
        proof {
            assert(self.ch * self.cw == self.cw * self.ch) by (nonlinear_arith);
            assert forall|k: int| 0 <= k < out@.len() implies out@[k] == self.picture(
                screen@,
            )[k] by {
                assert(out@[k] == self.byte(screen@, k));
            }
            assert(out@ =~= self.picture(screen@));
        }
        out
    }

    spec fn byte(self, screen: Seq<u8>, k: int) -> u8 {
        self.shown(screen, k / 4 % self.cw as int, k / 4 / self.cw as int, k % 4)
    }

    spec fn drawn(self, screen: Seq<u8>, out: Seq<u8>) -> bool {
        forall|k: int| 0 <= k < out.len() ==> #[trigger] out[k] == self.byte(screen, k)
    }

    fn source_row(&self, j: u16, f: Frame) -> (r: u16)
        requires
            self.wf(),
            f == self.frame(),
            j < f.height,
        ensures
            r == self.row(j as int),
            r < self.sh,
    {
        proof {
            lemma_frame(*self);
            lemma_on_screen(*self, 0, j as int);
        }
        if self.window {
            self.y + j
        } else {
            scaled(j, self.sh, f.height)
        }
    }

    fn source_column(&self, i: u16, f: Frame) -> (r: u16)
        requires
            self.wf(),
            f == self.frame(),
            i < f.width,
        ensures
            r == self.column(i as int),
            r < self.sw,
    {
        proof {
            lemma_frame(*self);
            lemma_on_screen(*self, i as int, 0);
        }
        if self.window {
            self.x + i
        } else {
            scaled(i, self.sw, f.width)
        }
    }
}

// ------------------------------------------------------------ laws

/// What is clicked is what is shown: a place that shows the screen stands for the very
/// pixel that is drawn there.
pub proof fn law_pointer_hits_what_is_shown(
    s: Scene,
    screen: Seq<u8>,
    px: int,
    py: int,
    c: int,
)
    requires
        s.wf(),
        s.shows(px, py),
        0 <= c < 4,
    ensures
        ({
            let (x, y) = s.on_screen(px, py);
            &&& 0 <= x < s.sw
            &&& 0 <= y < s.sh
            &&& s.picture(screen)[(py * s.cw + px) * 4 + c] == screen[(y * s.sw + x) * 4 + c]
        }),
{
    let f = s.frame();
    lemma_frame(s);
    lemma_on_screen(s, px - f.left, py - f.top);
    lemma_position(px, py, s.cw as int, c);
    lemma_inside(px, py, s.cw as int, s.ch as int);
}

/// A picture of the screen's size has nothing to scale and nowhere to pan to.
pub(crate) proof fn lemma_same_size(s: Scene, px: int, py: int)
    requires
        s.wf(),
        s.cw == s.sw,
        s.ch == s.sh,
        0 <= px < s.sw,
        0 <= py < s.sh,
    ensures
        s.frame() == (Frame { left: 0, top: 0, width: s.sw, height: s.sh }),
        s.column(px) == px,
        s.row(py) == py,
        s.moved(px, py) == s,
        s.on_screen(px, py) == (px, py),
{
    let w = s.sw as int;
    let h = s.sh as int;
    assert(s.cw * s.sh == s.ch * s.sw) by (nonlinear_arith)
        requires
            s.cw == s.sw,
            s.ch == s.sh,
    ;
    lemma_undone(h, w);
    lemma_undone(px, w);
    lemma_undone(py, h);
}

proof fn lemma_undone(a: int, n: int)
    requires
        n > 0,
    ensures
        a * n / n == a,
{
    lemma_div_multiples_vanish(a, n);
    assert(n * a == a * n) by (nonlinear_arith);
}

/// A picture of the screen's size is the screen itself, with a window or without.
pub proof fn law_same_size_shows_the_screen(s: Scene, screen: Seq<u8>)
    requires
        s.wf(),
        s.cw == s.sw,
        s.ch == s.sh,
        screen.len() == s.sw * s.sh * 4,
    ensures
        s.picture(screen) == screen,
{
    let w = s.sw as int;
    let h = s.sh as int;
    assert forall|k: int| 0 <= k < screen.len() implies #[trigger] s.picture(screen)[k]
        == screen[k] by {
        let p = k / 4;
        let px = p % w;
        let py = p / w;
        lemma_fundamental_div_mod(p, w);
        assert(0 <= py < h) by (nonlinear_arith)
            requires
                p == w * py + px,
                0 <= px < w,
                0 <= p < w * h,
                0 < w,
        ;
        lemma_same_size(s, px, py);
        assert(py * w == w * py) by (nonlinear_arith);
    }
    assert(s.picture(screen) =~= screen);
}

/// Without a window all of the screen is shown, in its proportions: it fills the picture
/// along one side and, along the other, is as long as whole pixels allow.
pub proof fn law_fit_keeps_the_proportions(s: Scene)
    requires
        s.wf(),
        !s.window,
    ensures
        ({
            let f = s.frame();
            &&& s.wide() ==> f.width == s.cw && (f.height == 1 || f.height * s.sw <= s.sh * s.cw)
                && s.sh * s.cw < (f.height + 1) * s.sw
            &&& !s.wide() ==> f.height == s.ch && (f.width == 1 || f.width * s.sh <= s.sw * s.ch)
                && s.sw * s.ch < (f.width + 1) * s.sh
            &&& 0 <= s.cw - f.width - 2 * f.left <= 1
            &&& 0 <= s.ch - f.height - 2 * f.top <= 1
        }),
{
    let f = s.frame();
    lemma_frame(s);
    if s.wide() {
        lemma_proportion(s.sh as int, s.cw as int, s.sw as int);
        lemma_in_proportion(s.sh, s.cw, s.sw, s.ch);
    } else {
        assert(s.ch * s.sw <= s.cw * s.sh);
        lemma_proportion(s.sw as int, s.ch as int, s.sh as int);
        lemma_in_proportion(s.sw, s.ch, s.sh, s.cw);
    }
}

proof fn lemma_proportion(side: int, picture: int, screen: int)
    requires
        side > 0,
        picture > 0,
        screen > 0,
    ensures
        ({
            let n = in_proportion(side, picture, screen);
            (n == 1 || n * screen <= side * picture) && side * picture < (n + 1) * screen
        }),
{
    let v = side * picture;
    let q = v / screen;
    lemma_fundamental_div_mod(v, screen);
    assert(v < (q + 1) * screen && q * screen <= v) by (nonlinear_arith)
        requires
            v == screen * q + v % screen,
            0 <= v % screen < screen,
    ;
    if q < 1 {
        assert((q + 1) * screen <= 2 * screen) by (nonlinear_arith)
            requires
                q < 1,
                screen > 0,
        ;
    }
}

/// In a window one pixel of the picture is one pixel of the screen.
pub proof fn law_window_is_one_to_one(s: Scene, px: int, py: int, dx: int, dy: int)
    requires
        s.wf(),
        s.window,
        s.shows(px, py),
        s.shows(px + dx, py + dy),
    ensures
        s.on_screen(px + dx, py + dy) == (
            s.on_screen(px, py).0 + dx,
            s.on_screen(px, py).1 + dy,
        ),
{
}

/// Whether a pointer at `i` of a window of length `len` moves it from `at` the right way:
/// back at its start, forth at its end, and nowhere in between. In a window that is
/// shorter than two borders the start goes first.
pub open spec fn pushed(at: int, i: int, len: int, screen: int, to: int) -> bool {
    if i < BORDER {
        to < at || to == 0
    } else if i >= len - BORDER {
        to > at || to + len == screen
    } else {
        to == at
    }
}

/// Pushing the pointer against an edge of the window moves the window that way, until
/// the screen ends; away from the edges the window stays.
pub proof fn law_pushing_pans(s: Scene, px: int, py: int)
    requires
        s.wf(),
        s.window,
        s.shows(px, py),
    ensures
        ({
            let f = s.frame();
            let t = s.moved(px, py);
            &&& t.wf()
            &&& pushed(s.x as int, px - f.left, f.width as int, s.sw as int, t.x as int)
            &&& pushed(s.y as int, py - f.top, f.height as int, s.sh as int, t.y as int)
        }),
{
    lemma_frame(s);
}

/// A client whose picture would show the screen at less than 45 percent gets a window;
/// one whose picture has the room for it gets all of the screen.
pub proof fn law_phones_get_a_window(s: Scene)
    requires
        s.wf(),
        s.window == too_small(s.sw, s.sh, s.cw, s.ch),
    ensures
        100 * s.cw < 45 * s.sw ==> s.window,
        100 * s.ch < 45 * s.sh ==> s.window,
        s.cw >= s.sw && s.ch >= s.sh ==> !s.window,
{
}

/// A client gets a window exactly if all of the screen would be shown at less than 45
/// percent along one side, or if windows are asked for and its picture is smaller than the
/// screen. A window begins at the screen's corner.
pub proof fn law_window_is_chosen_by_size(sw: u16, sh: u16, cw: u16, ch: u16, viewport: bool)
    ensures
        ({
            let s = Scene::fresh(sw, sh, cw, ch, viewport);
            &&& s.window <==> 100 * cw < 45 * sw || 100 * ch < 45 * sh || viewport && (cw < sw || ch
                < sh)
            &&& s.x == 0 && s.y == 0
            &&& s.sw == sw && s.sh == sh && s.cw == cw && s.ch == ch
        }),
{
}

/// Where the screen is in the picture. It is in the middle, to the pixel. A window is as
/// large as picture and screen allow. Without one the screen fills the side that limits it,
/// and along the other is as many pixels as go in proportion, one at least.
pub proof fn law_screen_is_in_the_middle(s: Scene)
    requires
        s.wf(),
    ensures
        ({
            let f = s.frame();
            &&& 0 <= s.cw - f.width - 2 * f.left <= 1
            &&& 0 <= s.ch - f.height - 2 * f.top <= 1
            &&& s.window ==> f.width <= s.cw && f.width <= s.sw && (f.width == s.cw || f.width
                == s.sw)
            &&& s.window ==> f.height <= s.ch && f.height <= s.sh && (f.height == s.ch || f.height
                == s.sh)
            &&& !s.window && s.cw * s.sh <= s.ch * s.sw ==> f.width == s.cw && f.height >= 1 && (
            f.height == 1 || f.height * s.sw <= s.sh * s.cw) && s.sh * s.cw < (f.height + 1) * s.sw
            &&& !s.window && s.cw * s.sh > s.ch * s.sw ==> f.height == s.ch && f.width >= 1 && (
            f.width == 1 || f.width * s.sh <= s.sw * s.ch) && s.sw * s.ch < (f.width + 1) * s.sh
        }),
{
    lemma_frame(s);
    if !s.window {
        law_fit_keeps_the_proportions(s);
    }
}

/// Which place of the screen a place of the picture stands for. In a window it is as far
/// from the window's corner as from the frame's. Without one it is the place that is
/// reached in proportion: the whole pixels of the screen's share of the way across the
/// frame. Beside the frame it is what the frame has closest to it.
pub proof fn law_places_correspond(s: Scene, px: int, py: int)
    requires
        s.wf(),
    ensures
        ({
            let f = s.frame();
            let (x, y) = s.on_screen(px, py);
            let i = if px < f.left {
                0
            } else if px >= f.left + f.width {
                f.width - 1
            } else {
                px - f.left
            };
            let j = if py < f.top {
                0
            } else if py >= f.top + f.height {
                f.height - 1
            } else {
                py - f.top
            };
            &&& 0 <= x < s.sw
            &&& 0 <= y < s.sh
            &&& s.window ==> x == s.x + i && y == s.y + j
            &&& !s.window ==> x * f.width <= i * s.sw < (x + 1) * f.width
            &&& !s.window ==> y * f.height <= j * s.sh < (y + 1) * f.height
        }),
{
    let f = s.frame();
    lemma_frame(s);
    let i = nearest(px, f.left as int, f.width as int);
    let j = nearest(py, f.top as int, f.height as int);
    lemma_on_screen(s, i, j);
    if !s.window {
        lemma_share(i * s.sw, f.width as int);
        lemma_share(j * s.sh, f.height as int);
    }
}

proof fn lemma_share(v: int, n: int)
    requires
        n > 0,
    ensures
        v / n * n <= v < (v / n + 1) * n,
{
    lemma_fundamental_div_mod(v, n);
    let q = v / n;
    assert(q * n <= v < (q + 1) * n) by (nonlinear_arith)
        requires
            v == n * q + v % n,
            0 <= v % n < n,
    ;
}

/// What the picture has at a place: inside the frame the four bytes of the screen's pixel
/// that the place stands for, and black beside it.
pub proof fn law_picture_shows_the_place(s: Scene, screen: Seq<u8>, px: int, py: int, c: int)
    requires
        s.wf(),
        0 <= px < s.cw,
        0 <= py < s.ch,
        0 <= c < 4,
    ensures
        ({
            let f = s.frame();
            let (x, y) = s.on_screen(px, py);
            let b = s.picture(screen)[(py * s.cw + px) * 4 + c];
            &&& s.picture(screen).len() == s.cw * s.ch * 4
            &&& b == if f.left <= px < f.left + f.width && f.top <= py < f.top + f.height {
                screen[(y * s.sw + x) * 4 + c]
            } else {
                0
            }
        }),
{
    lemma_frame(s);
    lemma_position(px, py, s.cw as int, c);
    lemma_inside(px, py, s.cw as int, s.ch as int);
    assert(0 <= s.cw * s.ch) by (nonlinear_arith);
}

/// A pointer within 48 pixels of an edge of the window moves the window that way by as much
/// as it is too close, and no further than the screen goes; elsewhere the window stays.
/// Across and along are told apart, and a pointer beside the frame is taken for one at its
/// edge. A picture without a window never moves.
pub proof fn law_window_moves_by_the_push(s: Scene, px: int, py: int)
    requires
        s.wf(),
    ensures
        ({
            let f = s.frame();
            let t = s.moved(px, py);
            let i = if px < f.left {
                0
            } else if px >= f.left + f.width {
                f.width - 1
            } else {
                px - f.left
            };
            let j = if py < f.top {
                0
            } else if py >= f.top + f.height {
                f.height - 1
            } else {
                py - f.top
            };
            &&& t.wf()
            &&& !s.window ==> t == s
            &&& s.window && i < 48 ==> t.x == if s.x < 48 - i {
                0
            } else {
                s.x - (48 - i)
            }
            &&& s.window && 48 <= i < f.width - 48 ==> t.x == s.x
            &&& s.window && i >= 48 && i >= f.width - 48 ==> t.x == if s.x + (i - (f.width - 48) + 1)
                > s.sw - f.width {
                s.sw - f.width
            } else {
                s.x + (i - (f.width - 48) + 1)
            }
            &&& s.window && j < 48 ==> t.y == if s.y < 48 - j {
                0
            } else {
                s.y - (48 - j)
            }
            &&& s.window && 48 <= j < f.height - 48 ==> t.y == s.y
            &&& s.window && j >= 48 && j >= f.height - 48 ==> t.y == if s.y + (j - (f.height - 48)
                + 1) > s.sh - f.height {
                s.sh - f.height
            } else {
                s.y + (j - (f.height - 48) + 1)
            }
            &&& t.sw == s.sw && t.sh == s.sh && t.cw == s.cw && t.ch == s.ch && t.window == s.window
        }),
{
    lemma_frame(s);
}

} // verus!
