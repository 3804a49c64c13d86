//! Characters that a client types without naming a key, as on-screen keyboards do: they
//! go through the X keymap, and one that the layout lacks is bound to a spare keycode.

use crate::input::{press_key, FakeInput};
use vstd::prelude::*;

verus! {

/// Keysyms of the keys that choose a column, and the keycodes that these keys have by
/// custom, which count where the layout names no key for them.
pub const SHIFT_L: u32 = 0xffe1;

pub const MODE_SWITCH: u32 = 0xff7e;

pub const LEVEL3_SHIFT: u32 = 0xfe03;

pub const USUAL_SHIFT: u8 = 50;

pub const USUAL_MODE_SWITCH: u8 = 203;

pub const USUAL_LEVEL3: u8 = 92;

/// How many columns can be chosen by holding keys. What the X server puts behind them
/// belongs to further groups, which are switched to and not held.
pub const COLUMNS: usize = 8;

/// The keys that are held to choose a column.
#[derive(Clone, Copy, PartialEq, Eq, Debug)]
pub struct Held {
    /// Shift, for every second column.
    pub shift: Option<u8>,
    /// The other group, for every second pair of columns.
    pub group: Option<u8>,
    /// The third level (AltGr), for the upper four columns.
    pub level: Option<u8>,
}

/// How a character is typed.
#[derive(Clone, Copy, PartialEq, Eq, Debug)]
pub enum Typing {
    /// With a key, while others are held.
    Press { keycode: u8, held: Held },
    /// With a key that is to be bound to the keysym first, in every column.
    Bind { keycode: u8, keysym: u32 },
    /// Not at all.
    Never,
}

/// The keyboard layout: `per` keysyms for each keycode from `min` on.
pub struct Layout {
    pub min: u8,
    pub per: usize,
    pub keysyms: Vec<u32>,
}

/// Whether key `i` is the first that gives one of `ks` in a column.
pub open spec fn first_with(l: Layout, ks: Seq<u32>, col: int, i: int) -> bool {
    &&& 0 <= i < l.keys()
    &&& ks.contains(l.at(i, col))
    &&& forall|j: int| 0 <= j < i ==> !ks.contains(#[trigger] l.at(j, col))
}

/// Whether a column is the lowest that gives one of `ks` on some key.
pub open spec fn lowest_with(l: Layout, ks: Seq<u32>, col: int) -> bool {
    &&& l.gives_in(ks, col)
    &&& forall|c: int| 0 <= c < col ==> !#[trigger] l.gives_in(ks, c)
}

/// Whether key `i` is the last that is spare.
pub open spec fn last_spare(l: Layout, i: int) -> bool {
    &&& l.spare(i)
    &&& forall|j: int| i < j < l.keys() ==> !#[trigger] l.spare(j)
}

impl Layout {
    /// How many keys there are.
    pub open spec fn keys(self) -> int {
        self.keysyms@.len() as int / self.per as int
    }

    /// The keysym of a key in a column.
    pub open spec fn at(self, i: int, col: int) -> u32 {
        self.keysyms@[i * self.per + col]
    }

    /// Every key has a keycode and all its columns.
    pub open spec fn wf(self) -> bool {
        &&& self.per > 0
        &&& self.keysyms@.len() == self.keys() * self.per
        &&& self.min + self.keys() <= 256
    }

    /// Whether a key has no keysym in any column.
    pub open spec fn spare(self, i: int) -> bool {
        0 <= i < self.keys() && forall|col: int|
            0 <= col < self.per ==> #[trigger] self.at(i, col) == 0
    }

    /// Whether a column is there and can be chosen by holding keys.
    pub open spec fn reaches(self, col: int) -> bool {
        0 <= col < self.per && col < COLUMNS
    }

    /// Whether some key gives one of `ks` in a column.
    pub open spec fn gives_in(self, ks: Seq<u32>, col: int) -> bool {
        self.reaches(col) && exists|i: int| #[trigger] first_with(self, ks, col, i)
    }

    /// Whether some key gives one of `ks`, in whatever column.
    pub open spec fn has(self, ks: Seq<u32>) -> bool {
        exists|col: int| #[trigger] lowest_with(self, ks, col)
    }

    /// The lowest column that gives one of `ks`.
    pub open spec fn column_of(self, ks: Seq<u32>) -> int {
        choose|col: int| #[trigger] lowest_with(self, ks, col)
    }

    /// The first key that gives one of `ks` in a column.
    pub open spec fn key_in(self, ks: Seq<u32>, col: int) -> int {
        choose|i: int| #[trigger] first_with(self, ks, col, i)
    }

    /// The keycode of a key.
    pub open spec fn code(self, i: int) -> u8 {
        (self.min + i) as u8
    }

    /// The keycode of the key that is held for a keysym.
    pub open spec fn holding(self, keysym: u32, usual: u8) -> u8 {
        if self.gives_in(seq![keysym], 0) {
            self.code(self.key_in(seq![keysym], 0))
        } else {
            usual
        }
    }

    /// The keys that are held to choose a column.
    pub open spec fn held_for(self, col: int) -> Held {
        Held {
            shift: if col % 2 == 1 {
                Some(self.holding(SHIFT_L, USUAL_SHIFT))
            } else {
                None
            },
            group: if col / 2 % 2 == 1 {
                Some(self.holding(MODE_SWITCH, USUAL_MODE_SWITCH))
            } else {
                None
            },
            level: if col / 4 % 2 == 1 {
                Some(self.holding(LEVEL3_SHIFT, USUAL_LEVEL3))
            } else {
                None
            },
        }
    }

    /// Whether some key is spare.
    pub open spec fn has_spare(self) -> bool {
        exists|i: int| #[trigger] last_spare(self, i)
    }

    /// The way to type a character with the keysyms `ks`: with a key that gives one of
    /// them, in the lowest column; else with the last spare key, bound to the first of
    /// them.
    pub open spec fn way(self, ks: Seq<u32>) -> Typing {
        if self.has(ks) {
            let col = self.column_of(ks);
            Typing::Press {
                keycode: self.code(self.key_in(ks, col)),
                held: self.held_for(col),
            }
        } else if self.has_spare() {
            Typing::Bind {
                keycode: self.code(choose|i: int| #[trigger] last_spare(self, i)),
                keysym: ks[0],
            }
        } else {
            Typing::Never
        }
    }

    /// The keysyms with a key bound to one of them in every column.
    pub open spec fn bound(self, i: int, ks: u32) -> Seq<u32> {
        Seq::new(
            self.keysyms@.len(),
            |k: int|
                if i * self.per <= k < (i + 1) * self.per {
                    ks
                } else {
                    self.keysyms@[k]
                },
        )
    }

    /// The keysyms once a character is typed that way.
    pub open spec fn keysyms_after(self, t: Typing) -> Seq<u32> {
        match t {
            Typing::Bind { keycode, keysym } => self.bound(keycode - self.min, keysym),
            _ => self.keysyms@,
        }
    }

    /// Whether `after` is this layout once a character is typed that way.
    pub open spec fn becomes(self, t: Typing, after: Layout) -> bool {
        after.min == self.min && after.per == self.per && after.keysyms@ == self.keysyms_after(t)
    }
}

proof fn lemma_cell(l: Layout, i: int, col: int)
    requires
        l.wf(),
        0 <= i < l.keys(),
        0 <= col < l.per,
    ensures
        0 <= i * l.per,
        0 <= i * l.per + col < l.keysyms@.len() <= usize::MAX,
{
    assert(l.keysyms.len() == l.keysyms@.len());
    assert(0 <= i * l.per && i * l.per + col < l.keys() * l.per) by (nonlinear_arith)
        requires
            0 <= i < l.keys(),
            0 <= col < l.per,
    ;
}

/// There is only one first key.
proof fn lemma_first_is_one(l: Layout, ks: Seq<u32>, col: int, i: int)
    requires
        first_with(l, ks, col, i),
        l.reaches(col),
    ensures
        l.gives_in(ks, col),
        l.key_in(ks, col) == i,
{
    let k = l.key_in(ks, col);
    assert(first_with(l, ks, col, k));
    if k < i {
        assert(!ks.contains(l.at(k, col)));
    } else if i < k {
        assert(!ks.contains(l.at(i, col)));
    }
}

/// There is only one lowest column.
proof fn lemma_lowest_is_one(l: Layout, ks: Seq<u32>, col: int)
    requires
        lowest_with(l, ks, col),
    ensures
        l.has(ks),
        l.column_of(ks) == col,
{
    let c = l.column_of(ks);
    assert(lowest_with(l, ks, c));
    if c < col {
        assert(!l.gives_in(ks, c));
    } else if col < c {
        assert(!l.gives_in(ks, col));
    }
}

/// Where a key gives a keysym in a column, one is the first to do so.
proof fn lemma_some_first(l: Layout, ks: Seq<u32>, col: int, i: int)
    requires
        0 <= i < l.keys(),
        l.reaches(col),
        ks.contains(l.at(i, col)),
    ensures
        l.gives_in(ks, col),
    decreases i,
{
    if exists|j: int| 0 <= j < i && ks.contains(#[trigger] l.at(j, col)) {
        let j = choose|j: int| 0 <= j < i && ks.contains(#[trigger] l.at(j, col));
        lemma_some_first(l, ks, col, j);
    } else {
        assert(first_with(l, ks, col, i));
    }
}

/// Where a column gives a keysym, one is the lowest to do so.
proof fn lemma_some_lowest(l: Layout, ks: Seq<u32>, col: int)
    requires
        l.gives_in(ks, col),
    ensures
        l.has(ks),
    decreases col,
{
    if exists|c: int| 0 <= c < col && #[trigger] l.gives_in(ks, c) {
        let c = choose|c: int| 0 <= c < col && #[trigger] l.gives_in(ks, c);
        lemma_some_lowest(l, ks, c);
    } else {
        assert(lowest_with(l, ks, col));
    }
}

fn is_among(ks: &[u32], k: u32) -> (r: bool)
    ensures
        r == ks@.contains(k),
{
    let mut i: usize = 0;
    while i < ks.len()
        invariant
            i <= ks@.len(),
            forall|j: int| 0 <= j < i ==> ks@[j] != k,
        decreases ks.len() - i,
    {
        if ks[i] == k {
            return true;
        }
        i += 1;
    }
    false
}

impl Layout {
    fn find(&self, ks: &[u32], col: usize) -> (r: Option<u8>)
        requires
            self.wf(),
            self.reaches(col as int),
        ensures
            match r {
                Some(code) => self.gives_in(ks@, col as int) && code == self.code(
                    self.key_in(ks@, col as int),
                ),
                None => !self.gives_in(ks@, col as int),
            },
    {
        let n: usize = self.keysyms.len() / self.per;
        let mut i: usize = 0;
        while i < n
            invariant
                self.wf(),
                self.reaches(col as int),
                n == self.keys(),
                i <= n,
                forall|j: int| 0 <= j < i ==> !ks@.contains(#[trigger] self.at(j, col as int)),
            decreases n - i,
        {
            proof {
                lemma_cell(*self, i as int, col as int);
            }
            if is_among(ks, self.keysyms[i * self.per + col]) {
                proof {
                    assert(first_with(*self, ks@, col as int, i as int));
                    lemma_first_is_one(*self, ks@, col as int, i as int);
                }
                return Some(self.min + i as u8);
            }
            i += 1;
        }
        None
    }

    fn holding_key(&self, keysym: u32, usual: u8) -> (r: u8)
        requires
            self.wf(),
        ensures
            r == self.holding(keysym, usual),
    {
        let ks: [u32; 1] = [keysym];
        proof {
            assert(ks@ =~= seq![keysym]);
        }
        match self.find(ks.as_slice(), 0) {
            Some(code) => code,
            None => usual,
        }
    }

    fn held(&self, col: usize) -> (r: Held)
        requires
            self.wf(),
        ensures
            r == self.held_for(col as int),
    {
        Held {
            shift: if col % 2 == 1 {
                Some(self.holding_key(SHIFT_L, USUAL_SHIFT))
            } else {
                None
            },
            group: if col / 2 % 2 == 1 {
                Some(self.holding_key(MODE_SWITCH, USUAL_MODE_SWITCH))
            } else {
                None
            },
            level: if col / 4 % 2 == 1 {
                Some(self.holding_key(LEVEL3_SHIFT, USUAL_LEVEL3))
            } else {
                None
            },
        }
    }

    fn is_spare(&self, i: usize) -> (r: bool)
        requires
            self.wf(),
            i < self.keys(),
        ensures
            r == self.spare(i as int),
    {
        let mut col: usize = 0;
        while col < self.per
            invariant
                self.wf(),
                i < self.keys(),
                col <= self.per,
                forall|c: int| 0 <= c < col ==> #[trigger] self.at(i as int, c) == 0,
            decreases self.per - col,
        {
            proof {
                lemma_cell(*self, i as int, col as int);
            }
            if self.keysyms[i * self.per + col] != 0 {
                assert(self.at(i as int, col as int) != 0);
                return false;
            }
            col += 1;
        }
        true
    }

    fn find_spare(&self) -> (r: Option<usize>)
        requires
            self.wf(),
        ensures
            match r {
                Some(i) => self.has_spare() && i == (choose|j: int| #[trigger]
                    last_spare(*self, j)) && i < self.keys(),
                None => !self.has_spare(),
            },
    {
        let mut i: usize = self.keysyms.len() / self.per;
        while i > 0
            invariant
                self.wf(),
                i <= self.keys(),
                forall|j: int| i <= j < self.keys() ==> !#[trigger] self.spare(j),
            decreases i,
        {
            if self.is_spare(i - 1) {
                proof {
                    assert(last_spare(*self, i - 1));
                    let k = choose|j: int| #[trigger] last_spare(*self, j);
                    assert(last_spare(*self, k));
                    if k < i - 1 {
                        assert(!self.spare(i - 1));
                    }
                }
                return Some(i - 1);
            }
            i -= 1;
        }
        None
    }

    fn bind(&mut self, i: usize, ks: u32)
        requires
            old(self).wf(),
            i < old(self).keys(),
        ensures
            final(self).wf(),
            final(self).min == old(self).min,
            final(self).per == old(self).per,
            final(self).keysyms@ == old(self).bound(i as int, ks),
    {
        let mut col: usize = 0;
        while col < self.per
            invariant
                old(self).wf(),
                self.wf(),
                i < old(self).keys(),
                self.min == old(self).min,
                self.per == old(self).per,
                self.keysyms@.len() == old(self).keysyms@.len(),
                col <= self.per,
                forall|k: int|
                    0 <= k < self.keysyms@.len() && i * self.per <= k < i * self.per + col
                        ==> #[trigger] self.keysyms@[k] == ks,
                forall|k: int|
                    0 <= k < self.keysyms@.len() && !(i * self.per <= k < i * self.per + col)
                        ==> #[trigger] self.keysyms@[k] == old(self).keysyms@[k],
            decreases self.per - col,
        {
            proof {
                lemma_cell(*self, i as int, col as int);
            }
            let k: usize = i * self.per + col;
            self.keysyms.set(k, ks);
            col += 1;
        }
        proof {
            assert((i + 1) * self.per == i * self.per + self.per) by (nonlinear_arith);
            assert(self.keysyms@ =~= old(self).bound(i as int, ks));
        }
    }

    /// Finds the way to type a character with the keysyms `ks`. Where a key is to be bound,
    /// the layout has it from here on.
    pub fn plan(&mut self, ks: &[u32]) -> (r: Typing)
        requires
            old(self).wf(),
            ks@.len() > 0,
        ensures
            final(self).wf(),
            r == old(self).way(ks@),
            old(self).becomes(r, *final(self)),
    {
        let mut col: usize = 0;
        while col < self.per && col < COLUMNS
            invariant
                self.wf(),
                *self == *old(self),
                col <= self.per,
                col <= COLUMNS,
                forall|c: int| 0 <= c < col ==> !#[trigger] self.gives_in(ks@, c),
            decreases COLUMNS - col,
        {
            if let Some(keycode) = self.find(ks, col) {
                let held: Held = self.held(col);
                proof {
                    assert(lowest_with(*self, ks@, col as int));
                    lemma_lowest_is_one(*self, ks@, col as int);
                }
                return Typing::Press { keycode, held };
            }
            col += 1;
        }
        proof {
            if self.has(ks@) {
                assert(lowest_with(*self, ks@, self.column_of(ks@)));
                assert(!self.gives_in(ks@, self.column_of(ks@)));
            }
        }
        match self.find_spare() {
            Some(i) => {
                let keycode: u8 = self.min + i as u8;
                self.bind(i, ks[0]);
                Typing::Bind { keycode, keysym: ks[0] }
            },
            None => Typing::Never,
        }
    }
}

/// The event of a key that is held, if it is.
pub open spec fn hold(key: Option<u8>, pressed: bool) -> Seq<FakeInput> {
    match key {
        Some(kc) => seq![crate::input::key_event(kc, pressed)],
        None => Seq::empty(),
    }
}

/// The events of a character going down or up. What is held goes down first and comes up
/// last.
pub open spec fn typing_events(t: Typing, pressed: bool) -> Seq<FakeInput> {
    match t {
        Typing::Press { keycode, held } => if pressed {
            hold(held.shift, true) + hold(held.group, true) + hold(held.level, true) + seq![
                crate::input::key_event(keycode, true),
            ]
        } else {
            seq![crate::input::key_event(keycode, false)] + hold(held.level, false) + hold(
                held.group,
                false,
            ) + hold(held.shift, false)
        },
        Typing::Bind { keycode, keysym: _ } => seq![crate::input::key_event(keycode, pressed)],
        Typing::Never => Seq::empty(),
    }
}

fn push_held(v: &mut Vec<FakeInput>, key: Option<u8>, pressed: bool)
    ensures
        final(v)@ == old(v)@ + hold(key, pressed),
{
    if let Some(kc) = key {
        v.push(press_key(kc, pressed));
    }
    proof {
        assert(v@ =~= old(v)@ + hold(key, pressed));
    }
}

/// The events to inject for a character that goes down or up.
pub fn type_events(t: Typing, pressed: bool) -> (r: Vec<FakeInput>)
    ensures
        r@ == typing_events(t, pressed),
{
    let mut v: Vec<FakeInput> = Vec::new();
    match t {
        Typing::Press { keycode, held } => if pressed {
            push_held(&mut v, held.shift, true);
            push_held(&mut v, held.group, true);
            push_held(&mut v, held.level, true);
            v.push(press_key(keycode, true));
        } else {
            v.push(press_key(keycode, false));
            push_held(&mut v, held.level, false);
            push_held(&mut v, held.group, false);
            push_held(&mut v, held.shift, false);
        },
        Typing::Bind { keycode, keysym: _ } => v.push(press_key(keycode, pressed)),
        Typing::Never => {},
    }
    proof {
        assert(v@ =~= typing_events(t, pressed));
    }
    v
}

// ------------------------------------------------------------ laws

/// A character that some key gives, in whatever column and by whatever of its keysyms, is
/// typed with such a key while the keys of its column are held. Only a character that no
/// key gives is bound, or not typed.
pub proof fn law_layout_comes_first(l: Layout, ks: Seq<u32>, i: int, col: int)
    requires
        l.wf(),
        0 <= i < l.keys(),
        l.reaches(col),
        ks.contains(l.at(i, col)),
    ensures
        exists|j: int, c: int|
            {
                &&& 0 <= j < l.keys()
                &&& 0 <= c <= col
                &&& ks.contains(#[trigger] l.at(j, c))
                &&& l.way(ks) == (Typing::Press { keycode: l.code(j), held: l.held_for(c) })
            },
{
    lemma_some_first(l, ks, col, i);
    lemma_some_lowest(l, ks, col);
    let c = l.column_of(ks);
    assert(lowest_with(l, ks, c));
    let j = l.key_in(ks, c);
    assert(first_with(l, ks, c, j));
    if col < c {
        assert(!l.gives_in(ks, col));
    }
    assert(ks.contains(l.at(j, c)));
}

/// A character that no key gives is bound to a spare key if there is one.
pub proof fn law_only_missing_characters_are_bound(l: Layout, ks: Seq<u32>)
    requires
        l.wf(),
        forall|i: int, col: int|
            0 <= i < l.keys() && l.reaches(col) ==> !ks.contains(#[trigger] l.at(i, col)),
    ensures
        match l.way(ks) {
            Typing::Bind { keycode, keysym } => keysym == ks[0] && l.spare(keycode - l.min),
            Typing::Never => forall|i: int| !#[trigger] l.spare(i),
            Typing::Press { keycode: _, held: _ } => false,
        },
{
    if l.has(ks) {
        let c = l.column_of(ks);
        assert(lowest_with(l, ks, c));
        let j = l.key_in(ks, c);
        assert(first_with(l, ks, c, j));
        assert(ks.contains(l.at(j, c)));
    }
    if l.has_spare() {
        let i = choose|i: int| #[trigger] last_spare(l, i);
        assert(last_spare(l, i));
    } else {
        assert forall|i: int| !#[trigger] l.spare(i) by {
            if l.spare(i) {
                lemma_some_last_spare(l, i);
            }
        }
    }
}

proof fn lemma_some_last_spare(l: Layout, i: int)
    requires
        l.spare(i),
    ensures
        l.has_spare(),
    decreases l.keys() - i,
{
    if exists|j: int| i < j < l.keys() && #[trigger] l.spare(j) {
        let j = choose|j: int| i < j < l.keys() && #[trigger] l.spare(j);
        lemma_some_last_spare(l, j);
    } else {
        assert(last_spare(l, i));
    }
}

/// A character that had to be bound is on its key from then on, with nothing held.
pub proof fn law_bound_character_stays(before: Layout, ks: Seq<u32>, after: Layout)
    requires
        before.wf(),
        ks.len() > 0,
        before.way(ks) is Bind,
        before.becomes(before.way(ks), after),
    ensures
        after.way(ks) == (Typing::Press {
            keycode: before.way(ks)->Bind_keycode,
            held: Held { shift: None, group: None, level: None },
        }),
{
    let i = choose|i: int| #[trigger] last_spare(before, i);
    assert(last_spare(before, i));
    assert(before.way(ks)->Bind_keycode - before.min == i);
    lemma_bound_cells(before, ks, after, i);
    assert(ks.contains(ks[0]));
    assert(after.at(i, 0) == ks[0]);
    assert forall|j: int| 0 <= j < i implies !ks.contains(#[trigger] after.at(j, 0)) by {
        assert(after.at(j, 0) == before.at(j, 0));
        if ks.contains(before.at(j, 0)) {
            lemma_some_first(before, ks, 0, j);
            lemma_some_lowest(before, ks, 0);
        }
    }
    assert(first_with(after, ks, 0, i));
    lemma_first_is_one(after, ks, 0, i);
    assert(lowest_with(after, ks, 0));
    lemma_lowest_is_one(after, ks, 0);
}

proof fn lemma_bound_cells(before: Layout, ks: Seq<u32>, after: Layout, i: int)
    requires
        before.wf(),
        0 <= i < before.keys(),
        after.per == before.per,
        after.keysyms@ == before.bound(i, ks[0]),
    ensures
        after.keys() == before.keys(),
        forall|j: int, col: int|
            0 <= j < before.keys() && 0 <= col < before.per ==> #[trigger] after.at(j, col) == (
            if j == i {
                ks[0]
            } else {
                before.at(j, col)
            }),
{
    let per = before.per as int;
    assert forall|j: int, col: int|
        0 <= j < before.keys() && 0 <= col < per implies #[trigger] after.at(j, col) == (if j
        == i {
        ks[0]
    } else {
        before.at(j, col)
    }) by {
        lemma_cell(before, j, col);
        let k = j * per + col;
        assert((i * per <= k < (i + 1) * per) == (j == i)) by (nonlinear_arith)
            requires
                k == j * per + col,
                0 <= col < per,
        ;
    }
}

/// Binding a character takes away none that the layout has: whatever a key gives, it goes
/// on giving.
pub proof fn law_binding_takes_nothing_away(
    before: Layout,
    ks: Seq<u32>,
    after: Layout,
    i: int,
    col: int,
)
    requires
        before.wf(),
        ks.len() > 0,
        before.becomes(before.way(ks), after),
        0 <= i < before.keys(),
        0 <= col < before.per,
        before.at(i, col) != 0,
    ensures
        after.at(i, col) == before.at(i, col),
{
    if before.way(ks) is Bind {
        let spare = choose|j: int| #[trigger] last_spare(before, j);
        assert(last_spare(before, spare));
        lemma_bound_cells(before, ks, after, spare);
    }
}

/// Every key that goes down with a character comes up with it.
pub proof fn law_typing_leaves_no_key_down(t: Typing, kc: u8)
    ensures
        typing_events(t, true).contains(crate::input::key_event(kc, true)) <==> typing_events(
            t,
            false,
        ).contains(crate::input::key_event(kc, false)),
{
    let down = crate::input::key_event(kc, true);
    let up = crate::input::key_event(kc, false);
    if let Typing::Press { keycode, held } = t {
        lemma_hold(held.shift, kc);
        lemma_hold(held.group, kc);
        lemma_hold(held.level, kc);
        let key_down = seq![crate::input::key_event(keycode, true)];
        let key_up = seq![crate::input::key_event(keycode, false)];
        lemma_hold(Some(keycode), kc);
        lemma_joined(hold(held.shift, true), hold(held.group, true), down);
        lemma_joined(
            hold(held.shift, true) + hold(held.group, true),
            hold(held.level, true),
            down,
        );
        lemma_joined(
            hold(held.shift, true) + hold(held.group, true) + hold(held.level, true),
            key_down,
            down,
        );
        lemma_joined(key_up, hold(held.level, false), up);
        lemma_joined(key_up + hold(held.level, false), hold(held.group, false), up);
        lemma_joined(
            key_up + hold(held.level, false) + hold(held.group, false),
            hold(held.shift, false),
            up,
        );
    } else if let Typing::Bind { keycode, keysym: _ } = t {
        lemma_hold(Some(keycode), kc);
    }
}

proof fn lemma_hold(key: Option<u8>, kc: u8)
    ensures
        hold(key, true).contains(crate::input::key_event(kc, true)) <==> key == Some(kc),
        hold(key, false).contains(crate::input::key_event(kc, false)) <==> key == Some(kc),
{
    if let Some(k) = key {
        assert(hold(key, true)[0] == crate::input::key_event(k, true));
        assert(hold(key, false)[0] == crate::input::key_event(k, false));
    }
}

proof fn lemma_joined(a: Seq<FakeInput>, b: Seq<FakeInput>, e: FakeInput)
    ensures
        (a + b).contains(e) <==> a.contains(e) || b.contains(e),
{
    if a.contains(e) {
        let i = choose|i: int| 0 <= i < a.len() && a[i] == e;
        assert((a + b)[i] == e);
    }
    if b.contains(e) {
        let i = choose|i: int| 0 <= i < b.len() && b[i] == e;
        assert((a + b)[a.len() + i] == e);
    }
    if (a + b).contains(e) {
        let i = choose|i: int| 0 <= i < (a + b).len() && (a + b)[i] == e;
        if i < a.len() {
            assert(a[i] == e);
        } else {
            assert(b[i - a.len()] == e);
        }
    }
}

/// Which keys are held for a column: shift for the odd ones; the key of the other group for
/// the third and fourth of every four; and the key of the third level for the upper four.
/// Each is the first key that has its keysym in the first column, or where no key has it the
/// one that has it by custom.
pub proof fn law_columns_are_held_by_their_keys(l: Layout, col: int, i: int)
    requires
        l.wf(),
        0 <= col < 8,
    ensures
        l.held_for(col).shift is Some <==> col == 1 || col == 3 || col == 5 || col == 7,
        l.held_for(col).group is Some <==> col == 2 || col == 3 || col == 6 || col == 7,
        l.held_for(col).level is Some <==> col >= 4,
        held_key(l, 0xffe1, 50, i, l.held_for(col).shift),
        held_key(l, 0xff7e, 203, i, l.held_for(col).group),
        held_key(l, 0xfe03, 92, i, l.held_for(col).level),
{
    lemma_held_key(l, 0xffe1, 50, i);
    lemma_held_key(l, 0xff7e, 203, i);
    lemma_held_key(l, 0xfe03, 92, i);
}

/// Whether a key that is held is the right one, as far as key `i` tells: that key if it is
/// the first with the keysym, and the one by custom if no key has it.
pub open spec fn held_key(l: Layout, keysym: u32, usual: u8, i: int, held: Option<u8>) -> bool {
    let n = l.keysyms@.len() as int / l.per as int;
    &&& held is Some && 0 <= i < n && l.keysyms@[i * l.per] == keysym && (forall|j: int|
        0 <= j < i ==> #[trigger] l.keysyms@[j * l.per] != keysym) ==> held == Some(
        (l.min + i) as u8,
    )
    &&& held is Some && (forall|j: int| 0 <= j < n ==> #[trigger] l.keysyms@[j * l.per] != keysym)
        ==> held == Some(usual)
}

proof fn lemma_held_key(l: Layout, keysym: u32, usual: u8, i: int)
    requires
        l.wf(),
    ensures
        held_key(l, keysym, usual, i, Some(l.holding(keysym, usual))),
{
    let ks = seq![keysym];
    assert(ks[0] == keysym);
    if 0 <= i < l.keys() && l.keysyms@[i * l.per] == keysym && (forall|j: int|
        0 <= j < i ==> #[trigger] l.keysyms@[j * l.per] != keysym) {
        assert forall|j: int| 0 <= j < i implies !ks.contains(#[trigger] l.at(j, 0)) by {
            assert(l.keysyms@[j * l.per] != keysym);
        }
        assert(ks.contains(l.at(i, 0)));
        assert(first_with(l, ks, 0, i));
        lemma_first_is_one(l, ks, 0, i);
    }
    if l.gives_in(ks, 0) {
        let k = l.key_in(ks, 0);
        assert(first_with(l, ks, 0, k));
        assert(l.keysyms@[k * l.per] == keysym);
    }
}

/// A character goes up as it went down, the other way round: the same keys, in the opposite
/// order. Its own key is the last to go down, after all that are held for it.
pub proof fn law_typing_is_undone_in_reverse(t: Typing, i: int)
    ensures
        ({
            let down = typing_events(t, true);
            let up = typing_events(t, false);
            &&& up.len() == down.len()
            &&& 0 <= i < down.len() ==> down[i].kind == 2 && up[i].kind == 3 && up[i].detail
                == down[down.len() - 1 - i].detail
            &&& t matches Typing::Press { keycode, held } ==> down.len() > 0 && down.last().detail
                == keycode
            &&& t matches Typing::Bind { keycode, keysym } ==> down.len() == 1 && down[0].detail
                == keycode
            &&& t is Never ==> down.len() == 0
        }),
{
    if let Typing::Press { keycode, held } = t {
        let down = typing_events(t, true);
        let up = typing_events(t, false);
        let n1 = hold(held.shift, true).len();
        let n2 = hold(held.group, true).len();
        let n3 = hold(held.level, true).len();
        assert(n1 <= 1 && n2 <= 1 && n3 <= 1);
        assert(hold(held.shift, false).len() == n1);
        assert(hold(held.group, false).len() == n2);
        assert(hold(held.level, false).len() == n3);
        assert(down.len() == n1 + n2 + n3 + 1);
    }
}

/// All that are held for a character go down with it: shift first, then the key of the
/// group, then that of the level.
pub proof fn law_held_keys_go_down_first(keycode: u8, held: Held)
    ensures
        ({
            let down = typing_events(Typing::Press { keycode, held }, true);
            let n1: int = if held.shift is Some {
                1
            } else {
                0
            };
            let n2: int = if held.group is Some {
                1
            } else {
                0
            };
            let n3: int = if held.level is Some {
                1
            } else {
                0
            };
            &&& down.len() == n1 + n2 + n3 + 1
            &&& held.shift matches Some(k) ==> down[0].detail == k
            &&& held.group matches Some(k) ==> down[n1].detail == k
            &&& held.level matches Some(k) ==> down[n1 + n2].detail == k
        }),
{
}

/// A character is typed in the lowest column that has it, with the lowest key that has it
/// there, by whatever of its keysyms.
pub proof fn law_lowest_column_and_key_are_pressed(l: Layout, ks: Seq<u32>, i: int, col: int)
    requires
        l.wf(),
        0 <= i < l.keysyms@.len() as int / l.per as int,
        0 <= col < 8,
        col < l.per,
        ks.contains(l.keysyms@[i * l.per + col]),
        forall|j: int, c: int|
            0 <= j < l.keysyms@.len() as int / l.per as int && 0 <= c < col ==> !ks.contains(
                #[trigger] l.keysyms@[j * l.per + c],
            ),
        forall|j: int|
            0 <= j < i ==> !ks.contains(#[trigger] l.keysyms@[j * l.per + col]),
    ensures
        l.way(ks) == (Typing::Press { keycode: (l.min + i) as u8, held: l.held_for(col) }),
{
    assert forall|j: int| 0 <= j < i implies !ks.contains(#[trigger] l.at(j, col)) by {
        assert(!ks.contains(l.keysyms@[j * l.per + col]));
    }
    assert(first_with(l, ks, col, i));
    lemma_first_is_one(l, ks, col, i);
    assert forall|c: int| 0 <= c < col implies !#[trigger] l.gives_in(ks, c) by {
        if l.gives_in(ks, c) {
            let j = l.key_in(ks, c);
            assert(first_with(l, ks, c, j));
            assert(ks.contains(l.keysyms@[j * l.per + c]));
        }
    }
    assert(lowest_with(l, ks, col));
    lemma_lowest_is_one(l, ks, col);
}

/// Whether a key has a keysym in some column.
pub open spec fn gives_something(l: Layout, j: int) -> bool {
    exists|c: int| 0 <= c < l.per && #[trigger] l.keysyms@[j * l.per + c] != 0
}

/// A character that no key gives in its first eight columns is bound, by its first keysym,
/// to the last key that has nothing in any column.
pub proof fn law_last_empty_key_is_bound(l: Layout, ks: Seq<u32>, i: int)
    requires
        l.wf(),
        forall|j: int, c: int|
            0 <= j < l.keysyms@.len() as int / l.per as int && 0 <= c < 8 && c < l.per
                ==> !ks.contains(#[trigger] l.keysyms@[j * l.per + c]),
        0 <= i < l.keysyms@.len() as int / l.per as int,
        forall|c: int| 0 <= c < l.per ==> #[trigger] l.keysyms@[i * l.per + c] == 0,
        forall|j: int|
            i < j < l.keysyms@.len() as int / l.per as int ==> #[trigger] gives_something(l, j),
    ensures
        l.way(ks) == (Typing::Bind { keycode: (l.min + i) as u8, keysym: ks[0] }),
{
    assert forall|c: int| 0 <= c < l.per implies #[trigger] l.at(i, c) == 0 by {
        assert(l.keysyms@[i * l.per + c] == 0);
    }
    assert(l.spare(i));
    assert forall|j: int| i < j < l.keys() implies !#[trigger] l.spare(j) by {
        assert(gives_something(l, j));
        let c = choose|c: int| 0 <= c < l.per && #[trigger] l.keysyms@[j * l.per + c] != 0;
        assert(l.at(j, c) != 0);
    }
    assert(last_spare(l, i));
    let k = choose|k: int| #[trigger] last_spare(l, k);
    assert(last_spare(l, k));
    assert(k == i) by {
        if k < i {
            assert(!l.spare(i));
        } else if i < k {
            assert(!l.spare(k));
        }
    }
    assert forall|j: int, c: int| 0 <= j < l.keys() && l.reaches(c) implies !ks.contains(
        #[trigger] l.at(j, c),
    ) by {
        assert(!ks.contains(l.keysyms@[j * l.per + c]));
    }
    law_only_missing_characters_are_bound(l, ks);
}

/// The key that a character is bound to is one that has nothing.
pub(crate) proof fn lemma_bound_key(l: Layout, ks: Seq<u32>)
    requires
        l.wf(),
        l.way(ks) is Bind,
    ensures
        l.spare(l.way(ks)->Bind_keycode - l.min),
{
    let i = choose|i: int| #[trigger] last_spare(l, i);
    assert(last_spare(l, i));
}

/// What stands in the row of a key that was bound, before and after.
pub(crate) proof fn lemma_bound_row(l: Layout, ks: Seq<u32>, after: Layout, col: int)
    requires
        l.wf(),
        l.way(ks) is Bind,
        l.becomes(l.way(ks), after),
        0 <= col < l.per,
    ensures
        ({
            let i = l.way(ks)->Bind_keycode - l.min;
            l.keysyms@[i * l.per + col] == 0 && after.keysyms@[i * l.per + col] == ks[0]
        }),
{
    let i = l.way(ks)->Bind_keycode - l.min;
    lemma_bound_key(l, ks);
    lemma_bound_cells(l, ks, after, i);
    assert(l.at(i, col) == 0);
    assert(after.at(i, col) == ks[0]);
}

} // verus!
