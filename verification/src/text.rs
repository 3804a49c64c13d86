//! Small pieces of text: comparing, cutting, and decimal numbers.

use vstd::prelude::*;
use vstd::string::*;

verus! {

/// Whether two strings are equal.
pub fn same(a: &str, b: &str) -> (r: bool)
    ensures
        r == (a@ == b@),
{
    a.to_owned() == b.to_owned()
}

// ------------------------------------------------------------ decimals

/// The character of a digit.
pub open spec fn digit_char(d: nat) -> char {
    (d + 48) as char
}

/// The decimal digits of a number.
pub open spec fn decimal_of(n: nat) -> Seq<char>
    decreases n,
{
    if n < 10 {
        seq![digit_char(n)]
    } else {
        decimal_of(n / 10).push(digit_char(n % 10))
    }
}

fn digit(d: u32) -> (r: &'static str)
    requires
        d < 10,
    ensures
        r@ == seq![digit_char(d as nat)],
{
    proof {
        reveal_strlit("0");
        reveal_strlit("1");
        reveal_strlit("2");
        reveal_strlit("3");
        reveal_strlit("4");
        reveal_strlit("5");
        reveal_strlit("6");
        reveal_strlit("7");
        reveal_strlit("8");
        reveal_strlit("9");
    }
    match d {
        0 => "0",
        1 => "1",
        2 => "2",
        3 => "3",
        4 => "4",
        5 => "5",
        6 => "6",
        7 => "7",
        8 => "8",
        _ => "9",
    }
}

/// Writes a number in decimal.
pub fn decimal(n: u32) -> (r: String)
    ensures
        r@ == decimal_of(n as nat),
    decreases n,
{
    if n < 10 {
        digit(n).to_owned()
    } else {
        let mut s: String = decimal(n / 10);
        s.append(digit(n % 10));
        proof {
            assert(s@ =~= decimal_of(n as nat));
        }
        s
    }
}

/// Whether a character is a decimal digit.
pub open spec fn is_digit(c: char) -> bool {
    '0' <= c && c <= '9'
}

/// The number that a row of digits stands for.
pub open spec fn digits_value(s: Seq<char>) -> nat
    decreases s.len(),
{
    if s.len() == 0 {
        0
    } else {
        digits_value(s.drop_last()) * 10 + (s.last() as nat - 48) as nat
    }
}

/// Whether there is nothing but digits in `s`.
pub open spec fn all_digits(s: Seq<char>) -> bool {
    forall|i: int| 0 <= i < s.len() ==> is_digit(#[trigger] s[i])
}

/// `s` without a plus sign in front.
pub open spec fn without_plus(s: Seq<char>) -> Seq<char> {
    if s.len() > 0 && s[0] == '+' {
        s.skip(1)
    } else {
        s
    }
}

/// The number that `s` stands for: one digit at least, with a plus sign in front or
/// without; nothing else, and nothing that takes more than 32 bits.
pub open spec fn number_of(s: Seq<char>) -> Option<u32> {
    let t = without_plus(s);
    if t.len() > 0 && all_digits(t) && digits_value(t) <= u32::MAX {
        Some(digits_value(t) as u32)
    } else {
        None
    }
}

/// A longer row of digits stands for no smaller a number.
proof fn lemma_digits_grow(s: Seq<char>, i: int)
    requires
        0 <= i <= s.len(),
        all_digits(s),
    ensures
        digits_value(s.take(i)) <= digits_value(s),
    decreases s.len() - i,
{
    if i < s.len() {
        assert(s.take(i + 1).drop_last() =~= s.take(i));
        assert(s.take(i + 1).last() == s[i]);
        lemma_digits_grow(s, i + 1);
    } else {
        assert(s.take(i) =~= s);
    }
}

/// Reads a number in decimal.
pub fn parse_u32(s: &str) -> (r: Option<u32>)
    ensures
        r == number_of(s@),
{
    let n: usize = s.unicode_len();
    let start: usize = if n > 0 && s.get_char(0) == '+' {
        1
    } else {
        0
    };
    let ghost t = without_plus(s@);
    proof {
        assert(t =~= s@.skip(start as int));
    }
    if start == n {
        return None;
    }
    let mut value: u64 = 0;
    let mut i: usize = start;
    while i < n
        invariant
            n == s@.len(),
            start <= i <= n,
            t == without_plus(s@),
            t == s@.skip(start as int),
            t.len() == n - start,
            forall|j: int| 0 <= j < i - start ==> is_digit(#[trigger] t[j]),
            value == digits_value(t.take(i - start)),
            value <= u32::MAX,
        decreases n - i,
    {
        let c: char = s.get_char(i);
        proof {
            assert(t[i - start] == c);
        }
        if !('0' <= c && c <= '9') {
            return None;
        }
        value = value * 10 + (c as u32 - 48) as u64;
        proof {
            let k = i - start;
            assert(t.take(k + 1).drop_last() =~= t.take(k));
            assert(t.take(k + 1).last() == c);
        }
        if value > u32::MAX as u64 {
            proof {
                if number_of(s@) is Some {
                    lemma_digits_grow(t, i - start + 1);
                }
            }
            return None;
        }
        i += 1;
    }
    proof {
        assert(t.take(n - start) =~= t);
    }
    Some(value as u32)
}

/// A number that was written is read back.
pub proof fn law_decimal_round_trip(n: u32)
    ensures
        number_of(decimal_of(n as nat)) == Some(n),
{
    lemma_decimal_digits(n as nat);
    let s = decimal_of(n as nat);
    assert(is_digit(s[0]));
}

proof fn lemma_decimal_digits(n: nat)
    ensures
        decimal_of(n).len() > 0,
        all_digits(decimal_of(n)),
        digits_value(decimal_of(n)) == n,
    decreases n,
{
    let s = decimal_of(n);
    if n >= 10 {
        lemma_decimal_digits(n / 10);
        assert(s.drop_last() =~= decimal_of(n / 10));
    } else {
        assert(s.drop_last() =~= Seq::empty());
        assert(digits_value(s.drop_last()) == 0);
    }
}

// ------------------------------------------------------------ cutting

/// What follows the last `c` in `s`; all of `s` if there is none.
pub open spec fn after_last(s: Seq<char>, c: char) -> Seq<char>
    decreases s.len(),
{
    if s.len() == 0 || s.last() == c {
        Seq::empty()
    } else {
        after_last(s.drop_last(), c).push(s.last())
    }
}

/// What precedes the first `c` in `s`; all of `s` if there is none.
pub open spec fn before_first(s: Seq<char>, c: char) -> Seq<char>
    decreases s.len(),
{
    if s.len() == 0 || s[0] == c {
        Seq::empty()
    } else {
        seq![s[0]] + before_first(s.drop_first(), c)
    }
}

proof fn lemma_after_last(s: Seq<char>, c: char, i: int)
    requires
        0 <= i <= s.len(),
        i > 0 ==> s[i - 1] == c,
        forall|j: int| i <= j < s.len() ==> s[j] != c,
    ensures
        after_last(s, c) == s.skip(i),
    decreases s.len(),
{
    if i < s.len() {
        lemma_after_last(s.drop_last(), c, i);
        assert(s.skip(i) =~= s.drop_last().skip(i).push(s.last()));
    } else {
        assert(s.skip(i) =~= Seq::empty());
    }
}

proof fn lemma_before_first(s: Seq<char>, c: char, i: int)
    requires
        0 <= i <= s.len(),
        i < s.len() ==> s[i] == c,
        forall|j: int| 0 <= j < i ==> s[j] != c,
    ensures
        before_first(s, c) == s.take(i),
    decreases i,
{
    if i > 0 {
        assert forall|j: int| 0 <= j < i - 1 implies s.drop_first()[j] != c by {
            assert(s.drop_first()[j] == s[j + 1]);
        }
        lemma_before_first(s.drop_first(), c, i - 1);
        assert(s.take(i) =~= seq![s[0]] + s.drop_first().take(i - 1));
    } else {
        assert(s.take(i) =~= Seq::empty());
    }
}

/// Cuts `s` behind the last `c`.
pub fn cut_after_last(s: &str, c: char) -> (r: &str)
    ensures
        r@ == after_last(s@, c),
{
    let n: usize = s.unicode_len();
    let mut i: usize = n;
    while i > 0 && s.get_char(i - 1) != c
        invariant
            n == s@.len(),
            i <= n,
            forall|j: int| i <= j < n ==> s@[j] != c,
        decreases i,
    {
        i -= 1;
    }
    proof {
        lemma_after_last(s@, c, i as int);
        assert(s@.subrange(i as int, n as int) =~= s@.skip(i as int));
    }
    s.substring_char(i, n)
}

/// Cuts `s` before the first `c`.
pub fn cut_before_first(s: &str, c: char) -> (r: &str)
    ensures
        r@ == before_first(s@, c),
{
    let n: usize = s.unicode_len();
    let mut i: usize = 0;
    while i < n && s.get_char(i) != c
        invariant
            n == s@.len(),
            i <= n,
            forall|j: int| 0 <= j < i ==> s@[j] != c,
        decreases n - i,
    {
        i += 1;
    }
    proof {
        lemma_before_first(s@, c, i as int);
        assert(s@.subrange(0, i as int) =~= s@.take(i as int));
    }
    s.substring_char(0, i)
}

/// `s` without the line ends behind it.
pub open spec fn without_line_end(s: Seq<char>) -> Seq<char>
    decreases s.len(),
{
    if s.len() > 0 && (s.last() == '\n' || s.last() == '\r') {
        without_line_end(s.drop_last())
    } else {
        s
    }
}

/// Cuts off the line ends behind `s`.
pub fn cut_line_end(s: &str) -> (r: &str)
    ensures
        r@ == without_line_end(s@),
{
    let mut n: usize = s.unicode_len();
    proof {
        assert(s@.take(n as int) =~= s@);
    }
    while n > 0 && (s.get_char(n - 1) == '\n' || s.get_char(n - 1) == '\r')
        invariant
            n <= s@.len(),
            without_line_end(s@) == without_line_end(s@.take(n as int)),
        decreases n,
    {
        proof {
            assert(s@.take(n as int).drop_last() =~= s@.take(n - 1));
        }
        n -= 1;
    }
    proof {
        assert(s@.subrange(0, n as int) =~= s@.take(n as int));
    }
    s.substring_char(0, n)
}

/// Whether `c` is in `s`.
pub fn contains_char(s: &str, c: char) -> (r: bool)
    ensures
        r == s@.contains(c),
{
    let n: usize = s.unicode_len();
    let mut i: usize = 0;
    while i < n
        invariant
            n == s@.len(),
            i <= n,
            forall|j: int| 0 <= j < i ==> s@[j] != c,
        decreases n - i,
    {
        if s.get_char(i) == c {
            return true;
        }
        i += 1;
    }
    false
}

// ------------------------------------------------------------ laws

/// The decimals of a number end with its last digit, in front of which are those of a tenth
/// of it; a number below ten is its digit.
pub proof fn law_last_digit_is_last(n: nat)
    ensures
        decimal_of(n).len() > 0,
        decimal_of(n).last() as int == '0' as int + n % 10,
        n >= 10 ==> decimal_of(n).drop_last() == decimal_of(n / 10),
        n < 10 ==> decimal_of(n).len() == 1,
{
    if n >= 10 {
        assert(decimal_of(n).drop_last() =~= decimal_of(n / 10));
    }
}

/// A digit behind a number makes ten times the number plus the digit, as long as that fits
/// into 32 bits; what does not fit is no number.
pub proof fn law_digits_count_tenfold(s: Seq<char>, n: u32, d: char)
    requires
        number_of(s) == Some(n),
        '0' <= d && d <= '9',
    ensures
        10 * n + (d as int - '0' as int) <= u32::MAX ==> number_of(s.push(d)) == Some(
            (10 * n + (d as int - '0' as int)) as u32,
        ),
        10 * n + (d as int - '0' as int) > u32::MAX ==> number_of(s.push(d)) is None,
{
    let t = without_plus(s);
    let more = without_plus(s.push(d));
    assert(more =~= t.push(d));
    assert(more.drop_last() =~= t);
    assert forall|i: int| 0 <= i < more.len() implies is_digit(#[trigger] more[i]) by {
        if i < t.len() {
            assert(is_digit(t[i]));
        }
    }
}

/// A digit is a number, a plus sign in front changes nothing, and anything else in the text
/// makes it none.
pub proof fn law_only_digits_are_numbers(d: char, s: Seq<char>, i: int)
    ensures
        '0' <= d && d <= '9' ==> number_of(seq![d]) == Some((d as int - '0' as int) as u32),
        number_of(Seq::empty()) is None,
        number_of(seq!['+']) is None,
        s.len() > 0 && s[0] != '+' ==> number_of(seq!['+'] + s) == number_of(s),
        0 <= i < s.len() && !('0' <= s[i] && s[i] <= '9') && !(i == 0 && s[0] == '+')
            ==> number_of(s) is None,
{
    assert(without_plus(seq![d]) =~= if d == '+' {
        Seq::empty()
    } else {
        seq![d]
    });
    assert(seq![d].drop_last() =~= Seq::empty());
    assert(digits_value(seq![d].drop_last()) == 0);
    assert(without_plus(seq!['+']) =~= Seq::empty());
    if s.len() > 0 && s[0] != '+' {
        assert((seq!['+'] + s).skip(1) =~= s);
    }
    if 0 <= i < s.len() && !('0' <= s[i] && s[i] <= '9') && !(i == 0 && s[0] == '+') {
        let t = without_plus(s);
        if s[0] == '+' {
            assert(t[i - 1] == s[i]);
        } else {
            assert(t[i] == s[i]);
        }
    }
}

/// What is cut behind the last of a character is all that follows it; without that
/// character nothing is cut.
pub proof fn law_cut_behind_the_last(front: Seq<char>, c: char, back: Seq<char>)
    requires
        !back.contains(c),
    ensures
        after_last(front + seq![c] + back, c) == back,
        after_last(back, c) == back,
{
    let s = front + seq![c] + back;
    let i = front.len() as int + 1;
    assert forall|j: int| i <= j < s.len() implies s[j] != c by {
        assert(s[j] == back[j - i]);
    }
    lemma_after_last(s, c, i);
    assert(s.skip(i) =~= back);
    lemma_after_last(back, c, 0);
    assert(back.skip(0) =~= back);
}

/// What is cut before the first of a character is all that precedes it; without that
/// character nothing is cut.
pub proof fn law_cut_before_the_first(front: Seq<char>, c: char, back: Seq<char>)
    requires
        !front.contains(c),
    ensures
        before_first(front + seq![c] + back, c) == front,
        before_first(front, c) == front,
{
    let s = front + seq![c] + back;
    let i = front.len() as int;
    assert forall|j: int| 0 <= j < i implies s[j] != c by {
        assert(s[j] == front[j]);
    }
    lemma_before_first(s, c, i);
    assert(s.take(i) =~= front);
    lemma_before_first(front, c, i);
    assert(front.take(i) =~= front);
}

/// Line ends behind a text are cut off, however many there are, and nothing else is.
pub proof fn law_line_ends_are_cut(s: Seq<char>, ends: Seq<char>)
    requires
        s.len() > 0 ==> s.last() != '\n' && s.last() != '\r',
        forall|i: int| 0 <= i < ends.len() ==> #[trigger] ends[i] == '\n' || ends[i] == '\r',
    ensures
        without_line_end(s + ends) == s,
    decreases ends.len(),
{
    let all = s + ends;
    if ends.len() == 0 {
        assert(all =~= s);
    } else {
        assert(all.last() == ends[ends.len() - 1]);
        assert(all.drop_last() =~= s + ends.drop_last());
        law_line_ends_are_cut(s, ends.drop_last());
    }
}

} // verus!
