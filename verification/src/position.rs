//! Byte-offset spans and position-carrying value wrappers.
//!
//! Everything the calculator reports to the user is tied back to the place in
//! the input it came from. `Position` is a byte-offset span, `Positioned<T>`
//! attaches a mandatory span to a value, and `MaybePositioned<T>` attaches an
//! optional one (for errors whose position cannot always be attributed).

use vstd::prelude::*;

verus! {

/// A span into the original input: `start` byte offset and `width` in bytes.
#[derive(Clone, Copy, Debug, PartialEq, Eq, Structural)]
pub struct Position {
    pub start: usize,
    pub width: usize,
}

/// The smallest span covering both `pos1` and `pos2`, as a spec value.
pub open spec fn spec_span(pos1: Position, pos2: Position) -> Position {
    let start = if pos1.start <= pos2.start {
        pos1.start
    } else {
        pos2.start
    };
    let end1 = pos1.start + pos1.width;
    let end2 = pos2.start + pos2.width;
    let end = if end1 >= end2 {
        end1
    } else {
        end2
    };
    Position { start, width: (end - start) as usize }
}

/// Puts four values in nondecreasing order with a five-comparator sorting
/// network; `lemma_sort4_sorted` shows the result is ordered.
pub open spec fn sort4(p: (int, int, int, int)) -> (int, int, int, int) {
    let (a, b, c, d) = p;
    let (a, b) = if a > b { (b, a) } else { (a, b) };
    let (c, d) = if c > d { (d, c) } else { (c, d) };
    let (a, c) = if a > c { (c, a) } else { (a, c) };
    let (b, d) = if b > d { (d, b) } else { (b, d) };
    let (b, c) = if b > c { (c, b) } else { (b, c) };
    (a, b, c, d)
}

pub proof fn lemma_sort4_sorted(p: (int, int, int, int))
    ensures
        sort4(p).0 <= sort4(p).1 <= sort4(p).2 <= sort4(p).3,
{
}

/// The span strictly between the ends of `pos1` and `pos2`: of the four span
/// end points in sorted order, the middle two delimit it.
pub open spec fn spec_between(pos1: Position, pos2: Position) -> Position {
    let sorted = sort4(
        (pos1.start as int, pos1.start + pos1.width, pos2.start as int, pos2.start + pos2.width),
    );
    Position { start: sorted.1 as usize, width: (sorted.2 - sorted.1) as usize }
}

impl Position {
    /// The smallest span covering both arguments.
    pub fn from_span(pos1: Position, pos2: Position) -> (r: Position)
        requires
            pos1.start + pos1.width <= usize::MAX,
            pos2.start + pos2.width <= usize::MAX,
        ensures
            r == spec_span(pos1, pos2),
    {
        let start = if pos1.start <= pos2.start {
            pos1.start
        } else {
            pos2.start
        };
        let end1 = pos1.start + pos1.width;
        let end2 = pos2.start + pos2.width;
        let end = if end1 >= end2 {
            end1
        } else {
            end2
        };
        Position { start, width: end - start }
    }

    /// The span strictly between the two arguments, used to point at the gap
    /// where a missing operator would stand.
    pub fn from_between(pos1: Position, pos2: Position) -> (r: Position)
        requires
            pos1.start + pos1.width <= usize::MAX,
            pos2.start + pos2.width <= usize::MAX,
        ensures
            r == spec_between(pos1, pos2),
    {
        let e1 = pos1.start + pos1.width;
        let e2 = pos2.start + pos2.width;
        // Sort the four end points with a tiny sorting network.
        let mut a = pos1.start;
        let mut b = e1;
        let mut c = pos2.start;
        let mut d = e2;
        if a > b {
            let t = a;
            a = b;
            b = t;
        }
        if c > d {
            let t = c;
            c = d;
            d = t;
        }
        if a > c {
            let t = a;
            a = c;
            c = t;
        }
        if b > d {
            let t = b;
            b = d;
            d = t;
        }
        if b > c {
            let t = b;
            b = c;
            c = t;
        }
        Position { start: b, width: c - b }
    }
}

/// A value together with the span of input it came from.
#[derive(Clone, Debug)]
pub struct Positioned<T> {
    pub value: T,
    pub position: Position,
}

impl<T> Positioned<T> {
    pub fn new(value: T, position: Position) -> (r: Positioned<T>)
        ensures
            r.value == value,
            r.position == position,
    {
        Positioned { value, position }
    }

    pub fn new_raw(value: T, start: usize, width: usize) -> (r: Positioned<T>)
        ensures
            r.value == value,
            r.position == (Position { start, width }),
    {
        Positioned { value, position: Position { start, width } }
    }

    pub fn new_span(value: T, pos1: Position, pos2: Position) -> (r: Positioned<T>)
        requires
            pos1.start + pos1.width <= usize::MAX,
            pos2.start + pos2.width <= usize::MAX,
        ensures
            r.value == value,
            r.position == spec_span(pos1, pos2),
    {
        Positioned { value, position: Position::from_span(pos1, pos2) }
    }

    pub fn new_between(value: T, pos1: Position, pos2: Position) -> (r: Positioned<T>)
        requires
            pos1.start + pos1.width <= usize::MAX,
            pos2.start + pos2.width <= usize::MAX,
        ensures
            r.value == value,
            r.position == spec_between(pos1, pos2),
    {
        Positioned { value, position: Position::from_between(pos1, pos2) }
    }

    /// Applies `f` to the held value, keeping the position.
    pub fn map<U, F: FnOnce(T) -> U>(self, f: F) -> (r: Positioned<U>)
        requires
            f.requires((self.value,)),
        ensures
            f.ensures((self.value,), r.value),
            r.position == self.position,
    {
        let Positioned { value, position } = self;
        Positioned { value: f(value), position }
    }
}

/// A value with an optional span: user-facing errors may not always have an
/// attributable position.
#[derive(Clone, Debug)]
pub struct MaybePositioned<T> {
    pub value: T,
    pub maybe_position: Option<Position>,
}

impl<T> MaybePositioned<T> {
    pub fn new_positioned(value: T, position: Position) -> (r: MaybePositioned<T>)
        ensures
            r.value == value,
            r.maybe_position == Some(position),
    {
        MaybePositioned { value, maybe_position: Some(position) }
    }

    pub fn new_unpositioned(value: T) -> (r: MaybePositioned<T>)
        ensures
            r.value == value,
            r.maybe_position is None,
    {
        MaybePositioned { value, maybe_position: None }
    }

    pub fn new_span(value: T, pos1: Position, pos2: Position) -> (r: MaybePositioned<T>)
        requires
            pos1.start + pos1.width <= usize::MAX,
            pos2.start + pos2.width <= usize::MAX,
        ensures
            r.value == value,
            r.maybe_position == Some(spec_span(pos1, pos2)),
    {
        MaybePositioned { value, maybe_position: Some(Position::from_span(pos1, pos2)) }
    }
}

/// ASCII whitespace, as trimming sees it.
pub open spec fn is_blank(c: char) -> bool {
    c == ' ' || c == '\t' || c == '\n' || c == '\x0C' || c == '\r'
}

/// The least index at or after `i` whose character is not ASCII whitespace,
/// or `s.len()`.
pub open spec fn first_non_blank(s: Seq<char>, i: int) -> int
    decreases s.len() - i,
    when 0 <= i <= s.len()
{
    if i >= s.len() {
        s.len() as int
    } else if !is_blank(s[i]) {
        i
    } else {
        first_non_blank(s, i + 1)
    }
}

/// One past the greatest index before `i` whose character is not ASCII
/// whitespace, or `0`.
pub open spec fn last_non_blank(s: Seq<char>, i: int) -> int
    decreases i,
    when 0 <= i <= s.len()
{
    if i <= 0 {
        0
    } else if !is_blank(s[i - 1]) {
        i
    } else {
        last_non_blank(s, i - 1)
    }
}

impl Positioned<String> {
    /// Trims leading and trailing ASCII whitespace from the held text,
    /// narrowing the span to the characters kept; an all-whitespace value
    /// becomes empty with width zero at the unchanged start.
    pub fn trim(&mut self)
        requires
            old(self).position.start + old(self).value@.len() <= usize::MAX,
            vstd::utf8::is_ascii_chars(old(self).value@),
        ensures
            ({
                let s = old(self).value@;
                let a = first_non_blank(s, 0);
                let b = last_non_blank(s, s.len() as int);
                if a >= s.len() {
                    &&& final(self).value@ == Seq::<char>::empty()
                    &&& final(self).position.start == old(self).position.start
                    &&& final(self).position.width == 0
                } else {
                    &&& final(self).value@ == s.subrange(a, b)
                    &&& final(self).position.start == old(self).position.start + a
                    &&& final(self).position.width == b - a
                }
            }),
    {
        proof {
            reveal_strlit("");
        }
        let n = self.value.as_str().unicode_len();
        let ghost s = self.value@;

        let mut a: usize = 0;
        while a < n
            invariant
                a <= n,
                n == s.len(),
                self.value@ == s,
                first_non_blank(s, 0) == first_non_blank(s, a as int),
            ensures
                a <= n,
                first_non_blank(s, 0) == a as int,
            decreases n - a,
        {
            let c = self.value.as_str().get_char(a);
            if !(c == ' ' || c == '\t' || c == '\n' || c == '\x0C' || c == '\r') {
                proof {
                    assert(first_non_blank(s, a as int) == a as int);
                }
                break;
            }
            a = a + 1;
        }
        if a >= n {
            // The whole text is whitespace.
            self.value = String::from_str("");
            self.position.width = 0;
            return ;
        }

        let mut b: usize = n;
        while b > 0
            invariant
                b <= n,
                n == s.len(),
                self.value@ == s,
                last_non_blank(s, n as int) == last_non_blank(s, b as int),
            ensures
                b <= n,
                last_non_blank(s, n as int) == b as int,
            decreases b,
        {
            let c = self.value.as_str().get_char(b - 1);
            if !(c == ' ' || c == '\t' || c == '\n' || c == '\x0C' || c == '\r') {
                proof {
                    assert(last_non_blank(s, b as int) == b as int);
                }
                break;
            }
            b = b - 1;
        }
        proof {
            lemma_non_blank_bounds(s, a as int, b as int);
        }
        let kept = String::from_str(self.value.as_str().substring_ascii(a, b));
        self.position.start = self.position.start + a;
        self.position.width = b - a;
        self.value = kept;
    }
}

/// When some character is not whitespace, the first and last such characters
/// delimit a nonempty range.
proof fn lemma_non_blank_bounds(s: Seq<char>, a: int, b: int)
    requires
        0 <= a < s.len(),
        first_non_blank(s, 0) == a,
        last_non_blank(s, s.len() as int) == b,
        0 <= b <= s.len(),
    ensures
        a < b,
{
    lemma_first_non_blank_is_non_blank(s, 0, a);
    lemma_last_non_blank_after(s, s.len() as int, a, b);
}

/// The index `first_non_blank` finds holds a non-whitespace character.
proof fn lemma_first_non_blank_is_non_blank(s: Seq<char>, i: int, a: int)
    requires
        0 <= i <= s.len(),
        first_non_blank(s, i) == a,
        a < s.len(),
    ensures
        !is_blank(s[a]),
        i <= a,
    decreases s.len() - i,
{
    if i < s.len() && is_blank(s[i]) {
        lemma_first_non_blank_is_non_blank(s, i + 1, a);
    }
}

/// `last_non_blank` stays above any known non-whitespace index.
proof fn lemma_last_non_blank_after(s: Seq<char>, i: int, a: int, b: int)
    requires
        0 <= a < i <= s.len(),
        !is_blank(s[a]),
        last_non_blank(s, i) == b,
    ensures
        b > a,
    decreases i,
{
    if i > 0 && is_blank(s[i - 1]) {
        lemma_last_non_blank_after(s, i - 1, a, b);
    }
}

} // verus!
