//! Character-level helpers shared by the scanner, the classifier and the
//! solution reader.

use vstd::prelude::*;

verus! {

/// The characters of `s`, one element each.
pub fn chars_of(s: &str) -> (r: Vec<char>)
    ensures
        r@ == s@,
{
    let mut out: Vec<char> = Vec::new();
    for c in it: s.chars()
        invariant
            out@ == it.seq().take(it.index() as int),
    {
        out.push(c);
    }
    out
}

/// The code point of `c`, with the ASCII capitals `A`..=`Z` taken to their
/// small letters; every other character is left as it is.
pub open spec fn fold_ascii(c: char) -> u32 {
    if 65 <= (c as u32) && (c as u32) <= 90 {
        ((c as u32) + 32) as u32
    } else {
        c as u32
    }
}

/// `a` and `b` are the same text when ASCII letters are compared without
/// regard to case.
pub open spec fn same_ignoring_ascii_case(a: Seq<char>, b: Seq<char>) -> bool {
    &&& a.len() == b.len()
    &&& forall|i: int| 0 <= i < a.len() ==> fold_ascii(#[trigger] a[i]) == fold_ascii(b[i])
}

/// `s` ends with `suffix`, ASCII letters compared without regard to case.
pub open spec fn ends_with_ignoring_ascii_case(s: Seq<char>, suffix: Seq<char>) -> bool {
    &&& s.len() >= suffix.len()
    &&& same_ignoring_ascii_case(s.subrange(s.len() - suffix.len(), s.len() as int), suffix)
}

/// A path separator: `/` or `\`.
pub open spec fn is_separator(c: char) -> bool {
    (c as u32) == 47 || (c as u32) == 92
}

/// Where the last component of a path begins: the index just after its last
/// separator, or 0 when it has none.
pub open spec fn name_start(s: Seq<char>) -> nat
    decreases s.len(),
{
    if s.len() == 0 {
        0
    } else if is_separator(s.last()) {
        s.len()
    } else {
        name_start(s.drop_last())
    }
}

/// The code point of `c`, ASCII capitals taken to small letters.
pub fn fold_char(c: char) -> (r: u32)
    ensures
        r == fold_ascii(c),
{
    let v = c as u32;
    if 65 <= v && v <= 90 {
        v + 32
    } else {
        v
    }
}

/// Whether `c` is a path separator.
pub fn is_separator_char(c: char) -> (r: bool)
    ensures
        r == is_separator(c),
{
    let v = c as u32;
    v == 47 || v == 92
}

/// Compares `a[from..from + b.len()]` with `b`, ASCII letters without regard
/// to case.
fn region_matches_ignoring_ascii_case(a: &Vec<char>, from: usize, b: &Vec<char>) -> (r: bool)
    requires
        from + b@.len() <= a@.len(),
    ensures
        r == same_ignoring_ascii_case(a@.subrange(from as int, from + b@.len()), b@),
{
    let n = a.len();
    let mut i: usize = 0;
    while i < b.len()
        invariant
            n == a@.len(),
            i <= b@.len(),
            from + b@.len() <= a@.len(),
            forall|j: int| 0 <= j < i ==> fold_ascii(a@[from + j]) == fold_ascii(b@[j]),
        decreases b@.len() - i,
    {
        if fold_char(a[from + i]) != fold_char(b[i]) {
            assert(a@.subrange(from as int, from + b@.len())[i as int] == a@[from + i]);
            return false;
        }
        i += 1;
    }
    true
}

/// Compares two texts, ASCII letters without regard to case.
pub fn eq_ignore_ascii_case(a: &str, b: &str) -> (r: bool)
    ensures
        r == same_ignoring_ascii_case(a@, b@),
{
    let ac = chars_of(a);
    let bc = chars_of(b);
    if ac.len() != bc.len() {
        return false;
    }
    let r = region_matches_ignoring_ascii_case(&ac, 0, &bc);
    assert(ac@.subrange(0, bc@.len() as int) =~= ac@);
    r
}

/// Whether `s` ends with `suffix`, ASCII letters without regard to case.
pub fn ends_with_ignore_ascii_case(s: &str, suffix: &str) -> (r: bool)
    ensures
        r == ends_with_ignoring_ascii_case(s@, suffix@),
{
    let sc = chars_of(s);
    let xc = chars_of(suffix);
    if sc.len() < xc.len() {
        return false;
    }
    region_matches_ignoring_ascii_case(&sc, sc.len() - xc.len(), &xc)
}

/// A separator-free tail of `s` lies wholly inside its last component.
pub proof fn lemma_name_start_bound(s: Seq<char>, m: int)
    requires
        0 <= m <= s.len(),
        forall|j: int| m <= j < s.len() ==> !is_separator(#[trigger] s[j]),
    ensures
        name_start(s) <= m,
    decreases s.len(),
{
    if s.len() > 0 {
        let t = s.drop_last();
        if m < s.len() {
            assert forall|j: int| m <= j < t.len() implies !is_separator(#[trigger] t[j]) by {
                assert(t[j] == s[j]);
            }
            lemma_name_start_bound(t, m);
        } else {
            lemma_name_start_bound(t, t.len() as int);
        }
    }
}

/// The index where the last component of `s` begins.
pub fn find_name_start(s: &Vec<char>) -> (r: usize)
    ensures
        r == name_start(s@),
{
    let mut i: usize = s.len();
    assert(s@.take(i as int) =~= s@);
    while i > 0 && !is_separator_char(s[i - 1])
        invariant
            i <= s@.len(),
            name_start(s@) == name_start(s@.take(i as int)),
        decreases i,
    {
        assert(s@.take(i as int).drop_last() =~= s@.take(i - 1));
        i -= 1;
    }
    i
}

/// Position of the first `c` in `s`, or `s.len()` when there is none.
pub open spec fn first_index(s: Seq<char>, c: char) -> nat
    decreases s.len(),
{
    if s.len() == 0 {
        0
    } else if s[0] == c {
        0
    } else {
        1 + first_index(s.drop_first(), c)
    }
}

/// ASCII white space: space, tab, line feed, vertical tab, form feed,
/// carriage return.
pub open spec fn is_space(c: char) -> bool {
    (c as u32) == 32 || (9 <= (c as u32) && (c as u32) <= 13)
}

/// `s` without its leading white space.
pub open spec fn trim_start(s: Seq<char>) -> Seq<char>
    decreases s.len(),
{
    if s.len() > 0 && is_space(s[0]) {
        trim_start(s.drop_first())
    } else {
        s
    }
}

/// `s` without its trailing white space.
pub open spec fn trim_end(s: Seq<char>) -> Seq<char>
    decreases s.len(),
{
    if s.len() > 0 && is_space(s.last()) {
        trim_end(s.drop_last())
    } else {
        s
    }
}

/// `s` without white space at either end.
pub open spec fn trimmed(s: Seq<char>) -> Seq<char> {
    trim_end(trim_start(s))
}

/// Whether `c` is ASCII white space.
pub fn is_space_char(c: char) -> (r: bool)
    ensures
        r == is_space(c),
{
    let v = c as u32;
    v == 32 || (9 <= v && v <= 13)
}

/// Position of the first `c` in `s[from..to]`, counted from the start of
/// `s`; `to` when there is none.
pub fn find_char(s: &Vec<char>, from: usize, to: usize, c: char) -> (r: usize)
    requires
        from <= to <= s@.len(),
    ensures
        r == from + first_index(s@.subrange(from as int, to as int), c),
        from <= r <= to,
{
    let mut i: usize = from;
    while i < to && s[i] != c
        invariant
            from <= i <= to <= s@.len(),
            first_index(s@.subrange(from as int, to as int), c) == (i - from) + first_index(
                s@.subrange(i as int, to as int),
                c,
            ),
        decreases to - i,
    {
        assert(s@.subrange(i as int, to as int).drop_first() =~= s@.subrange(i + 1, to as int));
        i += 1;
    }
    i
}

/// The bounds of `s[from..to]` without white space at either end.
pub fn trim_bounds(s: &Vec<char>, from: usize, to: usize) -> (r: (usize, usize))
    requires
        from <= to <= s@.len(),
    ensures
        from <= r.0 <= r.1 <= to,
        s@.subrange(r.0 as int, r.1 as int) == trimmed(s@.subrange(from as int, to as int)),
{
    let mut lo: usize = from;
    while lo < to && is_space_char(s[lo])
        invariant
            from <= lo <= to <= s@.len(),
            trim_start(s@.subrange(from as int, to as int)) == trim_start(
                s@.subrange(lo as int, to as int),
            ),
        decreases to - lo,
    {
        assert(s@.subrange(lo as int, to as int).drop_first() =~= s@.subrange(lo + 1, to as int));
        lo += 1;
    }
    let mut hi: usize = to;
    assert(trim_start(s@.subrange(lo as int, to as int)) =~= s@.subrange(lo as int, to as int));
    while hi > lo && is_space_char(s[hi - 1])
        invariant
            from <= lo <= hi <= to <= s@.len(),
            trimmed(s@.subrange(from as int, to as int)) == trim_end(
                s@.subrange(lo as int, hi as int),
            ),
        decreases hi - lo,
    {
        assert(s@.subrange(lo as int, hi as int).drop_last() =~= s@.subrange(lo as int, hi - 1));
        hi -= 1;
    }
    (lo, hi)
}

/// Whether `a[from..from + b.len()]` is exactly `b`.
pub fn region_equals(a: &Vec<char>, from: usize, b: &Vec<char>) -> (r: bool)
    requires
        from + b@.len() <= a@.len(),
    ensures
        r == (a@.subrange(from as int, from + b@.len()) == b@),
{
    let n = a.len();
    let mut i: usize = 0;
    while i < b.len()
        invariant
            n == a@.len(),
            i <= b@.len(),
            from + b@.len() <= a@.len(),
            forall|j: int| 0 <= j < i ==> a@[from + j] == b@[j],
        decreases b@.len() - i,
    {
        if a[from + i] != b[i] {
            assert(a@.subrange(from as int, from + b@.len())[i as int] == a@[from + i]);
            return false;
        }
        i += 1;
    }
    assert(a@.subrange(from as int, from + b@.len()) =~= b@);
    true
}

} // verus!
