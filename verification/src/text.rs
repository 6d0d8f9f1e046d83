//! Substring search over character sequences.
//!
//! Text is modelled as `Seq<char>`, the view of `str` and `String`. Every
//! index in this crate counts characters, so no position can fall inside
//! the encoding of a character.

use vstd::prelude::*;

verus! {

/// `pat` stands in `text` at index `i`.
pub open spec fn occurs_at(text: Seq<char>, pat: Seq<char>, i: int) -> bool {
    &&& 0 <= i
    &&& i + pat.len() <= text.len()
    &&& text.subrange(i, i + pat.len()) == pat
}

/// `pat` stands somewhere in `text`.
pub open spec fn contains(text: Seq<char>, pat: Seq<char>) -> bool {
    exists|i: int| occurs_at(text, pat, i)
}

/// `pat` stands at `i`, and nowhere to the left of `i`.
pub open spec fn is_first_occurrence(text: Seq<char>, pat: Seq<char>, i: int) -> bool {
    &&& occurs_at(text, pat, i)
    &&& forall|j: int| 0 <= j < i ==> !occurs_at(text, pat, j)
}

/// `pat` stands at `i`, and nowhere to the right of `i`.
pub open spec fn is_last_occurrence(text: Seq<char>, pat: Seq<char>, i: int) -> bool {
    &&& occurs_at(text, pat, i)
    &&& forall|j: int| i < j ==> !occurs_at(text, pat, j)
}

/// The least index at which `pat` stands in `text`.
pub open spec fn first_occurrence(text: Seq<char>, pat: Seq<char>) -> Option<int> {
    if exists|i: int| is_first_occurrence(text, pat, i) {
        Some(choose|i: int| is_first_occurrence(text, pat, i))
    } else {
        None
    }
}

/// The greatest index at which `pat` stands in `text`.
pub open spec fn last_occurrence(text: Seq<char>, pat: Seq<char>) -> Option<int> {
    if exists|i: int| is_last_occurrence(text, pat, i) {
        Some(choose|i: int| is_last_occurrence(text, pat, i))
    } else {
        None
    }
}

/// `text` begins with `pat`.
pub open spec fn starts_with(text: Seq<char>, pat: Seq<char>) -> bool {
    occurs_at(text, pat, 0)
}

/// A first occurrence is the first occurrence.
pub proof fn lemma_first_occurrence_is(text: Seq<char>, pat: Seq<char>, i: int)
    requires
        is_first_occurrence(text, pat, i),
    ensures
        first_occurrence(text, pat) == Some(i),
{
    let c = choose|k: int| is_first_occurrence(text, pat, k);
    assert(is_first_occurrence(text, pat, c));
    if c < i {
        assert(occurs_at(text, pat, c));
    } else if i < c {
        assert(occurs_at(text, pat, i));
    }
}

/// A last occurrence is the last occurrence.
pub proof fn lemma_last_occurrence_is(text: Seq<char>, pat: Seq<char>, i: int)
    requires
        is_last_occurrence(text, pat, i),
    ensures
        last_occurrence(text, pat) == Some(i),
{
    let c = choose|k: int| is_last_occurrence(text, pat, k);
    assert(is_last_occurrence(text, pat, c));
    if c < i {
        assert(occurs_at(text, pat, i));
    } else if i < c {
        assert(occurs_at(text, pat, c));
    }
}

/// Left of an occurrence there is a first one.
proof fn lemma_least_occurrence(text: Seq<char>, pat: Seq<char>, i: int)
    requires
        occurs_at(text, pat, i),
    ensures
        exists|k: int| is_first_occurrence(text, pat, k),
    decreases i,
{
    if forall|j: int| 0 <= j < i ==> !occurs_at(text, pat, j) {
        assert(is_first_occurrence(text, pat, i));
    } else {
        let j = choose|j: int| 0 <= j < i && occurs_at(text, pat, j);
        lemma_least_occurrence(text, pat, j);
    }
}

/// Right of an occurrence there is a last one.
proof fn lemma_greatest_occurrence(text: Seq<char>, pat: Seq<char>, i: int)
    requires
        occurs_at(text, pat, i),
    ensures
        exists|k: int| is_last_occurrence(text, pat, k),
    decreases text.len() - i,
{
    if forall|j: int| i < j ==> !occurs_at(text, pat, j) {
        assert(is_last_occurrence(text, pat, i));
    } else {
        let j = choose|j: int| i < j && occurs_at(text, pat, j);
        lemma_greatest_occurrence(text, pat, j);
    }
}

/// What `first_occurrence` returns: the first occurrence where there is
/// one, and `None` exactly where `pat` does not stand in `text`.
pub proof fn lemma_first_occurrence(text: Seq<char>, pat: Seq<char>)
    ensures
        match first_occurrence(text, pat) {
            Some(i) => is_first_occurrence(text, pat, i),
            None => !contains(text, pat),
        },
        first_occurrence(text, pat) is Some <==> contains(text, pat),
{
    if contains(text, pat) {
        let i = choose|i: int| occurs_at(text, pat, i);
        lemma_least_occurrence(text, pat, i);
    }
    if first_occurrence(text, pat) is Some {
        let k = choose|k: int| is_first_occurrence(text, pat, k);
        assert(occurs_at(text, pat, k));
    }
}

/// What `last_occurrence` returns: the last occurrence where there is one,
/// and `None` exactly where `pat` does not stand in `text`.
pub proof fn lemma_last_occurrence(text: Seq<char>, pat: Seq<char>)
    ensures
        match last_occurrence(text, pat) {
            Some(i) => is_last_occurrence(text, pat, i),
            None => !contains(text, pat),
        },
        last_occurrence(text, pat) is Some <==> contains(text, pat),
{
    if contains(text, pat) {
        let i = choose|i: int| occurs_at(text, pat, i);
        lemma_greatest_occurrence(text, pat, i);
    }
    if last_occurrence(text, pat) is Some {
        let k = choose|k: int| is_last_occurrence(text, pat, k);
        assert(occurs_at(text, pat, k));
    }
}

/// An occurrence in a part of `text` is an occurrence in `text`, shifted
/// by where the part begins, and the other way round.
pub proof fn lemma_occurs_in_part(text: Seq<char>, pat: Seq<char>, lo: int, hi: int, i: int)
    requires
        0 <= lo <= hi <= text.len(),
    ensures
        occurs_at(text.subrange(lo, hi), pat, i - lo) <==> lo <= i && i + pat.len() <= hi
            && occurs_at(text, pat, i),
{
    if lo <= i && i + pat.len() <= hi {
        assert(text.subrange(lo, hi).subrange(i - lo, i - lo + pat.len()) =~= text.subrange(
            i,
            i + pat.len(),
        ));
    }
}

/// The characters of an optional sequence, where there is one.
pub open spec fn chars_of(value: Option<Vec<char>>) -> Option<Seq<char>> {
    match value {
        Some(chars) => Some(chars@),
        None => None,
    }
}

/// The characters of `s`, in order.
pub fn to_chars(s: &str) -> (v: Vec<char>)
    ensures
        v@ == s@,
{
    let mut v: Vec<char> = Vec::new();
    for c in it: s.chars()
        invariant
            v@ == it.seq().take(it.index() as int),
            it.seq() == s@,
    {
        v.push(c);
    }
    v
}

/// `String::push` of std appends the one character `ch` to the string.
pub assume_specification[ String::push ](s: &mut String, ch: char)
    ensures
        final(s)@ == old(s)@.push(ch),
;

/// The string whose characters are those of `text`.
pub fn to_string(text: &[char]) -> (s: String)
    ensures
        s@ == text@,
{
    let mut s = String::new();
    let mut i: usize = 0;
    while i < text.len()
        invariant
            i <= text.len(),
            s@ == text@.take(i as int),
        decreases text.len() - i,
    {
        s.push(text[i]);
        i += 1;
        assert(text@.take(i as int) =~= text@.take(i - 1).push(text@[i - 1]));
    }
    assert(text@.take(text.len() as int) =~= text@);
    s
}

/// Appends the characters of `text[lo..hi]` to `out`.
pub fn append_range(out: &mut Vec<char>, text: &[char], lo: usize, hi: usize)
    requires
        lo <= hi <= text.len(),
    ensures
        final(out)@ == old(out)@ + text@.subrange(lo as int, hi as int),
{
    let mut i: usize = lo;
    while i < hi
        invariant
            lo <= i <= hi <= text.len(),
            out@ == old(out)@ + text@.subrange(lo as int, i as int),
        decreases hi - i,
    {
        out.push(text[i]);
        i += 1;
        assert(text@.subrange(lo as int, i as int) =~= text@.subrange(lo as int, i - 1).push(
            text@[i - 1],
        ));
    }
}

/// Appends the characters of `s` to `out`.
pub fn append_str(out: &mut Vec<char>, s: &str)
    ensures
        final(out)@ == old(out)@ + s@,
{
    let chars = to_chars(s);
    append_range(out, chars.as_slice(), 0, chars.len());
    assert(chars@.subrange(0, chars.len() as int) =~= chars@);
}

/// The characters of `text[lo..hi]`.
pub fn copy_range(text: &[char], lo: usize, hi: usize) -> (out: Vec<char>)
    requires
        lo <= hi <= text.len(),
    ensures
        out@ == text@.subrange(lo as int, hi as int),
{
    let mut out: Vec<char> = Vec::new();
    append_range(&mut out, text, lo, hi);
    assert(Seq::<char>::empty() + text@.subrange(lo as int, hi as int) =~= text@.subrange(
        lo as int,
        hi as int,
    ));
    out
}

/// Whether `pat` stands in `text` at index `i`.
pub fn matches_at(text: &[char], pat: &[char], i: usize) -> (r: bool)
    ensures
        r == occurs_at(text@, pat@, i as int),
{
    if i > text.len() || pat.len() > text.len() - i {
        return false;
    }
    let mut k: usize = 0;
    while k < pat.len()
        invariant
            i + pat.len() <= text.len(),
            k <= pat.len(),
            forall|j: int| 0 <= j < k ==> text@[i + j] == pat@[j],
        decreases pat.len() - k,
    {
        if text[i + k] != pat[k] {
            assert(text@.subrange(i as int, i + pat.len())[k as int] == text@[i + k]);
            return false;
        }
        k += 1;
    }
    assert(text@.subrange(i as int, i + pat.len()) =~= pat@);
    true
}

/// The first occurrence of `pat` in `text[lo..hi]`, as an index into `text`.
pub fn find_in(text: &[char], pat: &[char], lo: usize, hi: usize) -> (r: Option<usize>)
    requires
        lo <= hi <= text.len(),
    ensures
        match r {
            Some(i) => lo <= i <= hi && first_occurrence(
                text@.subrange(lo as int, hi as int),
                pat@,
            ) == Some(i - lo),
            None => first_occurrence(text@.subrange(lo as int, hi as int), pat@) is None,
        },
{
    let ghost part = text@.subrange(lo as int, hi as int);
    if pat.len() > hi - lo {
        proof {
            lemma_first_occurrence(part, pat@);
        }
        return None;
    }
    let last: usize = hi - pat.len();
    let mut i: usize = lo;
    loop
        invariant
            lo <= i <= last,
            last + pat.len() == hi,
            lo <= hi <= text.len(),
            part == text@.subrange(lo as int, hi as int),
            forall|j: int| 0 <= j < i - lo ==> !occurs_at(part, pat@, j),
        decreases last - i,
    {
        proof {
            lemma_occurs_in_part(text@, pat@, lo as int, hi as int, i as int);
        }
        if matches_at(text, pat, i) {
            proof {
                lemma_first_occurrence_is(part, pat@, i - lo);
            }
            return Some(i);
        }
        if i == last {
            proof {
                lemma_first_occurrence(part, pat@);
            }
            return None;
        }
        i += 1;
    }
}

/// The last occurrence of `pat` in `text[lo..hi]`, as an index into `text`.
pub fn rfind_in(text: &[char], pat: &[char], lo: usize, hi: usize) -> (r: Option<usize>)
    requires
        lo <= hi <= text.len(),
    ensures
        match r {
            Some(i) => lo <= i <= hi && last_occurrence(
                text@.subrange(lo as int, hi as int),
                pat@,
            ) == Some(i - lo),
            None => last_occurrence(text@.subrange(lo as int, hi as int), pat@) is None,
        },
{
    let ghost part = text@.subrange(lo as int, hi as int);
    if pat.len() > hi - lo {
        proof {
            lemma_last_occurrence(part, pat@);
        }
        return None;
    }
    let mut i: usize = hi - pat.len();
    loop
        invariant
            lo <= i,
            i + pat.len() <= hi,
            lo <= hi <= text.len(),
            part == text@.subrange(lo as int, hi as int),
            forall|j: int| i - lo < j ==> !occurs_at(part, pat@, j),
        decreases i - lo,
    {
        proof {
            lemma_occurs_in_part(text@, pat@, lo as int, hi as int, i as int);
        }
        if matches_at(text, pat, i) {
            proof {
                lemma_last_occurrence_is(part, pat@, i - lo);
            }
            return Some(i);
        }
        if i == lo {
            proof {
                lemma_last_occurrence(part, pat@);
            }
            return None;
        }
        i -= 1;
    }
}

/// White space as Unicode defines it (the property `White_Space`).
pub open spec fn is_whitespace(c: char) -> bool {
    let n = c as u32;
    ||| 0x09 <= n <= 0x0D
    ||| n == 0x20
    ||| n == 0x85
    ||| n == 0xA0
    ||| n == 0x1680
    ||| 0x2000 <= n <= 0x200A
    ||| n == 0x2028
    ||| n == 0x2029
    ||| n == 0x202F
    ||| n == 0x205F
    ||| n == 0x3000
}

/// `text` without the white space at its start.
pub open spec fn trim_start(text: Seq<char>) -> Seq<char>
    decreases text.len(),
{
    if text.len() > 0 && is_whitespace(text[0]) {
        trim_start(text.skip(1))
    } else {
        text
    }
}

/// `text` without the white space at its end.
pub open spec fn trim_end(text: Seq<char>) -> Seq<char>
    decreases text.len(),
{
    if text.len() > 0 && is_whitespace(text.last()) {
        trim_end(text.drop_last())
    } else {
        text
    }
}

/// `text` without the white space at its start and at its end.
pub open spec fn trim(text: Seq<char>) -> Seq<char> {
    trim_end(trim_start(text))
}

/// Whether `c` is white space.
pub fn is_space(c: char) -> (r: bool)
    ensures
        r == is_whitespace(c),
{
    let n: u32 = c as u32;
    (0x09 <= n && n <= 0x0D) || n == 0x20 || n == 0x85 || n == 0xA0 || n == 0x1680 || (0x2000 <= n
        && n <= 0x200A) || n == 0x2028 || n == 0x2029 || n == 0x202F || n == 0x205F || n
        == 0x3000
}

/// The bounds of `trim(text[lo..hi])` in `text`.
pub fn trim_span(text: &[char], lo: usize, hi: usize) -> (span: (usize, usize))
    requires
        lo <= hi <= text.len(),
    ensures
        lo <= span.0 <= span.1 <= hi,
        text@.subrange(span.0 as int, span.1 as int) == trim(
            text@.subrange(lo as int, hi as int),
        ),
{
    let mut a: usize = lo;
    while a < hi && is_space(text[a])
        invariant
            lo <= a <= hi <= text.len(),
            trim_start(text@.subrange(a as int, hi as int)) == trim_start(
                text@.subrange(lo as int, hi as int),
            ),
        decreases hi - a,
    {
        assert(text@.subrange(a as int, hi as int).skip(1) =~= text@.subrange(a + 1, hi as int));
        a += 1;
    }
    let mut b: usize = hi;
    while b > a && is_space(text[b - 1])
        invariant
            a <= b <= hi <= text.len(),
            trim_end(text@.subrange(a as int, b as int)) == trim_end(
                text@.subrange(a as int, hi as int),
            ),
        decreases b,
    {
        assert(text@.subrange(a as int, b as int).drop_last() =~= text@.subrange(a as int, b - 1));
        b -= 1;
    }
    (a, b)
}

/// Whether `text` begins with `pat`.
pub fn begins_with(text: &[char], pat: &[char]) -> (r: bool)
    ensures
        r == starts_with(text@, pat@),
{
    matches_at(text, pat, 0)
}

} // verus!
