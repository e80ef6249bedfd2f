//! Character-level text primitives: whitespace, words, trimming.
//!
//! Specifications speak of `Seq<char>`, the view of `str` and `String`.
//! Executable code works on `Vec<char>` by index, so that every position is a
//! character position and never a byte offset.

use vstd::prelude::*;
use vstd::std_specs::iter::IteratorSpec;

verus! {

/// `String::push` appends one character.
pub assume_specification[ String::push ](s: &mut String, c: char)
    ensures
        final(s)@ == old(s)@.push(c),
;

/// Whether `c` is Unicode whitespace (the `White_Space` property).
pub open spec fn whitespace(c: char) -> bool {
    let n = c as u32;
    ||| 0x09 <= n <= 0x0D
    ||| n == 0x20
    ||| n == 0x85
    ||| n == 0xA0
    ||| n == 0x1680
    ||| 0x2000 <= n <= 0x200A
    ||| n == 0x2028
    ||| n == 0x2029
    ||| n == 0x202F
    ||| n == 0x205F
    ||| n == 0x3000
}

/// The first position at or after `i` that holds no whitespace, or the length
/// of `s` if only whitespace follows.
pub open spec fn ws_end(s: Seq<char>, i: int) -> int
    decreases s.len() - i,
{
    if 0 <= i < s.len() && whitespace(s[i]) {
        ws_end(s, i + 1)
    } else {
        i
    }
}

/// The first position at or after `i` that holds whitespace, or the length of
/// `s` if none follows.
pub open spec fn word_end(s: Seq<char>, i: int) -> int
    decreases s.len() - i,
{
    if 0 <= i < s.len() && !whitespace(s[i]) {
        word_end(s, i + 1)
    } else {
        i
    }
}

/// `s` without its leading whitespace.
pub open spec fn skip_whitespace(s: Seq<char>) -> Seq<char> {
    s.skip(ws_end(s, 0))
}

/// The leading run of non-whitespace characters of `s`.
pub open spec fn first_word(s: Seq<char>) -> Seq<char> {
    s.take(word_end(s, 0))
}

/// `s` without its leading run of non-whitespace characters.
pub open spec fn skip_word(s: Seq<char>) -> Seq<char> {
    s.skip(word_end(s, 0))
}

/// What follows the leading word of `s` and the whitespace after it: the text
/// from the next word on.
pub open spec fn next_word(s: Seq<char>) -> Seq<char> {
    skip_whitespace(skip_word(s))
}

/// `s` without its first character, if it has one.
pub open spec fn drop_separator(s: Seq<char>) -> Seq<char> {
    if s.len() > 0 {
        s.skip(1)
    } else {
        s
    }
}

/// `s` without its trailing whitespace.
pub open spec fn trim_end(s: Seq<char>) -> Seq<char>
    decreases s.len(),
{
    if s.len() > 0 && whitespace(s.last()) {
        trim_end(s.drop_last())
    } else {
        s
    }
}

/// `s` without its leading and trailing whitespace.
pub open spec fn trim(s: Seq<char>) -> Seq<char> {
    trim_end(skip_whitespace(s))
}

/// Whether `s` begins with `prefix`.
pub open spec fn starts_with(s: Seq<char>, prefix: Seq<char>) -> bool {
    prefix.len() <= s.len() && s.take(prefix.len() as int) == prefix
}

/// Whether `s` ends with `suffix`.
pub open spec fn ends_with(s: Seq<char>, suffix: Seq<char>) -> bool {
    suffix.len() <= s.len() && s.skip(s.len() - suffix.len()) == suffix
}

/// Whether `needle` occurs in `s` as a contiguous run.
pub open spec fn contains_run(s: Seq<char>, needle: Seq<char>) -> bool {
    exists|i: int|
        0 <= i && i + needle.len() <= s.len() && #[trigger] s.subrange(i, i + needle.len())
            == needle
}

/// From `i` up to `ws_end(s, i)` all is whitespace, and what stands there is
/// not.
pub proof fn lemma_ws_end_bounds(s: Seq<char>, i: int)
    requires
        0 <= i <= s.len(),
    ensures
        i <= ws_end(s, i) <= s.len(),
        forall|k: int| i <= k < ws_end(s, i) ==> whitespace(#[trigger] s[k]),
        ws_end(s, i) < s.len() ==> !whitespace(s[ws_end(s, i)]),
    decreases s.len() - i,
{
    if i < s.len() && whitespace(s[i]) {
        lemma_ws_end_bounds(s, i + 1);
    }
}

/// From `i` up to `word_end(s, i)` nothing is whitespace, and what stands
/// there is.
pub proof fn lemma_word_end_bounds(s: Seq<char>, i: int)
    requires
        0 <= i <= s.len(),
    ensures
        i <= word_end(s, i) <= s.len(),
        forall|k: int| i <= k < word_end(s, i) ==> !whitespace(#[trigger] s[k]),
        word_end(s, i) < s.len() ==> whitespace(s[word_end(s, i)]),
    decreases s.len() - i,
{
    if i < s.len() && !whitespace(s[i]) {
        lemma_word_end_bounds(s, i + 1);
    }
}

/// Scanning a suffix of `s` is scanning `s` from the suffix's start.
pub proof fn lemma_ws_end_skip(s: Seq<char>, i: int, j: int)
    requires
        0 <= i,
        0 <= j,
        i + j <= s.len(),
    ensures
        ws_end(s.skip(i), j) + i == ws_end(s, i + j),
    decreases s.len() - i - j,
{
    if i + j < s.len() && whitespace(s[i + j]) {
        lemma_ws_end_skip(s, i, j + 1);
    }
}

/// Scanning a suffix of `s` is scanning `s` from the suffix's start.
pub proof fn lemma_word_end_skip(s: Seq<char>, i: int, j: int)
    requires
        0 <= i,
        0 <= j,
        i + j <= s.len(),
    ensures
        word_end(s.skip(i), j) + i == word_end(s, i + j),
    decreases s.len() - i - j,
{
    if i + j < s.len() && !whitespace(s[i + j]) {
        lemma_word_end_skip(s, i, j + 1);
    }
}

/// On the suffix of `s` from `i`, the three scans are scans of `s` itself.
pub proof fn lemma_scan_suffix(s: Seq<char>, i: int)
    requires
        0 <= i <= s.len(),
    ensures
        i <= ws_end(s, i) <= s.len(),
        i <= word_end(s, i) <= s.len(),
        skip_whitespace(s.skip(i)) == s.skip(ws_end(s, i)),
        skip_word(s.skip(i)) == s.skip(word_end(s, i)),
        first_word(s.skip(i)) == s.subrange(i, word_end(s, i)),
{
    lemma_ws_end_bounds(s, i);
    lemma_word_end_bounds(s, i);
    lemma_ws_end_skip(s, i, 0);
    lemma_word_end_skip(s, i, 0);
    assert(s.skip(i).skip(ws_end(s.skip(i), 0)) =~= s.skip(ws_end(s, i)));
    assert(s.skip(i).skip(word_end(s.skip(i), 0)) =~= s.skip(word_end(s, i)));
    assert(s.skip(i).take(word_end(s.skip(i), 0)) =~= s.subrange(i, word_end(s, i)));
}

/// What trimming leaves is a prefix of what it was given.
pub proof fn lemma_trim_end_prefix(s: Seq<char>)
    ensures
        trim_end(s).len() <= s.len(),
        trim_end(s) == s.take(trim_end(s).len() as int),
    decreases s.len(),
{
    if s.len() > 0 && whitespace(s.last()) {
        lemma_trim_end_prefix(s.drop_last());
        let t = trim_end(s.drop_last());
        assert(t =~= s.take(t.len() as int));
    } else {
        assert(s =~= s.take(s.len() as int));
    }
}

/// A prefix of `s` that ends where the trailing whitespace of `s` begins is
/// `s` trimmed.
pub proof fn lemma_trim_end_is(s: Seq<char>, n: int)
    requires
        0 <= n <= s.len(),
        n > 0 ==> !whitespace(s[n - 1]),
        forall|k: int| n <= k < s.len() ==> whitespace(#[trigger] s[k]),
    ensures
        trim_end(s) == s.take(n),
    decreases s.len(),
{
    if s.len() > 0 && whitespace(s.last()) {
        let d = s.drop_last();
        assert(n < s.len());
        assert forall|k: int| n <= k < d.len() implies whitespace(#[trigger] d[k]) by {
            assert(d[k] == s[k]);
        }
        lemma_trim_end_is(d, n);
        assert(d.take(n) =~= s.take(n));
    } else {
        assert(n == s.len());
        assert(s =~= s.take(n));
    }
}

/// Whether `c` is Unicode whitespace.
pub fn is_whitespace(c: char) -> (b: bool)
    ensures
        b == whitespace(c),
{
    let n: u32 = c as u32;
    (0x09 <= n && n <= 0x0D) || n == 0x20 || n == 0x85 || n == 0xA0 || n == 0x1680 || (0x2000 <= n
        && n <= 0x200A) || n == 0x2028 || n == 0x2029 || n == 0x202F || n == 0x205F || n == 0x3000
}

/// The characters of `s`, in order.
pub fn chars_of(s: &str) -> (v: Vec<char>)
    ensures
        v@ == s@,
{
    let mut v: Vec<char> = Vec::new();
    for c in it: s.chars()
        invariant
            v@ == it.seq().take(it.index() as int),
            it.seq() == s@,
    {
        v.push(c);
    }
    v
}

/// The string made of the characters of `v` from `from` up to `to`.
pub fn string_of_range(v: &Vec<char>, from: usize, to: usize) -> (s: String)
    requires
        from <= to <= v.len(),
    ensures
        s@ == v@.subrange(from as int, to as int),
{
    let mut s = String::new();
    let mut i: usize = from;
    while i < to
        invariant
            from <= i <= to <= v.len(),
            s@ == v@.subrange(from as int, i as int),
        decreases to - i,
    {
        s.push(v[i]);
        i += 1;
        assert(v@.subrange(from as int, i as int) =~= v@.subrange(from as int, i - 1).push(
            v@[i - 1],
        ));
    }
    s
}

/// The string made of the characters of `v`, in order.
pub fn string_of(v: &Vec<char>) -> (s: String)
    ensures
        s@ == v@,
{
    let s = string_of_range(v, 0, v.len());
    assert(v@.subrange(0, v.len() as int) =~= v@);
    s
}

/// The first position at or after `i` that holds no whitespace.
pub fn skip_whitespace_from(v: &Vec<char>, i: usize) -> (j: usize)
    requires
        i <= v.len(),
    ensures
        j == ws_end(v@, i as int),
        i <= j <= v.len(),
{
    let mut j: usize = i;
    while j < v.len() && is_whitespace(v[j])
        invariant
            i <= j <= v.len(),
            ws_end(v@, j as int) == ws_end(v@, i as int),
        decreases v.len() - j,
    {
        j += 1;
    }
    j
}

/// The first position at or after `i` that holds whitespace.
pub fn skip_word_from(v: &Vec<char>, i: usize) -> (j: usize)
    requires
        i <= v.len(),
    ensures
        j == word_end(v@, i as int),
        i <= j <= v.len(),
{
    let mut j: usize = i;
    while j < v.len() && !is_whitespace(v[j])
        invariant
            i <= j <= v.len(),
            word_end(v@, j as int) == word_end(v@, i as int),
        decreases v.len() - j,
    {
        j += 1;
    }
    j
}

/// The end of the range `from..to` of `v` once its trailing whitespace is cut.
pub fn trim_end_from(v: &Vec<char>, from: usize, to: usize) -> (end: usize)
    requires
        from <= to <= v.len(),
    ensures
        from <= end <= to,
        v@.subrange(from as int, end as int) == trim_end(v@.subrange(from as int, to as int)),
{
    let mut end: usize = to;
    while end > from && is_whitespace(v[end - 1])
        invariant
            from <= end <= to <= v.len(),
            forall|k: int| end <= k < to ==> whitespace(#[trigger] v@[k]),
        decreases end,
    {
        end -= 1;
    }
    proof {
        let r = v@.subrange(from as int, to as int);
        assert forall|k: int| end - from <= k < r.len() implies whitespace(#[trigger] r[k]) by {
            assert(r[k] == v@[from + k]);
        }
        lemma_trim_end_is(r, end - from);
        assert(r.take(end - from) =~= v@.subrange(from as int, end as int));
    }
    end
}

/// Whether the range `from..to` of `v` reads exactly `word`.
pub fn range_equals(v: &Vec<char>, from: usize, to: usize, word: &Vec<char>) -> (b: bool)
    requires
        from <= to <= v.len(),
    ensures
        b == (v@.subrange(from as int, to as int) == word@),
{
    if to - from != word.len() {
        return false;
    }
    let mut i: usize = 0;
    while i < word.len()
        invariant
            from <= to <= v.len(),
            to - from == word.len(),
            i <= word.len(),
            forall|k: int| 0 <= k < i ==> v@[from + k] == word@[k],
        decreases word.len() - i,
    {
        if v[from + i] != word[i] {
            assert(v@.subrange(from as int, to as int)[i as int] != word@[i as int]);
            return false;
        }
        i += 1;
    }
    assert(v@.subrange(from as int, to as int) =~= word@);
    true
}

/// Whether `a` and `b` hold the same characters.
pub fn same_text(a: &str, b: &str) -> (same: bool)
    ensures
        same == (a@ == b@),
{
    let mut rest_a = a.chars();
    let mut rest_b = b.chars();
    let ghost mut i: int = 0;
    loop
        invariant
            0 <= i <= a@.len(),
            i <= b@.len(),
            rest_a.remaining() == a@.skip(i),
            rest_b.remaining() == b@.skip(i),
            a@.take(i) == b@.take(i),
            rest_a.obeys_prophetic_iter_laws(),
            rest_b.obeys_prophetic_iter_laws(),
            rest_a.decrease() is Some,
        decreases rest_a.decrease()->0,
    {
        let next_a = rest_a.next();
        let next_b = rest_b.next();
        match (next_a, next_b) {
            (Some(x), Some(y)) => {
                if x != y {
                    assert(a@[i] != b@[i]);
                    return false;
                }
                proof {
                    assert(a@.skip(i).drop_first() =~= a@.skip(i + 1));
                    assert(b@.skip(i).drop_first() =~= b@.skip(i + 1));
                    assert(a@.take(i + 1) =~= a@.take(i).push(x));
                    assert(b@.take(i + 1) =~= b@.take(i).push(y));
                    i = i + 1;
                }
            },
            (None, None) => {
                assert(a@ =~= a@.take(i));
                assert(b@ =~= b@.take(i));
                return true;
            },
            _ => {
                assert(a@.len() != b@.len());
                return false;
            },
        }
    }
}

/// Whether `v` ends with `suffix`.
pub fn ends_with_text(v: &Vec<char>, suffix: &Vec<char>) -> (b: bool)
    ensures
        b == ends_with(v@, suffix@),
{
    if suffix.len() > v.len() {
        return false;
    }
    let from = v.len() - suffix.len();
    let b = range_equals(v, from, v.len(), suffix);
    assert(v@.subrange(from as int, v.len() as int) =~= v@.skip(v.len() - suffix.len()));
    b
}

/// Whether `needle` occurs in `v` as a contiguous run.
pub fn contains_text(v: &Vec<char>, needle: &Vec<char>) -> (b: bool)
    ensures
        b == contains_run(v@, needle@),
{
    if needle.len() > v.len() {
        return false;
    }
    let last = v.len() - needle.len();
    let mut i: usize = 0;
    loop
        invariant
            needle.len() <= v.len(),
            last == v.len() - needle.len(),
            i <= last,
            forall|k: int| 0 <= k < i ==> #[trigger] v@.subrange(k, k + needle.len()) != needle@,
        decreases last - i,
    {
        if range_equals(v, i, i + needle.len(), needle) {
            return true;
        }
        if i == last {
            return false;
        }
        i += 1;
    }
}

/// The range of `v` that is left once its leading and trailing whitespace is
/// cut.
pub fn trim_range(v: &Vec<char>) -> (range: (usize, usize))
    ensures
        range.0 <= range.1 <= v.len(),
        v@.subrange(range.0 as int, range.1 as int) == trim(v@),
{
    let from = skip_whitespace_from(v, 0);
    let to = trim_end_from(v, from, v.len());
    assert(v@.subrange(from as int, v.len() as int) =~= v@.skip(from as int));
    (from, to)
}

} // verus!
