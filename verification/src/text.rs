//! Character-level text model: strings are viewed as `Seq<char>`, and every text
//! transformation of the library is stated over that view.

use vstd::prelude::*;

verus! {

broadcast use vstd::string::group_string_axioms;

// ---------------------------------------------------------------------------
// Specification of the text operations
// ---------------------------------------------------------------------------

/// Unicode `White_Space` characters (the set `char::is_whitespace` tests for).
pub open spec fn is_ws(c: char) -> bool {
    ||| ('\t' <= c && c <= '\r')
    ||| c == ' '
    ||| c == '\u{85}'
    ||| c == '\u{A0}'
    ||| c == '\u{1680}'
    ||| ('\u{2000}' <= c && c <= '\u{200A}')
    ||| c == '\u{2028}'
    ||| c == '\u{2029}'
    ||| c == '\u{202F}'
    ||| c == '\u{205F}'
    ||| c == '\u{3000}'
}

/// `s` without its leading whitespace.
pub open spec fn trim_start(s: Seq<char>) -> Seq<char>
    decreases s.len(),
{
    if s.len() > 0 && is_ws(s[0]) {
        trim_start(s.drop_first())
    } else {
        s
    }
}

/// `s` without its trailing whitespace.
pub open spec fn trim_end(s: Seq<char>) -> Seq<char>
    decreases s.len(),
{
    if s.len() > 0 && is_ws(s.last()) {
        trim_end(s.drop_last())
    } else {
        s
    }
}

/// `s` without whitespace at either end.
pub open spec fn trim(s: Seq<char>) -> Seq<char> {
    trim_end(trim_start(s))
}

/// `s` without any leading occurrence of `c`.
pub open spec fn trim_start_char(s: Seq<char>, c: char) -> Seq<char>
    decreases s.len(),
{
    if s.len() > 0 && s[0] == c {
        trim_start_char(s.drop_first(), c)
    } else {
        s
    }
}

/// `s` without any trailing occurrence of `c`.
pub open spec fn trim_end_char(s: Seq<char>, c: char) -> Seq<char>
    decreases s.len(),
{
    if s.len() > 0 && s.last() == c {
        trim_end_char(s.drop_last(), c)
    } else {
        s
    }
}

/// `s` without any occurrence of `c` at either end.
pub open spec fn trim_char(s: Seq<char>, c: char) -> Seq<char> {
    trim_end_char(trim_start_char(s, c), c)
}

pub open spec fn starts_with(s: Seq<char>, p: Seq<char>) -> bool {
    p.len() <= s.len() && s.take(p.len() as int) == p
}

pub open spec fn ends_with(s: Seq<char>, p: Seq<char>) -> bool {
    p.len() <= s.len() && s.skip(s.len() - p.len()) == p
}

/// `n` occurs in `h` starting at position `i`.
pub open spec fn matches_at(h: Seq<char>, n: Seq<char>, i: int) -> bool {
    0 <= i && i + n.len() <= h.len() && h.subrange(i, i + n.len()) == n
}

pub open spec fn contains(h: Seq<char>, n: Seq<char>) -> bool {
    exists|i: int| matches_at(h, n, i)
}

/// `i` is the first position at or after `from` where `n` occurs in `h`.
pub open spec fn is_first_match_from(h: Seq<char>, n: Seq<char>, from: int, i: int) -> bool {
    &&& from <= i
    &&& matches_at(h, n, i)
    &&& forall|j: int| from <= j < i ==> !matches_at(h, n, j)
}

/// The first position at or after `from` where `n` occurs in `h`, if any.
pub open spec fn find_from(h: Seq<char>, n: Seq<char>, from: int) -> Option<int> {
    if exists|i: int| from <= i && matches_at(h, n, i) {
        Some(choose|i: int| is_first_match_from(h, n, from, i))
    } else {
        None
    }
}

/// The position of the first occurrence of `n` in `h`, if any.
pub open spec fn find(h: Seq<char>, n: Seq<char>) -> Option<int> {
    find_from(h, n, 0)
}

/// A line without the `'\r'` that ends it, if any.
pub open spec fn strip_cr(l: Seq<char>) -> Seq<char> {
    if l.len() > 0 && l.last() == '\r' {
        l.drop_last()
    } else {
        l
    }
}

/// The lines of `s`: pieces separated by `'\n'`; a piece ended by `'\n'` loses the
/// `'\r'` before it (a `"\r\n"` terminator), while a `'\r'` that ends the text stays in
/// the last line; a final line terminator does not start an empty line.
pub open spec fn lines(s: Seq<char>) -> Seq<Seq<char>>
    decreases s.len(),
{
    if s.len() == 0 {
        Seq::empty()
    } else {
        match find(s, seq!['\n']) {
            None => seq![s],
            Some(k) => if 0 <= k < s.len() {
                seq![strip_cr(s.take(k))] + lines(s.skip(k + 1))
            } else {
                Seq::empty()
            },
        }
    }
}

/// The pieces of `parts`, with `sep` between consecutive pieces.
pub open spec fn join(parts: Seq<Seq<char>>, sep: Seq<char>) -> Seq<char>
    decreases parts.len(),
{
    if parts.len() == 0 {
        Seq::empty()
    } else if parts.len() == 1 {
        parts[0]
    } else {
        join(parts.drop_last(), sep) + sep + parts.last()
    }
}

// ---------------------------------------------------------------------------
// Outside text functions whose results are named
// ---------------------------------------------------------------------------

/// What `str::to_lowercase` returns for a string (Unicode lowercase mapping).
pub uninterp spec fn lowercase(s: Seq<char>) -> Seq<char>;

/// Whether a character has the Unicode `Alphabetic` or `Numeric` property.
pub uninterp spec fn is_alphanumeric(c: char) -> bool;

/// Lowercases a string.
///
/// Calls `str::to_lowercase`; the contract names its result, which depends on the
/// argument alone (the Unicode case tables), and states that the empty string stays
/// empty (the function maps each character and adds nothing).
#[verifier::external_body]
pub(crate) fn to_lowercase(s: &str) -> (r: String)
    ensures
        r@ == lowercase(s@),
        s@.len() == 0 ==> r@.len() == 0,
{
    s.to_lowercase()
}

/// Tests a character for the Unicode `Alphabetic`/`Numeric` property.
///
/// Calls `char::is_alphanumeric`; the contract names its result.
#[verifier::external_body]
pub(crate) fn char_is_alphanumeric(c: char) -> (r: bool)
    ensures
        r == is_alphanumeric(c),
{
    c.is_alphanumeric()
}

/// Appends one character to a string.
///
/// Wraps `String::push`, whose documentation states that it appends the given
/// `char` to the end of the string; that is all the contract claims.
#[verifier::external_body]
pub(crate) fn push_char(s: &mut String, c: char)
    ensures
        final(s)@ == old(s)@.push(c),
{
    s.push(c)
}

// ---------------------------------------------------------------------------
// Lemmas
// ---------------------------------------------------------------------------

pub proof fn lemma_trim_start_skip(s: Seq<char>, n: int)
    requires
        0 <= n <= s.len(),
        forall|j: int| 0 <= j < n ==> is_ws(#[trigger] s[j]),
    ensures
        trim_start(s) == trim_start(s.skip(n)),
    decreases n,
{
    if n > 0 {
        assert(s.drop_first().skip(n - 1) == s.skip(n));
        lemma_trim_start_skip(s.drop_first(), n - 1);
    } else {
        assert(s.skip(0) == s);
    }
}

pub proof fn lemma_trim_end_take(s: Seq<char>, n: int)
    requires
        0 <= n <= s.len(),
        forall|j: int| n <= j < s.len() ==> is_ws(#[trigger] s[j]),
    ensures
        trim_end(s) == trim_end(s.take(n)),
    decreases s.len() - n,
{
    if n < s.len() {
        assert(s.drop_last().take(n) == s.take(n));
        lemma_trim_end_take(s.drop_last(), n);
    } else {
        assert(s.take(n) == s);
    }
}

/// What `trim_end` leaves does not end with whitespace.
pub proof fn lemma_trim_end_last(y: Seq<char>)
    ensures
        trim_end(y).len() > 0 ==> !is_ws(trim_end(y).last()),
        trim_end(trim_end(y)) == trim_end(y),
    decreases y.len(),
{
    if y.len() > 0 && is_ws(y.last()) {
        lemma_trim_end_last(y.drop_last());
    }
}

/// A text ending with a character that is not whitespace keeps it through `trim_start`.
proof fn lemma_trim_start_keeps_last(x: Seq<char>)
    requires
        x.len() > 0,
        !is_ws(x.last()),
    ensures
        trim_start(x).len() > 0,
        trim_start(x).last() == x.last(),
    decreases x.len(),
{
    if is_ws(x[0]) {
        assert(x.len() >= 2);
        assert(x.drop_first().last() == x.last());
        lemma_trim_start_keeps_last(x.drop_first());
    }
}

/// Dropping a trailing whitespace character does not change `trim`.
proof fn lemma_trim_drop_last_ws(x: Seq<char>)
    requires
        x.len() > 0,
        is_ws(x.last()),
    ensures
        trim_end(trim_start(x)) == trim_end(trim_start(x.drop_last())),
    decreases x.len(),
{
    if x.len() == 1 {
        assert(x.drop_last().len() == 0);
        assert(trim_start(x.drop_first()) == x.drop_first());
    } else if is_ws(x[0]) {
        assert(x.drop_last()[0] == x[0]);
        assert(x.drop_last().drop_first() == x.drop_first().drop_last());
        assert(x.drop_first().last() == x.last());
        lemma_trim_drop_last_ws(x.drop_first());
    } else {
        assert(x.drop_last()[0] == x[0]);
    }
}

/// `trim_start` and `trim_end` commute.
pub proof fn lemma_trim_commute(x: Seq<char>)
    ensures
        trim_start(trim_end(x)) == trim_end(trim_start(x)),
    decreases x.len(),
{
    if x.len() > 0 && is_ws(x.last()) {
        lemma_trim_commute(x.drop_last());
        lemma_trim_drop_last_ws(x);
    } else if x.len() > 0 {
        lemma_trim_start_keeps_last(x);
    }
}

/// Trimming a text whose end was already trimmed is trimming it.
pub proof fn lemma_trim_of_trim_end(x: Seq<char>)
    ensures
        trim(trim_end(x)) == trim(x),
{
    lemma_trim_commute(x);
    lemma_trim_commute(trim_end(x));
    lemma_trim_end_last(x);
}

pub proof fn lemma_trim_start_char_skip(s: Seq<char>, c: char, n: int)
    requires
        0 <= n <= s.len(),
        forall|j: int| 0 <= j < n ==> #[trigger] s[j] == c,
    ensures
        trim_start_char(s, c) == trim_start_char(s.skip(n), c),
    decreases n,
{
    if n > 0 {
        assert(s.drop_first().skip(n - 1) == s.skip(n));
        lemma_trim_start_char_skip(s.drop_first(), c, n - 1);
    } else {
        assert(s.skip(0) == s);
    }
}

pub proof fn lemma_trim_end_char_take(s: Seq<char>, c: char, n: int)
    requires
        0 <= n <= s.len(),
        forall|j: int| n <= j < s.len() ==> #[trigger] s[j] == c,
    ensures
        trim_end_char(s, c) == trim_end_char(s.take(n), c),
    decreases s.len() - n,
{
    if n < s.len() {
        assert(s.drop_last().take(n) == s.take(n));
        lemma_trim_end_char_take(s.drop_last(), c, n);
    } else {
        assert(s.take(n) == s);
    }
}

/// The first match is unique.
pub proof fn lemma_first_match_unique(h: Seq<char>, n: Seq<char>, from: int, i: int, k: int)
    requires
        is_first_match_from(h, n, from, i),
        is_first_match_from(h, n, from, k),
    ensures
        i == k,
{
}

/// Some match at or after `from` implies a first one.
pub proof fn lemma_first_match_exists(h: Seq<char>, n: Seq<char>, from: int, j: int)
    requires
        from <= j,
        matches_at(h, n, j),
    ensures
        exists|i: int| is_first_match_from(h, n, from, i),
    decreases j - from,
{
    if exists|k: int| from <= k < j && matches_at(h, n, k) {
        let k = choose|k: int| from <= k < j && matches_at(h, n, k);
        lemma_first_match_exists(h, n, from, k);
    } else {
        assert(is_first_match_from(h, n, from, j));
    }
}

/// What `find_from` returns is the first match.
pub proof fn lemma_find_from_first(h: Seq<char>, n: Seq<char>, from: int)
    ensures
        match find_from(h, n, from) {
            Some(i) => is_first_match_from(h, n, from, i),
            None => forall|j: int| from <= j ==> !matches_at(h, n, j),
        },
{
    if exists|i: int| from <= i && matches_at(h, n, i) {
        let j = choose|i: int| from <= i && matches_at(h, n, i);
        lemma_first_match_exists(h, n, from, j);
    }
}

/// Pins `find_from` down once a first match is known.
pub proof fn lemma_find_from_some(h: Seq<char>, n: Seq<char>, from: int, i: int)
    requires
        is_first_match_from(h, n, from, i),
    ensures
        find_from(h, n, from) == Some(i),
{
    let k = choose|k: int| is_first_match_from(h, n, from, k);
    lemma_first_match_unique(h, n, from, i, k);
}

pub proof fn lemma_join_push(parts: Seq<Seq<char>>, sep: Seq<char>, p: Seq<char>)
    requires
        parts.len() > 0,
    ensures
        join(parts.push(p), sep) == join(parts, sep) + sep + p,
{
    assert(parts.push(p).drop_last() == parts);
}

// ---------------------------------------------------------------------------
// Executable operations
// ---------------------------------------------------------------------------

/// The characters of `s`, in order.
pub fn to_chars(s: &str) -> (v: Vec<char>)
    ensures
        v@ == s@,
{
    let mut v: Vec<char> = Vec::new();
    for c in it: s.chars()
        invariant
            v@ == it.seq().take(it.index() as int),
            it.seq() == s@,
    {
        v.push(c);
    }
    v
}

/// The string made of the characters of `v`, in order.
pub fn from_chars(v: &[char]) -> (s: String)
    ensures
        s@ == v@,
{
    let mut s = String::new();
    let mut i: usize = 0;
    while i < v.len()
        invariant
            i <= v.len(),
            s@ == v@.take(i as int),
        decreases v.len() - i,
    {
        push_char(&mut s, v[i]);
        assert(v@.take(i + 1) == v@.take(i as int).push(v@[i as int]));
        i = i + 1;
    }
    assert(v@.take(v.len() as int) == v@);
    s
}

/// Appends the characters of `src` to `dst`.
pub fn extend_chars(dst: &mut Vec<char>, src: &[char])
    ensures
        final(dst)@ == old(dst)@ + src@,
{
    let mut i: usize = 0;
    while i < src.len()
        invariant
            i <= src.len(),
            dst@ == old(dst)@ + src@.take(i as int),
        decreases src.len() - i,
    {
        dst.push(src[i]);
        assert(src@.take(i + 1) == src@.take(i as int).push(src@[i as int]));
        i = i + 1;
    }
    assert(src@.take(src.len() as int) == src@);
}

/// Appends the characters of `src[from..to]` to `dst`.
pub fn extend_range(dst: &mut Vec<char>, src: &[char], from: usize, to: usize)
    requires
        from <= to <= src.len(),
    ensures
        final(dst)@ == old(dst)@ + src@.subrange(from as int, to as int),
{
    let mut i: usize = from;
    while i < to
        invariant
            from <= i <= to <= src.len(),
            dst@ == old(dst)@ + src@.subrange(from as int, i as int),
        decreases to - i,
    {
        dst.push(src[i]);
        assert(src@.subrange(from as int, i + 1) == src@.subrange(from as int, i as int).push(
            src@[i as int],
        ));
        i = i + 1;
    }
}

/// Appends the characters of `s` to `dst`.
pub fn extend_str(dst: &mut Vec<char>, s: &str)
    ensures
        final(dst)@ == old(dst)@ + s@,
{
    let v = to_chars(s);
    extend_chars(dst, &v);
}

/// Whether `a` and `b` hold the same characters.
pub fn chars_eq(a: &[char], b: &[char]) -> (r: bool)
    ensures
        r == (a@ == b@),
{
    if a.len() != b.len() {
        return false;
    }
    let mut i: usize = 0;
    while i < a.len()
        invariant
            i <= a.len(),
            a.len() == b.len(),
            forall|j: int| 0 <= j < i ==> a@[j] == b@[j],
        decreases a.len() - i,
    {
        if a[i] != b[i] {
            return false;
        }
        i = i + 1;
    }
    assert(a@ == b@);
    true
}

/// Whether `a` holds the characters of `b`.
pub fn chars_eq_str(a: &[char], b: &str) -> (r: bool)
    ensures
        r == (a@ == b@),
{
    let bv = to_chars(b);
    chars_eq(a, &bv)
}

/// Whether two strings hold the same characters.
pub fn str_eq(a: &str, b: &str) -> (r: bool)
    ensures
        r == (a@ == b@),
{
    let av = to_chars(a);
    chars_eq_str(&av, b)
}

/// Whether `n` occurs in `h` at position `i`.
pub fn matches_at_exec(h: &[char], n: &[char], i: usize) -> (r: bool)
    ensures
        r == matches_at(h@, n@, i as int),
{
    if i > h.len() || n.len() > h.len() - i {
        return false;
    }
    let mut k: usize = 0;
    while k < n.len()
        invariant
            k <= n.len(),
            i + n.len() <= h.len(),
            forall|j: int| 0 <= j < k ==> h@[i + j] == n@[j],
        decreases n.len() - k,
    {
        if h[i + k] != n[k] {
            assert(h@.subrange(i as int, i + n.len())[k as int] != n@[k as int]);
            return false;
        }
        k = k + 1;
    }
    assert(h@.subrange(i as int, i + n.len()) == n@);
    true
}

/// The first position at or after `from` where `n` occurs in `h`.
pub fn find_from_exec(h: &[char], n: &[char], from: usize) -> (r: Option<usize>)
    ensures
        match r {
            Some(i) => find_from(h@, n@, from as int) == Some(i as int) && is_first_match_from(
                h@,
                n@,
                from as int,
                i as int,
            ),
            None => find_from(h@, n@, from as int) is None && forall|j: int|
                from <= j ==> !matches_at(h@, n@, j),
        },
{
    if from > h.len() {
        assert forall|j: int| from <= j implies !matches_at(h@, n@, j) by {}
        return None;
    }
    let mut i: usize = from;
    while i < h.len()
        invariant
            from <= i <= h.len(),
            forall|j: int| from <= j < i ==> !matches_at(h@, n@, j),
        decreases h.len() - i,
    {
        if matches_at_exec(h, n, i) {
            proof {
                lemma_find_from_some(h@, n@, from as int, i as int);
            }
            return Some(i);
        }
        i = i + 1;
    }
    if matches_at_exec(h, n, i) {
        proof {
            lemma_find_from_some(h@, n@, from as int, i as int);
        }
        return Some(i);
    }
    assert forall|j: int| from <= j implies !matches_at(h@, n@, j) by {
        if j > i {
            assert(j > h.len());
        }
    }
    None
}

/// Whether `n` occurs anywhere in `h`.
pub fn contains_exec(h: &[char], n: &[char]) -> (r: bool)
    ensures
        r == contains(h@, n@),
{
    let found = find_from_exec(h, n, 0);
    proof {
        if found is None {
            assert forall|i: int| !matches_at(h@, n@, i) by {
                if 0 <= i {
                } else {
                }
            }
        } else {
            assert(find_from(h@, n@, 0) is Some);
            assert(exists|i: int| 0 <= i && matches_at(h@, n@, i));
        }
    }
    found.is_some()
}

/// Whether `h` contains the characters of `n`.
pub fn contains_str(h: &[char], n: &str) -> (r: bool)
    ensures
        r == contains(h@, n@),
{
    let nv = to_chars(n);
    contains_exec(h, &nv)
}

/// Whether `s` starts with the characters of `p`.
pub fn starts_with_str(s: &[char], p: &str) -> (r: bool)
    ensures
        r == starts_with(s@, p@),
{
    let pv = to_chars(p);
    let r = matches_at_exec(s, &pv, 0);
    assert(r == starts_with(s@, p@)) by {
        assert(s@.take(pv@.len() as int) == s@.subrange(0, pv@.len() as int));
    }
    r
}

/// Whether `s` ends with the characters of `p`.
pub fn ends_with_str(s: &[char], p: &str) -> (r: bool)
    ensures
        r == ends_with(s@, p@),
{
    let pv = to_chars(p);
    if pv.len() > s.len() {
        return false;
    }
    let r = matches_at_exec(s, &pv, s.len() - pv.len());
    assert(r == ends_with(s@, p@)) by {
        assert(s@.skip(s@.len() - pv@.len()) == s@.subrange(
            s@.len() - pv@.len(),
            s@.len() as int,
        ));
    }
    r
}

/// Whether `c` is a Unicode whitespace character.
pub fn is_ws_exec(c: char) -> (r: bool)
    ensures
        r == is_ws(c),
{
    ('\t' <= c && c <= '\r') || c == ' ' || c == '\u{85}' || c == '\u{A0}' || c == '\u{1680}'
        || ('\u{2000}' <= c && c <= '\u{200A}') || c == '\u{2028}' || c == '\u{2029}' || c
        == '\u{202F}' || c == '\u{205F}' || c == '\u{3000}'
}

/// Bounds of `v` once whitespace is trimmed from its start.
pub fn trim_start_index(v: &[char]) -> (a: usize)
    ensures
        a <= v.len(),
        trim_start(v@) == v@.skip(a as int),
{
    let mut a: usize = 0;
    while a < v.len() && is_ws_exec(v[a])
        invariant
            a <= v.len(),
            forall|j: int| 0 <= j < a ==> is_ws(#[trigger] v@[j]),
        decreases v.len() - a,
    {
        a = a + 1;
    }
    proof {
        lemma_trim_start_skip(v@, a as int);
        let t = v@.skip(a as int);
        if t.len() > 0 {
            assert(t[0] == v@[a as int]);
        }
    }
    a
}

/// End bound of `v[..to]` once whitespace is trimmed from its end.
pub fn trim_end_index(v: &[char], to: usize) -> (b: usize)
    requires
        to <= v.len(),
    ensures
        b <= to,
        trim_end(v@.take(to as int)) == v@.take(b as int),
{
    let mut b: usize = to;
    while b > 0 && is_ws_exec(v[b - 1])
        invariant
            b <= to <= v.len(),
            forall|j: int| b <= j < to ==> is_ws(#[trigger] v@[j]),
        decreases b,
    {
        b = b - 1;
    }
    proof {
        let s = v@.take(to as int);
        assert forall|j: int| b <= j < s.len() implies is_ws(#[trigger] s[j]) by {
            assert(s[j] == v@[j]);
        }
        lemma_trim_end_take(s, b as int);
        assert(s.take(b as int) == v@.take(b as int));
        let t = v@.take(b as int);
        if t.len() > 0 {
            assert(t.last() == v@[b - 1]);
        }
    }
    b
}

/// The characters of `v` with whitespace trimmed at both ends.
pub fn trim_chars(v: &[char]) -> (r: Vec<char>)
    ensures
        r@ == trim(v@),
{
    let a = trim_start_index(v);
    let mut rest: Vec<char> = Vec::new();
    extend_range(&mut rest, v, a, v.len());
    assert(rest@ == v@.skip(a as int));
    let b = trim_end_index(&rest, rest.len());
    assert(rest@.take(rest.len() as int) == rest@);
    let mut r: Vec<char> = Vec::new();
    extend_range(&mut r, &rest, 0, b);
    assert(r@ == rest@.take(b as int));
    r
}

/// The characters of `v` with leading whitespace removed.
pub fn trim_start_chars(v: &[char]) -> (r: Vec<char>)
    ensures
        r@ == trim_start(v@),
{
    let a = trim_start_index(v);
    let mut r: Vec<char> = Vec::new();
    extend_range(&mut r, v, a, v.len());
    assert(r@ == v@.skip(a as int));
    r
}

/// The characters of `v` with trailing whitespace removed.
pub fn trim_end_chars(v: &[char]) -> (r: Vec<char>)
    ensures
        r@ == trim_end(v@),
{
    let b = trim_end_index(v, v.len());
    assert(v@.take(v.len() as int) == v@);
    let mut r: Vec<char> = Vec::new();
    extend_range(&mut r, v, 0, b);
    assert(r@ == v@.take(b as int));
    r
}

/// The characters of `v` with every occurrence of `c` trimmed at both ends.
pub fn trim_char_chars(v: &[char], c: char) -> (r: Vec<char>)
    ensures
        r@ == trim_char(v@, c),
{
    let mut a: usize = 0;
    while a < v.len() && v[a] == c
        invariant
            a <= v.len(),
            forall|j: int| 0 <= j < a ==> #[trigger] v@[j] == c,
        decreases v.len() - a,
    {
        a = a + 1;
    }
    proof {
        lemma_trim_start_char_skip(v@, c, a as int);
        let t = v@.skip(a as int);
        if t.len() > 0 {
            assert(t[0] == v@[a as int]);
        }
    }
    let mut b: usize = v.len();
    while b > a && v[b - 1] == c
        invariant
            a <= b <= v.len(),
            forall|j: int| b <= j < v.len() ==> #[trigger] v@[j] == c,
        decreases b,
    {
        b = b - 1;
    }
    proof {
        let t = v@.skip(a as int);
        assert forall|j: int| b - a <= j < t.len() implies #[trigger] t[j] == c by {
            assert(t[j] == v@[a + j]);
        }
        lemma_trim_end_char_take(t, c, b - a);
        let u = t.take(b - a);
        assert(u == v@.subrange(a as int, b as int));
        if u.len() > 0 {
            assert(u.last() == v@[b - 1]);
        }
    }
    let mut r: Vec<char> = Vec::new();
    extend_range(&mut r, v, a, b);
    r
}

/// The characters of `v` with every trailing occurrence of `c` removed.
pub fn trim_end_char_chars(v: &[char], c: char) -> (r: Vec<char>)
    ensures
        r@ == trim_end_char(v@, c),
{
    let mut b: usize = v.len();
    while b > 0 && v[b - 1] == c
        invariant
            b <= v.len(),
            forall|j: int| b <= j < v.len() ==> #[trigger] v@[j] == c,
        decreases b,
    {
        b = b - 1;
    }
    proof {
        lemma_trim_end_char_take(v@, c, b as int);
        let u = v@.take(b as int);
        if u.len() > 0 {
            assert(u.last() == v@[b - 1]);
        }
    }
    let mut r: Vec<char> = Vec::new();
    extend_range(&mut r, v, 0, b);
    assert(r@ == v@.take(b as int));
    r
}

/// The character view of each piece.
pub open spec fn views(v: Seq<Vec<char>>) -> Seq<Seq<char>> {
    v.map_values(|l: Vec<char>| l@)
}

pub proof fn lemma_single_char_match(s: Seq<char>, c: char, k: int)
    requires
        0 <= k < s.len(),
    ensures
        matches_at(s, seq![c], k) <==> s[k] == c,
{
    if s[k] == c {
        assert(s.subrange(k, k + 1) == seq![c]);
    }
    if matches_at(s, seq![c], k) {
        assert(s.subrange(k, k + 1)[0] == s[k]);
    }
}

/// The first `c` in `s` is at `k` when `s[k] == c` and no earlier character is `c`.
pub proof fn lemma_find_char(s: Seq<char>, c: char, k: int)
    requires
        0 <= k < s.len(),
        s[k] == c,
        forall|j: int| 0 <= j < k ==> s[j] != c,
    ensures
        find(s, seq![c]) == Some(k),
{
    lemma_single_char_match(s, c, k);
    assert forall|j: int| 0 <= j < k implies !matches_at(s, seq![c], j) by {
        lemma_single_char_match(s, c, j);
    }
    lemma_find_from_some(s, seq![c], 0, k);
}

/// No `c` in `s`.
pub proof fn lemma_find_char_none(s: Seq<char>, c: char)
    requires
        forall|j: int| 0 <= j < s.len() ==> s[j] != c,
    ensures
        find(s, seq![c]) is None,
{
    assert forall|i: int| 0 <= i implies !matches_at(s, seq![c], i) by {
        if i < s.len() {
            lemma_single_char_match(s, c, i);
        }
    }
}

/// The lines of `v` (see `lines`).
pub fn split_lines(v: &[char]) -> (r: Vec<Vec<char>>)
    ensures
        views(r@) == lines(v@),
{
    let mut out: Vec<Vec<char>> = Vec::new();
    let mut pos: usize = 0;
    assert(v@.skip(0) == v@);
    while pos < v.len()
        invariant
            pos <= v.len(),
            lines(v@) == views(out@) + lines(v@.skip(pos as int)),
        decreases v.len() - pos,
    {
        let ghost rest = v@.skip(pos as int);
        let mut j: usize = pos;
        while j < v.len() && v[j] != '\n'
            invariant
                pos <= j <= v.len(),
                forall|m: int| pos <= m < j ==> v@[m] != '\n',
            decreases v.len() - j,
        {
            j = j + 1;
        }
        let mut end: usize = j;
        if j < v.len() && end > pos && v[end - 1] == '\r' {
            end = end - 1;
        }
        let mut line: Vec<char> = Vec::new();
        extend_range(&mut line, v, pos, end);
        let ghost before = out@;
        out.push(line);
        proof {
            assert(views(out@) == views(before).push(line@));
            if j < v.len() {
                lemma_find_char(rest, '\n', j - pos);
                assert(rest.take(j - pos) == v@.subrange(pos as int, j as int));
                assert(rest.skip(j - pos + 1) == v@.skip(j + 1));
                assert(strip_cr(rest.take(j - pos)) == line@);
            } else {
                lemma_find_char_none(rest, '\n');
                assert(rest == v@.subrange(pos as int, j as int));
                assert(rest == line@);
                assert(v@.skip(j as int).len() == 0);
            }
            assert(lines(rest) == seq![line@] + lines(v@.skip(if j < v.len() { j + 1 } else { j as int })));
        }
        if j < v.len() {
            pos = j + 1;
        } else {
            pos = j;
        }
    }
    assert(views(out@) + lines(v@.skip(pos as int)) == views(out@));
    out
}

/// The pieces of `parts` with `sep` between consecutive pieces (see `join`).
pub fn join_chars(parts: &Vec<Vec<char>>, sep: &[char]) -> (r: Vec<char>)
    ensures
        r@ == join(views(parts@), sep@),
{
    let mut r: Vec<char> = Vec::new();
    let mut i: usize = 0;
    while i < parts.len()
        invariant
            i <= parts.len(),
            r@ == join(views(parts@).take(i as int), sep@),
        decreases parts.len() - i,
    {
        let ghost prev = views(parts@).take(i as int);
        if i > 0 {
            extend_chars(&mut r, sep);
        }
        extend_chars(&mut r, &parts[i]);
        proof {
            let next = views(parts@).take(i + 1);
            assert(next == prev.push(parts@[i as int]@));
            if i > 0 {
                lemma_join_push(prev, sep@, parts@[i as int]@);
            } else {
                assert(prev.len() == 0);
                assert(next.len() == 1);
            }
        }
        i = i + 1;
    }
    assert(views(parts@).take(parts.len() as int) == views(parts@));
    r
}

/// The decimal digit of `d` (`d < 10`).
pub open spec fn digit(d: int) -> char {
    (48 + d) as char
}

/// The decimal representation of `n`, without leading zeros.
pub open spec fn decimal(n: nat) -> Seq<char>
    decreases n,
{
    if n < 10 {
        seq![digit(n as int)]
    } else {
        decimal(n / 10).push(digit((n % 10) as int))
    }
}

/// `s` left-padded with `'0'` to at least `width` characters.
pub open spec fn zero_pad(s: Seq<char>, width: nat) -> Seq<char> {
    if s.len() >= width {
        s
    } else {
        Seq::new((width - s.len()) as nat, |i: int| '0') + s
    }
}

/// The decimal representation of `n`.
pub fn decimal_chars(n: u64) -> (r: Vec<char>)
    ensures
        r@ == decimal(n as nat),
    decreases n,
{
    if n < 10 {
        let c: char = ((48 + n) as u8) as char;
        let r: Vec<char> = vec![c];
        assert(r@ == seq![digit(n as int)]);
        r
    } else {
        let mut r = decimal_chars(n / 10);
        let c: char = ((48 + n % 10) as u8) as char;
        r.push(c);
        r
    }
}

/// The decimal representation of `n`, left-padded with zeros to `width` characters.
pub fn zero_padded_chars(n: u64, width: usize) -> (r: Vec<char>)
    ensures
        r@ == zero_pad(decimal(n as nat), width as nat),
{
    let d = decimal_chars(n);
    if d.len() >= width {
        return d;
    }
    let mut r: Vec<char> = Vec::new();
    let pad = width - d.len();
    let mut i: usize = 0;
    while i < pad
        invariant
            i <= pad,
            pad == width - d@.len(),
            r@ == Seq::new(i as nat, |k: int| '0'),
        decreases pad - i,
    {
        r.push('0');
        assert(r@ == Seq::new((i + 1) as nat, |k: int| '0'));
        i = i + 1;
    }
    extend_chars(&mut r, &d);
    r
}

/// The decimal representation of `n` as a string.
pub fn decimal_string(n: u64) -> (r: String)
    ensures
        r@ == decimal(n as nat),
{
    let d = decimal_chars(n);
    from_chars(&d)
}

/// ASCII lowercase of a character; other characters are unchanged.
pub open spec fn ascii_lower(c: char) -> char {
    if 'A' <= c && c <= 'Z' {
        ((c as u32) + 32) as char
    } else {
        c
    }
}

/// The two texts are equal ignoring ASCII case.
pub open spec fn eq_ignore_ascii_case(a: Seq<char>, b: Seq<char>) -> bool {
    a.len() == b.len() && forall|i: int| 0 <= i < a.len() ==> ascii_lower(a[i]) == ascii_lower(b[i])
}

pub fn ascii_lower_exec(c: char) -> (r: char)
    ensures
        r == ascii_lower(c),
{
    if 'A' <= c && c <= 'Z' {
        let code: u32 = c as u32;
        let lower: u8 = (code + 32) as u8;
        lower as char
    } else {
        c
    }
}

/// Whether two texts are equal ignoring ASCII case.
pub fn eq_ignore_ascii_case_exec(a: &[char], b: &[char]) -> (r: bool)
    ensures
        r == eq_ignore_ascii_case(a@, b@),
{
    if a.len() != b.len() {
        return false;
    }
    let mut i: usize = 0;
    while i < a.len()
        invariant
            i <= a.len(),
            a.len() == b.len(),
            forall|j: int| 0 <= j < i ==> ascii_lower(a@[j]) == ascii_lower(b@[j]),
        decreases a.len() - i,
    {
        if ascii_lower_exec(a[i]) != ascii_lower_exec(b[i]) {
            return false;
        }
        i = i + 1;
    }
    true
}

/// The characters of `v` with every leading occurrence of `c` removed.
pub fn trim_start_char_chars(v: &[char], c: char) -> (r: Vec<char>)
    ensures
        r@ == trim_start_char(v@, c),
{
    let mut a: usize = 0;
    while a < v.len() && v[a] == c
        invariant
            a <= v.len(),
            forall|j: int| 0 <= j < a ==> #[trigger] v@[j] == c,
        decreases v.len() - a,
    {
        a = a + 1;
    }
    proof {
        lemma_trim_start_char_skip(v@, c, a as int);
        let t = v@.skip(a as int);
        if t.len() > 0 {
            assert(t[0] == v@[a as int]);
        }
    }
    let mut r: Vec<char> = Vec::new();
    extend_range(&mut r, v, a, v.len());
    assert(r@ == v@.skip(a as int));
    r
}

} // verus!
