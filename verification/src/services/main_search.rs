//! Where `main` can be found in an entrypoint, and why inserting the driver import
//! neither adds nor hides a `main` function.

use vstd::prelude::*;
use crate::services::driver_injector::{
    DRIVER_IMPORT, is_identifier_boundary, is_main_candidate, last_import_index, last_utf8_byte,
    lemma_last_import_bounds, law_inject_result, spec_already_enabled, spec_insert_import, spec_inject,
};
use crate::text::{
    lemma_join_push, find, find_from, is_alphanumeric, join, lemma_find_from_first, lemma_single_char_match, lines, matches_at,
    strip_cr,
};

verus! {

/// A `main(` at `i` that is not the tail of a longer identifier.
pub open spec fn main_at(s: Seq<char>, i: int) -> bool {
    matches_at(s, "main("@, i) && is_identifier_boundary(s, i)
}

/// A `{` at `j`.
pub open spec fn brace_at(s: Seq<char>, j: int) -> bool {
    0 <= j < s.len() && s[j] == '{'
}

/// Some `main(` at an identifier boundary.
pub open spec fn has_main_call(s: Seq<char>) -> bool {
    exists|i: int| main_at(s, i)
}

/// Some `{`.
pub open spec fn has_brace(s: Seq<char>) -> bool {
    exists|j: int| brace_at(s, j)
}

/// Some `main(` at an identifier boundary with a `{` after it.
pub open spec fn has_main(s: Seq<char>) -> bool {
    exists|i: int| is_main_candidate(s, i)
}

/// `main(` at `i`, character by character.
pub proof fn lemma_main_chars(s: Seq<char>, i: int)
    ensures
        matches_at(s, "main("@, i) <==> (0 <= i && i + 5 <= s.len() && s[i] == 'm' && s[i + 1] == 'a'
            && s[i + 2] == 'i' && s[i + 3] == 'n' && s[i + 4] == '('),
{
    reveal_strlit("main(");
    if 0 <= i && i + 5 <= s.len() && s[i] == 'm' && s[i + 1] == 'a' && s[i + 2] == 'i' && s[i + 3] == 'n'
        && s[i + 4] == '(' {
        assert(s.subrange(i, i + 5) == "main("@);
    }
    if matches_at(s, "main("@, i) {
        let w = s.subrange(i, i + 5);
        assert(w[0] == s[i] && w[1] == s[i + 1] && w[2] == s[i + 2] && w[3] == s[i + 3] && w[4] == s[i + 4]);
    }
}

/// A candidate is a `main(` with a `{` at or after it.
pub proof fn lemma_candidate_chars(s: Seq<char>, i: int)
    ensures
        is_main_candidate(s, i) <==> (main_at(s, i) && exists|j: int| i <= j && #[trigger] brace_at(s, j)),
{
    lemma_find_from_first(s, seq!['{'], i);
    match find_from(s, seq!['{'], i) {
        Some(j) => {
            lemma_single_char_match(s, '{', j);
            assert(brace_at(s, j));
        },
        None => {
            assert forall|j: int| i <= j implies !#[trigger] brace_at(s, j) by {
                if 0 <= j < s.len() {
                    lemma_single_char_match(s, '{', j);
                }
            }
        },
    }
}

/// Splitting a text at a line feed: a `main` lies before it (with its `{` there or
/// after the line feed), or after it.
pub proof fn lemma_split_at_newline(u: Seq<char>, v: Seq<char>)
    ensures
        has_main(u + seq!['\n'] + v) <==> (has_main(u) || (has_main_call(u) && has_brace(v)) || has_main(seq!['\n'] + v)),
        has_brace(u + seq!['\n'] + v) <==> (has_brace(u) || has_brace(v)),
{
    let w = u + seq!['\n'] + v;
    let n = u.len() as int;
    let x = seq!['\n'] + v;
    assert(w == u + x);
    assert forall|k: int| 0 <= k < n implies #[trigger] w[k] == u[k] by {}
    assert forall|k: int| 0 <= k < x.len() implies #[trigger] w[n + k] == x[k] by {}
    assert forall|k: int| 0 <= k < v.len() implies #[trigger] x[k + 1] == v[k] by {}
    assert(w[n] == '\n');
    if has_main(w) {
        let i = choose|i: int| is_main_candidate(w, i);
        lemma_candidate_chars(w, i);
        lemma_main_chars(w, i);
        let j = choose|j: int| i <= j && #[trigger] brace_at(w, j);
        if i + 5 <= n {
            lemma_main_chars(u, i);
            if i > 0 {
                assert(w[i - 1] == u[i - 1]);
            }
            assert(main_at(u, i));
            if j < n {
                assert(w[j] == u[j]);
                assert(brace_at(u, j));
                lemma_candidate_chars(u, i);
                assert(is_main_candidate(u, i));
            } else {
                assert(j != n);
                assert(w[n + (j - n)] == x[j - n]);
                assert(x[(j - n - 1) + 1] == v[j - n - 1]);
                assert(brace_at(v, j - n - 1));
            }
        } else if i <= n {
            assert(w[n] == '\n');
            assert(false);
        } else {
            let i2 = i - n;
            assert(w[n + i2] == x[i2]);
            assert(w[n + (i2 + 1)] == x[i2 + 1]);
            assert(w[n + (i2 + 2)] == x[i2 + 2]);
            assert(w[n + (i2 + 3)] == x[i2 + 3]);
            assert(w[n + (i2 + 4)] == x[i2 + 4]);
            assert(w[n + (i2 - 1)] == x[i2 - 1]);
            lemma_main_chars(x, i2);
            assert(main_at(x, i2));
            assert(w[n + (j - n)] == x[j - n]);
            assert(brace_at(x, j - n));
            lemma_candidate_chars(x, i2);
            assert(is_main_candidate(x, i2));
        }
    }
    if has_main(u) {
        let i = choose|i: int| is_main_candidate(u, i);
        lemma_candidate_chars(u, i);
        lemma_main_chars(u, i);
        let j = choose|j: int| i <= j && #[trigger] brace_at(u, j);
        lemma_main_chars(w, i);
        if i > 0 {
            assert(w[i - 1] == u[i - 1]);
        }
        assert(w[j] == u[j]);
        assert(brace_at(w, j));
        lemma_candidate_chars(w, i);
        assert(is_main_candidate(w, i));
    }
    if has_main_call(u) && has_brace(v) {
        let i = choose|i: int| main_at(u, i);
        let j = choose|j: int| brace_at(v, j);
        lemma_main_chars(u, i);
        lemma_main_chars(w, i);
        if i > 0 {
            assert(w[i - 1] == u[i - 1]);
        }
        assert(x[j + 1] == v[j]);
        assert(w[n + (j + 1)] == x[j + 1]);
        assert(brace_at(w, n + j + 1));
        lemma_candidate_chars(w, i);
        assert(is_main_candidate(w, i));
    }
    if has_main(x) {
        let i2 = choose|i: int| is_main_candidate(x, i);
        lemma_candidate_chars(x, i2);
        lemma_main_chars(x, i2);
        let j = choose|j: int| i2 <= j && #[trigger] brace_at(x, j);
        assert(i2 >= 1);
        let i = n + i2;
        assert(w[n + i2] == x[i2]);
        assert(w[n + (i2 + 1)] == x[i2 + 1]);
        assert(w[n + (i2 + 2)] == x[i2 + 2]);
        assert(w[n + (i2 + 3)] == x[i2 + 3]);
        assert(w[n + (i2 + 4)] == x[i2 + 4]);
        assert(w[n + (i2 - 1)] == x[i2 - 1]);
        lemma_main_chars(w, i);
        assert(main_at(w, i));
        assert(w[n + j] == x[j]);
        assert(brace_at(w, n + j));
        lemma_candidate_chars(w, i);
        assert(is_main_candidate(w, i));
    }
    if has_brace(w) {
        let j = choose|j: int| brace_at(w, j);
        if j < n {
            assert(brace_at(u, j));
        } else {
            assert(j != n);
            assert(w[n + (j - n)] == x[j - n]);
            assert(x[(j - n - 1) + 1] == v[j - n - 1]);
            assert(brace_at(v, j - n - 1));
        }
    }
    if has_brace(u) {
        let j = choose|j: int| brace_at(u, j);
        assert(brace_at(w, j));
    }
    if has_brace(v) {
        let j = choose|j: int| brace_at(v, j);
        assert(x[j + 1] == v[j]);
        assert(w[n + (j + 1)] == x[j + 1]);
        assert(brace_at(w, n + j + 1));
    }
}

/// A carriage return that ends a text is part of no `main(` and is no `{`.
pub proof fn lemma_drop_final_cr(s: Seq<char>)
    requires
        s.len() > 0,
        s.last() == '\r',
    ensures
        has_main(s.drop_last()) <==> has_main(s),
        has_main_call(s.drop_last()) <==> has_main_call(s),
        has_brace(s.drop_last()) <==> has_brace(s),
{
    let t = s.drop_last();
    let l = s.len() - 1;
    assert forall|k: int| 0 <= k < t.len() implies #[trigger] t[k] == s[k] by {}
    if has_main(s) {
        let i = choose|i: int| is_main_candidate(s, i);
        lemma_candidate_chars(s, i);
        lemma_main_chars(s, i);
        let j = choose|j: int| i <= j && #[trigger] brace_at(s, j);
        assert(i + 4 != l);
        assert(j != l);
        lemma_main_chars(t, i);
        if i > 0 {
            assert(t[i - 1] == s[i - 1]);
        }
        assert(brace_at(t, j));
        lemma_candidate_chars(t, i);
        assert(is_main_candidate(t, i));
    }
    if has_main(t) {
        let i = choose|i: int| is_main_candidate(t, i);
        lemma_candidate_chars(t, i);
        lemma_main_chars(t, i);
        let j = choose|j: int| i <= j && #[trigger] brace_at(t, j);
        lemma_main_chars(s, i);
        if i > 0 {
            assert(t[i - 1] == s[i - 1]);
        }
        assert(brace_at(s, j));
        lemma_candidate_chars(s, i);
        assert(is_main_candidate(s, i));
    }
    if has_main_call(s) {
        let i = choose|i: int| main_at(s, i);
        lemma_main_chars(s, i);
        assert(i + 4 != l);
        lemma_main_chars(t, i);
        if i > 0 {
            assert(t[i - 1] == s[i - 1]);
        }
        assert(main_at(t, i));
    }
    if has_main_call(t) {
        let i = choose|i: int| main_at(t, i);
        lemma_main_chars(t, i);
        lemma_main_chars(s, i);
        if i > 0 {
            assert(t[i - 1] == s[i - 1]);
        }
        assert(main_at(s, i));
    }
    if has_brace(s) {
        let j = choose|j: int| brace_at(s, j);
        assert(j != l);
        assert(brace_at(t, j));
    }
    if has_brace(t) {
        let j = choose|j: int| brace_at(t, j);
        assert(brace_at(s, j));
    }
}

/// Neither `strip_cr` nor a leading line feed changes where `main` can be found.
proof fn lemma_strip_cr_keeps_main(u: Seq<char>)
    ensures
        has_main(strip_cr(u)) <==> has_main(u),
        has_main_call(strip_cr(u)) <==> has_main_call(u),
        has_brace(strip_cr(u)) <==> has_brace(u),
        has_main(seq!['\n'] + strip_cr(u)) <==> has_main(seq!['\n'] + u),
        has_main_call(seq!['\n'] + strip_cr(u)) <==> has_main_call(seq!['\n'] + u),
{
    if u.len() > 0 && u.last() == '\r' {
        lemma_drop_final_cr(u);
        let x = seq!['\n'] + u;
        assert(x.last() == '\r');
        assert(x.drop_last() == seq!['\n'] + u.drop_last());
        lemma_drop_final_cr(x);
    }
}

/// A single line feed holds no `main`.
proof fn lemma_newline_has_no_main()
    ensures
        !has_main(seq!['\n']),
        !has_main_call(seq!['\n']),
        !has_brace(Seq::<char>::empty()),
{
    if has_main_call(seq!['\n']) {
        let i = choose|i: int| main_at(seq!['\n'], i);
        lemma_main_chars(seq!['\n'], i);
    }
    if has_main(seq!['\n']) {
        let i = choose|i: int| is_main_candidate(seq!['\n'], i);
        lemma_main_chars(seq!['\n'], i);
    }
}

/// A non-empty text has at least one line.
proof fn lemma_lines_nonempty(s: Seq<char>)
    requires
        s.len() > 0,
    ensures
        lines(s).len() > 0,
{
    lemma_find_from_first(s, seq!['\n'], 0);
    match find(s, seq!['\n']) {
        Some(k) => {
            assert(matches_at(s, seq!['\n'], k));
        },
        None => {},
    }
}

/// Joining a first piece with the rest.
pub proof fn lemma_join_first(a: Seq<char>, b: Seq<Seq<char>>, sep: Seq<char>)
    requires
        b.len() > 0,
    ensures
        join(seq![a] + b, sep) == a + sep + join(b, sep),
    decreases b.len(),
{
    let c = seq![a] + b;
    assert(c.drop_last() == seq![a] + b.drop_last());
    assert(c.last() == b.last());
    if b.len() == 1 {
        assert(seq![a] + b.drop_last() == seq![a]);
        assert(join(seq![a], sep) == a);
    } else {
        lemma_join_first(a, b.drop_last(), sep);
    }
}

/// Rejoining the lines of a text with line feeds (which drops `'\r'` before line feeds
/// and a final line feed) changes nothing about where `main` can be found.
pub proof fn lemma_join_lines_keeps_main(s: Seq<char>)
    ensures
        has_main(join(lines(s), seq!['\n'])) <==> has_main(s),
        has_main(seq!['\n'] + join(lines(s), seq!['\n'])) <==> has_main(seq!['\n'] + s),
        has_brace(join(lines(s), seq!['\n'])) <==> has_brace(s),
    decreases s.len(),
{
    let nl = seq!['\n'];
    if s.len() == 0 {
        assert(join(lines(s), nl) == s);
    } else {
        lemma_find_from_first(s, nl, 0);
        match find(s, nl) {
            None => {
                assert(lines(s) == seq![s]);
                assert(join(seq![s], nl) == s);
            },
            Some(k) => {
                lemma_single_char_match(s, '\n', k);
                let u = s.take(k);
                let w = s.skip(k + 1);
                assert(s == u + nl + w);
                let u2 = strip_cr(u);
                assert(lines(s) == seq![u2] + lines(w));
                lemma_strip_cr_keeps_main(u);
                lemma_split_at_newline(u, w);
                lemma_split_at_newline(nl + u, w);
                assert(nl + s == (nl + u) + nl + w);
                lemma_newline_has_no_main();
                if w.len() == 0 {
                    assert(lines(w) == Seq::<Seq<char>>::empty());
                    assert(seq![u2] + lines(w) == seq![u2]);
                    assert(join(seq![u2], nl) == u2);
                    assert(nl + w == nl);
                } else {
                    lemma_join_lines_keeps_main(w);
                    lemma_lines_nonempty(w);
                    let jw = join(lines(w), nl);
                    lemma_join_first(u2, lines(w), nl);
                    assert(join(lines(s), nl) == u2 + nl + jw);
                    lemma_split_at_newline(u2, jw);
                    lemma_split_at_newline(nl + u2, jw);
                    assert(nl + (u2 + nl + jw) == (nl + u2) + nl + jw);
                }
            },
        }
    }
}

/// A text without `(` holds no `main(`; one without `{` holds no `{`.
proof fn lemma_no_paren_no_main(x: Seq<char>)
    requires
        forall|k: int| 0 <= k < x.len() ==> x[k] != '(' && x[k] != '{',
    ensures
        !has_main(x),
        !has_main_call(x),
        !has_brace(x),
{
    if has_main_call(x) {
        let i = choose|i: int| main_at(x, i);
        lemma_main_chars(x, i);
        assert(x[i + 4] == '(');
    }
    if has_main(x) {
        let i = choose|i: int| is_main_candidate(x, i);
        lemma_candidate_chars(x, i);
        assert(main_at(x, i));
    }
    if has_brace(x) {
        let j = choose|j: int| brace_at(x, j);
        assert(x[j] == '{');
    }
}

/// The driver import, alone or after a line feed, holds no `main` and no `{`.
proof fn lemma_import_has_no_main()
    ensures
        !has_main(DRIVER_IMPORT@),
        !has_main_call(DRIVER_IMPORT@),
        !has_brace(DRIVER_IMPORT@),
        !has_main(seq!['\n'] + DRIVER_IMPORT@),
        !has_main_call(seq!['\n'] + DRIVER_IMPORT@),
{
    reveal_strlit("import 'package:flutter_driver/driver_extension.dart';");
    let imp = DRIVER_IMPORT@;
    assert forall|k: int| 0 <= k < imp.len() implies imp[k] != '(' && imp[k] != '{' by {}
    lemma_no_paren_no_main(imp);
    let x = seq!['\n'] + imp;
    assert forall|k: int| 0 <= k < x.len() implies x[k] != '(' && x[k] != '{' by {
        if k > 0 {
            assert(x[k] == imp[k - 1]);
        }
    }
    lemma_no_paren_no_main(x);
}

/// Joining two non-empty runs of pieces.
proof fn lemma_join_concat(a: Seq<Seq<char>>, b: Seq<Seq<char>>, sep: Seq<char>)
    requires
        a.len() > 0,
        b.len() > 0,
    ensures
        join(a + b, sep) == join(a, sep) + sep + join(b, sep),
    decreases b.len(),
{
    let c = a + b;
    assert(c.drop_last() == a + b.drop_last());
    assert(c.last() == b.last());
    if b.len() == 1 {
        assert(a + b.drop_last() == a);
        assert(join(b, sep) == b[0]);
    } else {
        lemma_join_concat(a, b.drop_last(), sep);
    }
}

/// A leading line feed adds no `main` and hides none, since a line feed is no part of an
/// identifier.
proof fn lemma_leading_newline(s: Seq<char>)
    requires
        !is_alphanumeric('\n'),
    ensures
        has_main(seq!['\n'] + s) <==> has_main(s),
{
    let x = seq!['\n'] + s;
    assert forall|k: int| 0 <= k < s.len() implies #[trigger] x[k + 1] == s[k] by {}
    assert(x[0] == '\n');
    assert(last_utf8_byte('\n') == '\n');
    if has_main(x) {
        let i = choose|i: int| is_main_candidate(x, i);
        lemma_candidate_chars(x, i);
        lemma_main_chars(x, i);
        let j = choose|j: int| i <= j && #[trigger] brace_at(x, j);
        assert(i >= 1);
        let i2 = i - 1;
        assert(x[i2 + 1] == s[i2]);
        assert(x[(i2 + 1) + 1] == s[i2 + 1]);
        assert(x[(i2 + 2) + 1] == s[i2 + 2]);
        assert(x[(i2 + 3) + 1] == s[i2 + 3]);
        assert(x[(i2 + 4) + 1] == s[i2 + 4]);
        if i2 > 0 {
            assert(x[(i2 - 1) + 1] == s[i2 - 1]);
        }
        lemma_main_chars(s, i2);
        assert(main_at(s, i2));
        assert(x[(j - 1) + 1] == s[j - 1]);
        assert(brace_at(s, j - 1));
        lemma_candidate_chars(s, i2);
        assert(is_main_candidate(s, i2));
    }
    if has_main(s) {
        let i = choose|i: int| is_main_candidate(s, i);
        lemma_candidate_chars(s, i);
        lemma_main_chars(s, i);
        let j = choose|j: int| i <= j && #[trigger] brace_at(s, j);
        assert(x[i + 1] == s[i]);
        assert(x[(i + 1) + 1] == s[i + 1]);
        assert(x[(i + 2) + 1] == s[i + 2]);
        assert(x[(i + 3) + 1] == s[i + 3]);
        assert(x[(i + 4) + 1] == s[i + 4]);
        if i > 0 {
            assert(x[(i - 1) + 1] == s[i - 1]);
        }
        lemma_main_chars(x, i + 1);
        assert(main_at(x, i + 1));
        assert(x[j + 1] == s[j]);
        assert(brace_at(x, j + 1));
        lemma_candidate_chars(x, i + 1);
        assert(is_main_candidate(x, i + 1));
    }
}

/// Inserting the driver import neither adds nor hides a `main` function.
pub proof fn lemma_insert_import_keeps_main(source: Seq<char>)
    requires
        !is_alphanumeric('\n'),
    ensures
        has_main(spec_insert_import(source)) <==> has_main(source),
{
    let nl = seq!['\n'];
    let imp = DRIVER_IMPORT@;
    let a = spec_insert_import(source);
    lemma_import_has_no_main();
    lemma_newline_has_no_main();
    lemma_join_lines_keeps_main(source);
    let parts = lines(source);
    match last_import_index(parts) {
        Some(li) => {
            lemma_last_import_bounds(parts);
            let k = li + 1;
            let jp = join(parts, nl);
            if k < parts.len() {
                let pa = parts.take(k);
                let pb = parts.skip(k);
                assert(parts == pa + pb);
                assert(parts.insert(k, imp) == pa + (seq![imp] + pb));
                lemma_join_concat(pa, seq![imp] + pb, nl);
                lemma_join_first(imp, pb, nl);
                lemma_join_concat(pa, pb, nl);
                let ja = join(pa, nl);
                let jb = join(pb, nl);
                assert(a == ja + nl + (imp + nl + jb));
                assert(jp == ja + nl + jb);
                lemma_split_at_newline(ja, imp + nl + jb);
                lemma_split_at_newline(nl + imp, jb);
                assert(nl + (imp + nl + jb) == (nl + imp) + nl + jb);
                lemma_split_at_newline(imp, jb);
                lemma_split_at_newline(ja, jb);
                assert(has_main(nl + (imp + nl + jb)) <==> has_main(nl + jb));
                assert(has_brace(imp + nl + jb) <==> has_brace(jb));
                assert(has_main(a) <==> has_main(jp));
            } else {
                assert(parts.insert(k, imp) == parts.push(imp));
                lemma_join_push(parts, nl, imp);
                assert(a == jp + nl + imp);
                lemma_split_at_newline(jp, imp);
                assert(has_main(a) <==> has_main(jp));
            }
        },
        None => {
            reveal_strlit("\n\n");
            assert(a == imp + nl + (nl + source));
            lemma_split_at_newline(imp, nl + source);
            assert(nl + (nl + source) == nl + nl + source);
            lemma_split_at_newline(nl, source);
            lemma_leading_newline(source);
            assert(has_main(nl + (nl + source)) <==> has_main(nl + source));
            assert(has_main(a) <==> has_main(source));
        },
    }
}

/// Law of `inject`: it gives `None` exactly when the entrypoint does not call
/// `enableFlutterDriverExtension(` and holds no `main(` that starts an identifier and
/// has a `{` after it (the boundary is the last UTF-8 byte before `main(`, which is
/// neither alphanumeric nor `_`). It rests on the line feed not being alphanumeric,
/// which Unicode gives and the name of `char::is_alphanumeric` does not state.
pub proof fn law_inject_none_iff_no_main(source: Seq<char>)
    requires
        !is_alphanumeric('\n'),
    ensures
        spec_inject(source) is None <==> (!spec_already_enabled(source) && !exists|i: int| is_main_candidate(source, i)),
{
    law_inject_result(source);
    lemma_insert_import_keeps_main(source);
}

} // verus!
