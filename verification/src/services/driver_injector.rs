//! Text transformations that enable Flutter Driver in an app's entrypoint and declare
//! the `flutter_driver` dev dependency in `pubspec.yaml`.

use vstd::prelude::*;
use crate::text::{
    lemma_find_char, lemma_find_from_first, lemma_single_char_match, strip_cr,
    char_is_alphanumeric, contains, contains_str, ends_with, ends_with_str, extend_chars,
    extend_range, extend_str, find, find_from, find_from_exec, from_chars, is_alphanumeric,
    join, join_chars, lines, matches_at, split_lines, starts_with,
    starts_with_str, to_chars, trim_start, trim_start_chars, views,
};

verus! {

broadcast use vstd::string::group_string_axioms;

/// The import line that brings `enableFlutterDriverExtension` into scope.
pub const DRIVER_IMPORT: &'static str = "import 'package:flutter_driver/driver_extension.dart';";

/// The statement that enables the Flutter Driver extension.
pub const ENABLE_CALL: &'static str = "enableFlutterDriverExtension();";

/// The `pubspec.yaml` entry declaring `flutter_driver` as an SDK dependency.
pub const PUBSPEC_ENTRY: &'static str = "  flutter_driver:\n    sdk: flutter";

/// The source already calls `enableFlutterDriverExtension(`.
pub open spec fn spec_already_enabled(source: Seq<char>) -> bool {
    contains(source, "enableFlutterDriverExtension("@)
}

/// A line that is an `import` directive (after leading whitespace).
pub open spec fn is_import_line(line: Seq<char>) -> bool {
    starts_with(trim_start(line), "import "@)
}

/// Index of the last import line.
pub open spec fn last_import_index(ls: Seq<Seq<char>>) -> Option<int>
    decreases ls.len(),
{
    if ls.len() == 0 {
        None
    } else if is_import_line(ls.last()) {
        Some(ls.len() - 1)
    } else {
        last_import_index(ls.drop_last())
    }
}

/// The source with the driver import placed after its last import line, or, when it
/// has none, in front of it followed by a blank line.
pub open spec fn spec_insert_import(source: Seq<char>) -> Seq<char> {
    match last_import_index(lines(source)) {
        Some(i) => join(lines(source).insert(i + 1, DRIVER_IMPORT@), seq!['\n']),
        None => DRIVER_IMPORT@ + "\n\n"@ + source,
    }
}

/// The character whose code is the last UTF-8 byte of `c`.
pub open spec fn last_utf8_byte(c: char) -> char {
    if (c as u32) < 0x80 {
        c
    } else {
        (0x80 + (c as u32) % 64) as char
    }
}

/// A `main(` at `i` is not the tail of a longer identifier: the byte before it is
/// neither alphanumeric nor `_`.
pub open spec fn is_identifier_boundary(s: Seq<char>, i: int) -> bool {
    i == 0 || !(is_alphanumeric(last_utf8_byte(s[i - 1])) || last_utf8_byte(s[i - 1]) == '_')
}

/// `main(` starts at `i` at an identifier boundary and a `{` follows.
pub open spec fn is_main_candidate(s: Seq<char>, i: int) -> bool {
    &&& matches_at(s, "main("@, i)
    &&& is_identifier_boundary(s, i)
    &&& find_from(s, seq!['{'], i) is Some
}

pub open spec fn is_first_main_candidate(s: Seq<char>, i: int) -> bool {
    is_main_candidate(s, i) && forall|j: int| 0 <= j < i ==> !is_main_candidate(s, j)
}

/// Index of the `{` opening the body of the first recognizable `main` function.
pub open spec fn spec_main_brace(s: Seq<char>) -> Option<int> {
    if exists|i: int| is_main_candidate(s, i) {
        find_from(s, seq!['{'], choose|i: int| is_first_main_candidate(s, i))
    } else {
        None
    }
}

/// The source with the enable call inserted as the first statement of `main`.
pub open spec fn spec_insert_enable_call(s: Seq<char>) -> Option<Seq<char>> {
    match spec_main_brace(s) {
        Some(b) => Some(s.take(b + 1) + "\n  "@ + ENABLE_CALL@ + s.skip(b + 1)),
        None => None,
    }
}

/// The entrypoint with Flutter Driver enabled, or `None` when no `main` is found.
pub open spec fn spec_inject(source: Seq<char>) -> Option<Seq<char>> {
    if spec_already_enabled(source) {
        Some(source)
    } else {
        spec_insert_enable_call(spec_insert_import(source))
    }
}

/// Some line of the pubspec starts (after indentation) with `flutter_driver:`.
pub open spec fn spec_declares_flutter_driver(source: Seq<char>) -> bool {
    exists|i: int| 0 <= i < lines(source).len() && starts_with(trim_start(#[trigger] lines(source)[i]), "flutter_driver:"@)
}

/// The pubspec with `flutter_driver` declared as a dev dependency: the entry goes on the
/// line after the first `dev_dependencies:` header (a line break is added first when that
/// header ends the text), or in a new section at the end.
pub open spec fn spec_add_flutter_driver_dev_dependency(source: Seq<char>) -> Seq<char> {
    if spec_declares_flutter_driver(source) {
        source
    } else {
        match find(source, "dev_dependencies:"@) {
            Some(idx) => match find_from(source, seq!['\n'], idx) {
                Some(i) => source.take(i + 1) + PUBSPEC_ENTRY@ + seq!['\n'] + source.skip(i + 1),
                None => source.push('\n') + PUBSPEC_ENTRY@ + seq!['\n'],
            },
            None => {
                let base = if ends_with(source, seq!['\n']) {
                    source
                } else {
                    source.push('\n')
                };
                base + "\ndev_dependencies:\n"@ + PUBSPEC_ENTRY@ + seq!['\n']
            },
        }
    }
}

// ---------------------------------------------------------------------------
// Laws
// ---------------------------------------------------------------------------

/// Injecting Flutter Driver yields an entrypoint that has it enabled, and injecting
/// again leaves that entrypoint unchanged.
pub proof fn law_inject_enables_and_is_idempotent(source: Seq<char>)
    requires
        spec_inject(source) is Some,
    ensures
        spec_already_enabled(spec_inject(source)->0),
        spec_inject(spec_inject(source)->0) == spec_inject(source),
{
    if !spec_already_enabled(source) {
        let a = spec_insert_import(source);
        let b = spec_main_brace(a)->0;
        let t = a.take(b + 1) + "\n  "@ + ENABLE_CALL@ + a.skip(b + 1);
        reveal_strlit("\n  ");
        reveal_strlit("enableFlutterDriverExtension();");
        reveal_strlit("enableFlutterDriverExtension(");
        let i = b + 1 + 3;
        assert(a.take(b + 1).len() == b + 1) by {
            lemma_find_from_first(a, seq!['{'], choose|i: int| is_first_main_candidate(a, i));
        }
        assert(t.subrange(i, i + 29) == "enableFlutterDriverExtension("@);
        assert(matches_at(t, "enableFlutterDriverExtension("@, i));
    }
}

/// Some first `main` candidate exists as soon as any candidate does.
proof fn lemma_first_candidate_exists(s: Seq<char>, i: int)
    requires
        is_main_candidate(s, i),
    ensures
        exists|k: int| is_first_main_candidate(s, k),
    decreases i,
{
    if exists|j: int| 0 <= j < i && is_main_candidate(s, j) {
        let j = choose|j: int| 0 <= j < i && is_main_candidate(s, j);
        lemma_first_candidate_exists(s, j);
    } else {
        assert(is_first_main_candidate(s, i));
    }
}

/// A text that contains `n` still does when more text follows or precedes it.
proof fn lemma_contains_extend(x: Seq<char>, n: Seq<char>, pre: Seq<char>, post: Seq<char>)
    requires
        contains(x, n),
    ensures
        contains(pre + x + post, n),
{
    let i = choose|i: int| matches_at(x, n, i);
    let y = pre + x + post;
    assert(y.subrange(pre.len() + i, pre.len() + i + n.len()) == x.subrange(i, i + n.len()));
    assert(matches_at(y, n, pre.len() + i));
}

/// Every piece occurs in the pieces joined with a separator.
proof fn lemma_join_contains(parts: Seq<Seq<char>>, sep: Seq<char>, k: int)
    requires
        0 <= k < parts.len(),
    ensures
        contains(join(parts, sep), parts[k]),
    decreases parts.len(),
{
    let p = parts[k];
    if parts.len() == 1 {
        assert(join(parts, sep) == p);
        assert(p.subrange(0, p.len() as int) == p);
        assert(matches_at(p, p, 0));
    } else if k == parts.len() - 1 {
        let pre = join(parts.drop_last(), sep) + sep;
        assert(join(parts, sep) == pre + p);
        assert((pre + p).subrange(pre.len() as int, pre.len() + p.len() as int) == p);
        assert(matches_at(pre + p, p, pre.len() as int));
    } else {
        assert(parts.drop_last()[k] == p);
        lemma_join_contains(parts.drop_last(), sep, k);
        lemma_contains_extend(join(parts.drop_last(), sep), p, Seq::empty(), sep + parts.last());
        assert(Seq::<char>::empty() + join(parts.drop_last(), sep) + (sep + parts.last()) == join(parts, sep));
    }
}

/// What injection gives: nothing exactly when the source does not call the extension yet
/// and, once the import is in place, no `main(` at an identifier boundary is followed by
/// a `{`; otherwise an entrypoint that calls the extension and, when the source did not,
/// holds the driver import.
pub proof fn law_inject_result(source: Seq<char>)
    ensures
        spec_inject(source) is None <==> (!spec_already_enabled(source) && !exists|i: int|
            is_main_candidate(spec_insert_import(source), i)),
        spec_inject(source) matches Some(r) ==> spec_already_enabled(r) && (!spec_already_enabled(source)
            ==> contains(r, DRIVER_IMPORT@)),
{
    if spec_inject(source) is Some {
        law_inject_enables_and_is_idempotent(source);
    }
    if !spec_already_enabled(source) {
        let a = spec_insert_import(source);
        if exists|i: int| is_main_candidate(a, i) {
            let i = choose|i: int| is_main_candidate(a, i);
            lemma_first_candidate_exists(a, i);
            let k = choose|k: int| is_first_main_candidate(a, k);
            lemma_find_from_first(a, seq!['{'], k);
            let b = spec_main_brace(a)->0;
            assert(matches_at(a, seq!['{'], b));
            lemma_single_char_match(a, '{', b);
            // the import is in `a`
            reveal_strlit("import 'package:flutter_driver/driver_extension.dart';");
            reveal_strlit("\n\n");
            let imp = DRIVER_IMPORT@;
            match last_import_index(lines(source)) {
                Some(li) => {
                    lemma_last_import_bounds(lines(source));
                    let parts = lines(source).insert(li + 1, imp);
                    assert(parts[li + 1] == imp);
                    lemma_join_contains(parts, seq!['\n'], li + 1);
                },
                None => {
                    assert(a.subrange(0, imp.len() as int) == imp);
                    assert(matches_at(a, imp, 0));
                },
            }
            let i0 = choose|i0: int| matches_at(a, imp, i0);
            let call = "\n  "@ + ENABLE_CALL@;
            let r = a.take(b + 1) + call + a.skip(b + 1);
            assert(r == spec_inject(source)->0);
            if i0 + imp.len() <= b + 1 {
                assert(r.subrange(i0, i0 + imp.len()) == a.subrange(i0, i0 + imp.len()));
                assert(matches_at(r, imp, i0));
            } else if i0 <= b {
                assert(a.subrange(i0, i0 + imp.len())[b - i0] == a[b]);
                assert(imp[b - i0] != '{');
            } else {
                let j0 = i0 + call.len();
                assert(r.subrange(j0, j0 + imp.len()) == a.subrange(i0, i0 + imp.len()));
                assert(matches_at(r, imp, j0));
            }
        }
    }
}

/// The last import index, when any, is that of a line.
pub proof fn lemma_last_import_bounds(ls: Seq<Seq<char>>)
    ensures
        last_import_index(ls) matches Some(i) ==> 0 <= i < ls.len(),
    decreases ls.len(),
{
    if ls.len() > 0 && !is_import_line(ls.last()) {
        lemma_last_import_bounds(ls.drop_last());
    }
}

/// The lines of `p + q` are those of `p` followed by those of `q` when `p` is empty or
/// ends with a line terminator.
pub proof fn lemma_lines_concat(p: Seq<char>, q: Seq<char>)
    requires
        p.len() > 0 ==> p.last() == '\n',
    ensures
        lines(p + q) == lines(p) + lines(q),
    decreases p.len(),
{
    if p.len() == 0 {
        assert(p + q == q);
        assert(lines(p) + lines(q) == lines(q));
    } else {
        lemma_single_char_match(p, '\n', p.len() - 1);
        lemma_find_from_first(p, seq!['\n'], 0);
        let k = find(p, seq!['\n'])->0;
        lemma_single_char_match(p, '\n', k);
        let s = p + q;
        assert forall|j: int| 0 <= j < k implies s[j] != '\n' by {
            lemma_single_char_match(p, '\n', j);
        }
        lemma_find_char(s, '\n', k);
        assert(s.take(k) == p.take(k));
        assert(s.skip(k + 1) == p.skip(k + 1) + q);
        lemma_lines_concat(p.skip(k + 1), q);
        assert(lines(s) == seq![strip_cr(p.take(k))] + (lines(p.skip(k + 1)) + lines(q)));
        assert(lines(p) == seq![strip_cr(p.take(k))] + lines(p.skip(k + 1)));
    }
}

/// The pubspec entry starts a line that declares `flutter_driver`.
proof fn lemma_entry_line_declares(rest: Seq<char>)
    ensures
        lines(PUBSPEC_ENTRY@ + seq!['\n'] + rest).len() > 0,
        starts_with(trim_start(lines(PUBSPEC_ENTRY@ + seq!['\n'] + rest)[0]), "flutter_driver:"@),
{
    reveal_strlit("  flutter_driver:\n    sdk: flutter");
    reveal_strlit("flutter_driver:");
    let q = PUBSPEC_ENTRY@ + seq!['\n'] + rest;
    assert forall|j: int| 0 <= j < 17 implies q[j] != '\n' by {}
    lemma_find_char(q, '\n', 17);
    let l = q.take(17);
    assert(strip_cr(l) == l);
    assert(l.drop_first().drop_first() == q.subrange(2, 17));
    assert(trim_start(l) == trim_start(l.drop_first()));
    assert(trim_start(l.drop_first()) == trim_start(l.drop_first().drop_first()));
    assert(trim_start(q.subrange(2, 17)) == q.subrange(2, 17));
    assert(q.subrange(2, 17) == "flutter_driver:"@);
    assert(lines(q) == seq![strip_cr(q.take(17))] + lines(q.skip(18)));
    assert(lines(q)[0] == l);
    assert(trim_start(l) == "flutter_driver:"@);
    assert(trim_start(l).take(15) == trim_start(l));
}

/// Adding the dev dependency leaves a pubspec that declares `flutter_driver`, and adding
/// it again changes nothing.
pub proof fn law_add_dependency_declares_and_is_idempotent(source: Seq<char>)
    ensures
        spec_declares_flutter_driver(spec_add_flutter_driver_dev_dependency(source)),
        spec_add_flutter_driver_dev_dependency(spec_add_flutter_driver_dev_dependency(source))
            == spec_add_flutter_driver_dev_dependency(source),
{
    let r = spec_add_flutter_driver_dev_dependency(source);
    if !spec_declares_flutter_driver(source) {
        match find(source, "dev_dependencies:"@) {
            Some(idx) => match find_from(source, seq!['\n'], idx) {
                Some(i) => {
                    lemma_find_from_first(source, seq!['\n'], idx);
                    lemma_single_char_match(source, '\n', i);
                    let p = source.take(i + 1);
                    let q = PUBSPEC_ENTRY@ + seq!['\n'] + source.skip(i + 1);
                    assert(r == p + q);
                    lemma_lines_concat(p, q);
                    lemma_entry_line_declares(source.skip(i + 1));
                    assert(lines(r)[lines(p).len() as int] == lines(q)[0]);
                },
                None => {
                    let p = source.push('\n');
                    let q = PUBSPEC_ENTRY@ + seq!['\n'] + Seq::<char>::empty();
                    assert(r == p + q);
                    lemma_lines_concat(p, q);
                    lemma_entry_line_declares(Seq::<char>::empty());
                    assert(lines(r)[lines(p).len() as int] == lines(q)[0]);
                },
            },
            None => {
                reveal_strlit("\ndev_dependencies:\n");
                let base = if ends_with(source, seq!['\n']) {
                    source
                } else {
                    source.push('\n')
                };
                let p = base + "\ndev_dependencies:\n"@;
                let q = PUBSPEC_ENTRY@ + seq!['\n'] + Seq::<char>::empty();
                assert(r == p + q);
                lemma_lines_concat(p, q);
                lemma_entry_line_declares(Seq::<char>::empty());
                assert(lines(r)[lines(p).len() as int] == lines(q)[0]);
            },
        }
    }
}

/// A line feed added after a text that ends in neither a line feed nor a carriage return
/// starts no new line.
pub proof fn lemma_lines_push_newline(s: Seq<char>)
    requires
        s.len() > 0,
        s.last() != '\n',
        s.last() != '\r',
    ensures
        lines(s.push('\n')) == lines(s),
    decreases s.len(),
{
    let t = s.push('\n');
    lemma_find_from_first(s, seq!['\n'], 0);
    match find(s, seq!['\n']) {
        Some(k) => {
            lemma_single_char_match(s, '\n', k);
            assert forall|j: int| 0 <= j < k implies t[j] != '\n' by {
                lemma_single_char_match(s, '\n', j);
            }
            lemma_find_char(t, '\n', k);
            assert(k < s.len() - 1);
            assert(t.take(k) == s.take(k));
            assert(t.skip(k + 1) == s.skip(k + 1).push('\n'));
            assert(s.skip(k + 1).last() == s.last());
            lemma_lines_push_newline(s.skip(k + 1));
            assert(lines(s) == seq![strip_cr(s.take(k))] + lines(s.skip(k + 1)));
            assert(lines(t) == seq![strip_cr(t.take(k))] + lines(t.skip(k + 1)));
        },
        None => {
            assert forall|j: int| 0 <= j < s.len() implies t[j] != '\n' by {
                lemma_single_char_match(s, '\n', j);
            }
            lemma_find_char(t, '\n', s.len() as int);
            assert(t.take(s.len() as int) == s);
            assert(t.skip(s.len() as int + 1) == Seq::<char>::empty());
            assert(lines(s) == seq![s]);
            assert(lines(t) == seq![strip_cr(t.take(s.len() as int))] + lines(t.skip(s.len() as int + 1)));
        },
    }
}

/// Adding the dependency puts its line break after a final carriage return, which then
/// reads as part of a `"\r\n"` terminator.
pub open spec fn adds_after_final_cr(source: Seq<char>) -> bool {
    &&& !spec_declares_flutter_driver(source)
    &&& source.len() > 0
    &&& source.last() == '\r'
    &&& !(find(source, "dev_dependencies:"@) matches Some(idx) && find_from(source, seq!['\n'], idx) is Some)
}

/// The header case of `law_add_dependency_keeps_lines` when no line feed follows it.
proof fn lemma_keeps_lines_after_final_header(source: Seq<char>, idx: int)
    requires
        !adds_after_final_cr(source),
        !spec_declares_flutter_driver(source),
        find(source, "dev_dependencies:"@) == Some(idx),
        find_from(source, seq!['\n'], idx) is None,
    ensures
        exists|k: int, added: Seq<Seq<char>>|
            0 <= k <= lines(source).len() && lines(spec_add_flutter_driver_dev_dependency(source))
                == lines(source).take(k) + added + lines(source).skip(k),
{
    reveal_strlit("dev_dependencies:");
    reveal_strlit("  flutter_driver:\n    sdk: flutter");
    let ls = lines(source);
    let e = PUBSPEC_ENTRY@ + seq!['\n'];
    let r = spec_add_flutter_driver_dev_dependency(source);
    lemma_find_from_first(source, "dev_dependencies:"@, 0);
    lemma_find_from_first(source, seq!['\n'], idx);
    assert(source.len() >= 17);
    let b = source.push('\n');
    assert(r == b + e);
    lemma_lines_concat(b, e);
    lemma_single_char_match(source, '\n', source.len() - 1);
    assert(source.last() != '\n');
    assert(source.last() != '\r');
    lemma_lines_push_newline(source);
    let k = ls.len() as int;
    assert(ls.take(k) == ls);
    assert(ls.skip(k) == Seq::<Seq<char>>::empty());
    assert(lines(r) == ls.take(k) + lines(e) + ls.skip(k));
}

/// Adding the dev dependency removes and alters no line of the pubspec: the new lines
/// are inserted at one place among the existing ones. The one exception is a pubspec
/// whose last line ends in a carriage return and gets a line feed after it.
pub proof fn law_add_dependency_keeps_lines(source: Seq<char>)
    requires
        !adds_after_final_cr(source),
    ensures
        exists|k: int, added: Seq<Seq<char>>|
            0 <= k <= lines(source).len() && lines(spec_add_flutter_driver_dev_dependency(source))
                == lines(source).take(k) + added + lines(source).skip(k),
{
    let r = spec_add_flutter_driver_dev_dependency(source);
    let ls = lines(source);
    if spec_declares_flutter_driver(source) {
        assert(lines(r) == ls.take(0) + Seq::<Seq<char>>::empty() + ls.skip(0));
    } else {
        reveal_strlit("  flutter_driver:\n    sdk: flutter");
        let e = PUBSPEC_ENTRY@ + seq!['\n'];
        match find(source, "dev_dependencies:"@) {
            Some(idx) => match find_from(source, seq!['\n'], idx) {
                Some(i) => {
                    lemma_find_from_first(source, seq!['\n'], idx);
                    lemma_single_char_match(source, '\n', i);
                    let p = source.take(i + 1);
                    let rest = source.skip(i + 1);
                    assert(source == p + rest);
                    assert(r == p + (e + rest));
                    lemma_lines_concat(p, e + rest);
                    lemma_lines_concat(e, rest);
                    lemma_lines_concat(p, rest);
                    let k = lines(p).len() as int;
                    assert(ls.take(k) == lines(p));
                    assert(ls.skip(k) == lines(rest));
                    assert(lines(r) == ls.take(k) + lines(e) + ls.skip(k));
                },
                None => {
                    lemma_keeps_lines_after_final_header(source, idx);
                },
            },
            None => {
                reveal_strlit("\ndev_dependencies:\n");
                let x = "\ndev_dependencies:\n"@ + e;
                let base = if ends_with(source, seq!['\n']) {
                    source
                } else {
                    source.push('\n')
                };
                assert(r == base + x);
                let k = ls.len() as int;
                assert(ls.take(k) == ls);
                assert(ls.skip(k) == Seq::<Seq<char>>::empty());
                if ends_with(source, seq!['\n']) {
                    assert(source.last() == source.skip(source.len() - 1)[0]);
                    lemma_lines_concat(source, x);
                    assert(lines(r) == ls.take(k) + lines(x) + ls.skip(k));
                } else if source.len() == 0 {
                    lemma_lines_concat(base, x);
                    assert(lines(r) == ls.take(k) + (lines(base) + lines(x)) + ls.skip(k));
                } else {
                    if source.last() == '\n' {
                        assert(source.skip(source.len() - 1) == seq!['\n']);
                    }
                    lemma_lines_concat(base, x);
                    lemma_lines_push_newline(source);
                    assert(lines(r) == ls.take(k) + lines(x) + ls.skip(k));
                }
            },
        }
    }
}

/// Enables Flutter Driver in an app entrypoint launched with its normal `main.dart`.
pub struct DriverInjector;

impl DriverInjector {
    /// True when the entrypoint already calls `enableFlutterDriverExtension(`.
    pub fn already_enabled(source: &str) -> (r: bool)
        ensures
            r == spec_already_enabled(source@),
    {
        let v = to_chars(source);
        contains_str(&v, "enableFlutterDriverExtension(")
    }

    /// Adds the driver import and a call to `enableFlutterDriverExtension()` as the first
    /// statement of `main()`; `None` when no recognizable `main` function exists.
    pub fn inject(source: &str) -> (r: Option<String>)
        ensures
            match r {
                Some(t) => spec_inject(source@) == Some(t@),
                None => spec_inject(source@) is None,
            },
    {
        if Self::already_enabled(source) {
            return Some(String::from_str(source));
        }
        let v = to_chars(source);
        let with_import = Self::insert_import(&v);
        match Self::insert_enable_call(&with_import) {
            Some(out) => Some(from_chars(&out)),
            None => None,
        }
    }

    fn insert_import(source: &Vec<char>) -> (r: Vec<char>)
        ensures
            r@ == spec_insert_import(source@),
    {
        let mut ls = split_lines(source);
        let mut last: Option<usize> = None;
        let mut i: usize = 0;
        while i < ls.len()
            invariant
                i <= ls.len(),
                views(ls@) == lines(source@),
                match last {
                    Some(k) => k < i && last_import_index(views(ls@).take(i as int)) == Some(
                        k as int,
                    ),
                    None => last_import_index(views(ls@).take(i as int)) is None,
                },
            decreases ls.len() - i,
        {
            let trimmed = trim_start_chars(&ls[i]);
            let is_import = starts_with_str(&trimmed, "import ");
            proof {
                let t = views(ls@).take(i + 1);
                assert(t.drop_last() == views(ls@).take(i as int));
                assert(t.last() == ls@[i as int]@);
            }
            if is_import {
                last = Some(i);
            }
            i = i + 1;
        }
        assert(views(ls@).take(ls.len() as int) == views(ls@));
        match last {
            Some(k) => {
                let imp = to_chars(DRIVER_IMPORT);
                let ghost before = ls@;
                ls.insert(k + 1, imp);
                assert(views(ls@) == views(before).insert(k + 1, DRIVER_IMPORT@));
                let sep: Vec<char> = vec!['\n'];
                assert(sep@ == seq!['\n']);
                join_chars(&ls, &sep)
            },
            None => {
                let mut out = to_chars(DRIVER_IMPORT);
                extend_str(&mut out, "\n\n");
                extend_chars(&mut out, source);
                out
            },
        }
    }

    fn insert_enable_call(source: &Vec<char>) -> (r: Option<Vec<char>>)
        ensures
            match r {
                Some(t) => spec_insert_enable_call(source@) == Some(t@),
                None => spec_insert_enable_call(source@) is None,
            },
    {
        match Self::find_main_brace_index(source) {
            None => None,
            Some(b) => {
                let mut out: Vec<char> = Vec::new();
                extend_range(&mut out, source, 0, b + 1);
                extend_str(&mut out, "\n  ");
                extend_str(&mut out, ENABLE_CALL);
                extend_range(&mut out, source, b + 1, source.len());
                assert(source@.take(b + 1) == source@.subrange(0, b + 1));
                assert(source@.skip(b + 1) == source@.subrange(b + 1, source@.len() as int));
                Some(out)
            },
        }
    }

    /// Whether the `main(` found at `i` stands at an identifier boundary.
    fn boundary_at(source: &Vec<char>, i: usize) -> (r: bool)
        requires
            i <= source.len(),
        ensures
            r == is_identifier_boundary(source@, i as int),
    {
        if i == 0 {
            return true;
        }
        let prev = source[i - 1];
        let code: u32 = prev as u32;
        let last: char = if code < 0x80 {
            prev
        } else {
            let b: u8 = (0x80 + code % 64) as u8;
            b as char
        };
        assert(last == last_utf8_byte(source@[i - 1]));
        !(char_is_alphanumeric(last) || last == '_')
    }

    fn find_main_brace_index(source: &Vec<char>) -> (r: Option<usize>)
        ensures
            match r {
                Some(b) => b < source.len() && spec_main_brace(source@) == Some(b as int),
                None => spec_main_brace(source@) is None,
            },
    {
        let pat = to_chars("main(");
        let brace: Vec<char> = vec!['{'];
        assert(brace@ == seq!['{']);
        proof {
            reveal_strlit("main(");
        }
        let mut search_from: usize = 0;
        while search_from <= source.len()
            invariant
                pat@ == "main("@,
                brace@ == seq!['{'],
                forall|j: int| 0 <= j < search_from ==> !is_main_candidate(source@, j),
            decreases source.len() + 1 - search_from,
        {
            match find_from_exec(source, &pat, search_from) {
                None => {
                    return None;
                },
                Some(idx) => {
                    let boundary = Self::boundary_at(source, idx);
                    if boundary {
                        match find_from_exec(source, &brace, idx) {
                            Some(b) => {
                                proof {
                                    assert(matches_at(source@, brace@, b as int));
                                    assert(is_first_main_candidate(source@, idx as int)) by {
                                        assert forall|j: int| 0 <= j < idx implies !is_main_candidate(source@, j) by {
                                            if j >= search_from {
                                                assert(!matches_at(source@, pat@, j));
                                            }
                                        }
                                    }
                                    let c = choose|i: int| is_first_main_candidate(source@, i);
                                    assert(c == idx);
                                }
                                return Some(b);
                            },
                            None => {},
                        }
                    }
                    proof {
                        reveal_strlit("main(");
                        assert forall|j: int| 0 <= j < idx + 5 implies !is_main_candidate(source@, j) by {
                            if j >= search_from && j < idx {
                                assert(!matches_at(source@, pat@, j));
                            } else if idx < j < idx + 5 {
                                assert(source@.subrange(idx as int, idx + 5)[j - idx] == pat@[j - idx]);
                                if matches_at(source@, pat@, j) {
                                    assert(source@.subrange(j, j + 5)[0] == pat@[0]);
                                }
                            }
                        }
                    }
                    search_from = idx + 5;
                },
            }
        }
        assert forall|j: int| !is_main_candidate(source@, j) by {
            if j >= search_from {
                assert(!matches_at(source@, "main("@, j));
            }
        }
        None
    }
}

/// Minimal line-based editing of `pubspec.yaml`.
pub struct PubspecEditor;

impl PubspecEditor {
    /// True when some line declares `flutter_driver:` (under any dependency section).
    pub fn declares_flutter_driver(source: &str) -> (r: bool)
        ensures
            r == spec_declares_flutter_driver(source@),
    {
        let v = to_chars(source);
        let ls = split_lines(&v);
        let mut i: usize = 0;
        while i < ls.len()
            invariant
                i <= ls.len(),
                views(ls@) == lines(source@),
                forall|j: int| 0 <= j < i ==> !starts_with(trim_start(#[trigger] lines(source@)[j]), "flutter_driver:"@),
            decreases ls.len() - i,
        {
            let trimmed = trim_start_chars(&ls[i]);
            assert(ls@[i as int]@ == lines(source@)[i as int]);
            if starts_with_str(&trimmed, "flutter_driver:") {
                return true;
            }
            i = i + 1;
        }
        false
    }

    /// Adds `flutter_driver` (`sdk: flutter`) as a dev dependency unless it is already
    /// declared: right under an existing `dev_dependencies:` line (breaking the line first
    /// when that header ends the file), or in a new section at the end of the file.
    pub fn add_flutter_driver_dev_dependency(source: &str) -> (r: String)
        ensures
            r@ == spec_add_flutter_driver_dev_dependency(source@),
    {
        if Self::declares_flutter_driver(source) {
            return String::from_str(source);
        }
        let v = to_chars(source);
        let section = to_chars("dev_dependencies:");
        let nl: Vec<char> = vec!['\n'];
        assert(nl@ == seq!['\n']);
        let mut out: Vec<char> = Vec::new();
        match find_from_exec(&v, &section, 0) {
            Some(idx) => {
                match find_from_exec(&v, &nl, idx) {
                    Some(i) => {
                        assert(i < v.len()) by {
                            assert(matches_at(v@, nl@, i as int));
                        }
                        let line_end = i + 1;
                        extend_range(&mut out, &v, 0, line_end);
                        extend_str(&mut out, PUBSPEC_ENTRY);
                        out.push('\n');
                        extend_range(&mut out, &v, line_end, v.len());
                        assert(v@.take(line_end as int) == v@.subrange(0, line_end as int));
                        assert(v@.skip(line_end as int) == v@.subrange(line_end as int, v@.len() as int));
                    },
                    None => {
                        extend_chars(&mut out, &v);
                        out.push('\n');
                        extend_str(&mut out, PUBSPEC_ENTRY);
                        out.push('\n');
                    },
                }
            },
            None => {
                proof {
                    reveal_strlit("\n");
                    assert("\n"@ == seq!['\n']);
                }
                extend_chars(&mut out, &v);
                if !ends_with_str(&v, "\n") {
                    out.push('\n');
                }
                assert(out@ == (if ends_with(source@, seq!['\n']) { source@ } else { source@.push('\n') }));
                extend_str(&mut out, "\ndev_dependencies:\n");
                extend_str(&mut out, PUBSPEC_ENTRY);
                out.push('\n');
            },
        }
        from_chars(&out)
    }
}

} // verus!
