//! Resolution of a finder against an already fetched widget tree: a quick pre-check
//! before a Flutter Driver command that would otherwise wait for its whole timeout.

use vstd::prelude::*;
use crate::entities::{
    WidgetNode, WidgetNodeView, lemma_nodes_view_index, lemma_nodes_view_len, node_view,
    nodes_view,
};
use crate::finder::Finder;
use crate::text::{
    contains, contains_exec, from_chars, lowercase, to_chars, to_lowercase, trim, trim_char,
    trim_char_chars, trim_chars,
};

verus! {

broadcast use vstd::string::group_string_axioms;

/// At most this many similar candidates are suggested when a finder matches nothing.
pub const MAX_CANDIDATES: usize = 5;

/// Outcome of resolving a finder against a widget tree.
#[derive(Debug, PartialEq)]
pub enum ResolveOutcome {
    /// Some node matches the finder.
    Matched,
    /// No node matches; up to `MAX_CANDIDATES` nodes with similar texts.
    NotFound { candidates: Vec<WidgetNode> },
}

/// A value without surrounding whitespace and double quotes.
pub open spec fn spec_normalize(s: Seq<char>) -> Seq<char> {
    trim(trim_char(trim(s), '\u{22}'))
}

/// The node value is present and equal to the needle once both are normalized.
pub open spec fn spec_matches_normalized(v: Option<Seq<char>>, needle: Seq<char>) -> bool {
    match v {
        Some(x) => spec_normalize(x) == spec_normalize(needle),
        None => false,
    }
}

/// The node itself matches a text, tooltip or semantics finder.
pub open spec fn spec_node_matches(n: WidgetNodeView, f: Finder) -> bool {
    match f {
        Finder::Text { text, .. } => spec_matches_normalized(n.text, text@),
        Finder::Tooltip(t) => spec_matches_normalized(n.tooltip, t@),
        Finder::SemanticsLabel(l) => spec_matches_normalized(n.semantics_label, l@),
        _ => false,
    }
}

/// Some node of the tree matches the finder.
pub open spec fn spec_any_match(n: WidgetNodeView, f: Finder) -> bool
    decreases n,
{
    spec_node_matches(n, f) || spec_any_match_all(n.children, f)
}

/// Some node of one of the trees matches the finder.
pub open spec fn spec_any_match_all(s: Seq<WidgetNodeView>, f: Finder) -> bool
    decreases s,
{
    s.len() > 0 && (spec_any_match_all(s.drop_last(), f) || spec_any_match(s.last(), f))
}

/// The string a finder searches for; empty for the exact finders.
pub open spec fn finder_value(f: Finder) -> Seq<char> {
    match f {
        Finder::Text { text, .. } => text@,
        Finder::Tooltip(t) => t@,
        Finder::SemanticsLabel(l) => l@,
        _ => Seq::empty(),
    }
}

/// A non-empty normalized, lowercased field that contains or is contained in `needle`.
pub open spec fn is_similar_field(field: Option<Seq<char>>, needle: Seq<char>) -> bool {
    match field {
        Some(x) => {
            let h = lowercase(spec_normalize(x));
            h.len() > 0 && (contains(h, needle) || contains(needle, h))
        },
        None => false,
    }
}

/// A node whose text, tooltip or semantics label resembles what the finder looks for.
pub open spec fn spec_is_similar(n: WidgetNodeView, f: Finder) -> bool {
    let needle = lowercase(spec_normalize(finder_value(f)));
    needle.len() > 0 && (is_similar_field(n.text, needle) || is_similar_field(n.tooltip, needle)
        || is_similar_field(n.semantics_label, needle))
}

/// The similar nodes of a tree, in pre-order.
pub open spec fn spec_similar_nodes(n: WidgetNodeView, f: Finder) -> Seq<WidgetNodeView>
    decreases n,
{
    (if spec_is_similar(n, f) { seq![n] } else { Seq::empty() }) + spec_similar_nodes_all(n.children, f)
}

/// The similar nodes of a sequence of trees, in pre-order.
pub open spec fn spec_similar_nodes_all(s: Seq<WidgetNodeView>, f: Finder) -> Seq<WidgetNodeView>
    decreases s,
{
    if s.len() == 0 {
        Seq::empty()
    } else {
        spec_similar_nodes_all(s.drop_last(), f) + spec_similar_nodes(s.last(), f)
    }
}

/// The first `MAX_CANDIDATES` elements.
pub open spec fn cap(s: Seq<WidgetNodeView>) -> Seq<WidgetNodeView> {
    if s.len() <= MAX_CANDIDATES {
        s
    } else {
        s.take(MAX_CANDIDATES as int)
    }
}

pub proof fn lemma_cap_append(a: Seq<WidgetNodeView>, b: Seq<WidgetNodeView>)
    ensures
        cap(cap(a) + b) == cap(a + b),
{
    if a.len() > MAX_CANDIDATES {
        assert((cap(a) + b).take(MAX_CANDIDATES as int) == a.take(MAX_CANDIDATES as int));
        assert((a + b).take(MAX_CANDIDATES as int) == a.take(MAX_CANDIDATES as int));
    }
}

/// Resolves finders against a pruned widget tree.
pub struct FinderResolver;

impl FinderResolver {
    /// The "slow" finders (text, tooltip, semantics): they depend on matching a string
    /// of the tree and make Flutter Driver wait for its whole timeout when nothing matches.
    pub fn is_slow_finder(finder: &Finder) -> (r: bool)
        ensures
            r == (finder is Text || finder is Tooltip || finder is SemanticsLabel),
    {
        match finder {
            Finder::Text { .. } | Finder::Tooltip(_) | Finder::SemanticsLabel(_) => true,
            _ => false,
        }
    }

    /// `Matched` when some node of the tree matches the finder (exact comparison after
    /// normalizing quotes and spaces); otherwise the first similar nodes, in pre-order.
    pub fn quick_resolve(root: &WidgetNode, finder: &Finder) -> (r: ResolveOutcome)
        ensures
            match r {
                ResolveOutcome::Matched => spec_any_match(root@, *finder),
                ResolveOutcome::NotFound { candidates } => !spec_any_match(root@, *finder)
                    && nodes_view(candidates@) == cap(spec_similar_nodes(root@, *finder)),
            },
            !(finder is Text || finder is Tooltip || finder is SemanticsLabel) ==> (r matches ResolveOutcome::NotFound { candidates } && candidates@.len() == 0),
    {
        proof {
            if !(finder is Text || finder is Tooltip || finder is SemanticsLabel) {
                lemma_no_match(root@, *finder);
            }
        }
        if Self::any_match(root, finder) {
            return ResolveOutcome::Matched;
        }
        let needle = Self::needle(finder);
        let mut candidates: Vec<WidgetNode> = Vec::new();
        proof {
            lemma_nodes_view_len(candidates@);
            assert(nodes_view(candidates@) + spec_similar_nodes(root@, *finder) == spec_similar_nodes(root@, *finder));
        }
        Self::collect_candidates(root, finder, &needle, &mut candidates);
        proof {
            lemma_nodes_view_len(candidates@);
            if !(finder is Text || finder is Tooltip || finder is SemanticsLabel) {
                lemma_no_similar_nodes(root@, *finder);
            }
        }
        let ghost before = candidates@;
        candidates.truncate(MAX_CANDIDATES);
        assert(candidates@ == before) by {
            if MAX_CANDIDATES <= before.len() {
                assert(before.subrange(0, MAX_CANDIDATES as int) == before);
            }
        }
        ResolveOutcome::NotFound { candidates }
    }

    /// The normalized, lowercased value that the finder looks for.
    fn needle(finder: &Finder) -> (r: Vec<char>)
        ensures
            r@ == lowercase(spec_normalize(finder_value(*finder))),
            !(finder is Text || finder is Tooltip || finder is SemanticsLabel) ==> r@.len() == 0,
    {
        let value = Self::finder_value(finder);
        let normalized = normalize(value);
        proof {
            if !(finder is Text || finder is Tooltip || finder is SemanticsLabel) {
                assert(normalized@.len() == 0) by {
                    lemma_normalize_empty();
                }
            }
        }
        let lower = to_lowercase(normalized.as_str());
        to_chars(lower.as_str())
    }

    fn any_match(node: &WidgetNode, finder: &Finder) -> (r: bool)
        ensures
            r == spec_any_match(node@, *finder),
        decreases node,
    {
        if Self::node_matches(node, finder) {
            return true;
        }
        let ghost cv = node@.children;
        proof {
            lemma_nodes_view_len(node.children@);
        }
        let mut i: usize = 0;
        while i < node.children.len()
            invariant
                i <= node.children.len(),
                cv == nodes_view(node.children@),
                cv.len() == node.children.len(),
                !spec_any_match_all(cv.take(i as int), *finder),
            decreases node.children.len() - i,
        {
            proof {
                lemma_nodes_view_index(node.children@, i as int);
                let t = cv.take(i + 1);
                assert(t.drop_last() == cv.take(i as int));
                assert(t.last() == node_view(node.children@[i as int]));
            }
            if Self::any_match(&node.children[i], finder) {
                proof {
                    lemma_any_match_all_extend(cv, *finder, i + 1);
                }
                return true;
            }
            i = i + 1;
        }
        assert(cv.take(cv.len() as int) == cv);
        false
    }

    fn node_matches(node: &WidgetNode, finder: &Finder) -> (r: bool)
        ensures
            r == spec_node_matches(node@, *finder),
    {
        match finder {
            Finder::Text { text, .. } => matches_normalized(opt_as_str(&node.text), text.as_str()),
            Finder::Tooltip(tip) => matches_normalized(opt_as_str(&node.tooltip), tip.as_str()),
            Finder::SemanticsLabel(label) => matches_normalized(opt_as_str(&node.semantics_label), label.as_str()),
            _ => false,
        }
    }

    fn collect_candidates(node: &WidgetNode, finder: &Finder, needle: &Vec<char>, out: &mut Vec<WidgetNode>)
        requires
            old(out)@.len() <= MAX_CANDIDATES,
            needle@ == lowercase(spec_normalize(finder_value(*finder))),
        ensures
            nodes_view(final(out)@) == cap(nodes_view(old(out)@) + spec_similar_nodes(node@, *finder)),
            final(out)@.len() <= MAX_CANDIDATES,
        decreases node,
    {
        proof {
            lemma_nodes_view_len(out@);
        }
        if out.len() >= MAX_CANDIDATES {
            proof {
                let a = nodes_view(out@);
                assert((a + spec_similar_nodes(node@, *finder)).take(MAX_CANDIDATES as int) == a);
            }
            return;
        }
        let ghost start = nodes_view(out@);
        let ghost own: Seq<WidgetNodeView> = if spec_is_similar(node@, *finder) { seq![node@] } else { Seq::empty() };
        if Self::is_similar(node, finder, needle) {
            let c = node.deep_clone();
            let ghost before = out@;
            out.push(c);
            assert(out@.drop_last() == before);
        }
        assert(nodes_view(out@) == start + own);
        let ghost cv = node@.children;
        proof {
            lemma_nodes_view_len(node.children@);
            lemma_nodes_view_len(out@);
            assert(cap(nodes_view(out@)) == nodes_view(out@));
            assert(cv.take(0) == Seq::<WidgetNodeView>::empty());
            assert(start + own + spec_similar_nodes_all(cv.take(0), *finder) == start + own);
        }
        let mut i: usize = 0;
        while i < node.children.len()
            invariant
                i <= node.children.len(),
                cv == nodes_view(node.children@),
                cv.len() == node.children.len(),
                out@.len() <= MAX_CANDIDATES,
                needle@ == lowercase(spec_normalize(finder_value(*finder))),
                nodes_view(out@) == cap(start + own + spec_similar_nodes_all(cv.take(i as int), *finder)),
            decreases node.children.len() - i,
        {
            proof {
                lemma_nodes_view_index(node.children@, i as int);
            }
            let ghost prev = nodes_view(out@);
            Self::collect_candidates(&node.children[i], finder, needle, out);
            proof {
                let t = cv.take(i + 1);
                assert(t.drop_last() == cv.take(i as int));
                assert(t.last() == node_view(node.children@[i as int]));
                let x = start + own + spec_similar_nodes_all(cv.take(i as int), *finder);
                let y = spec_similar_nodes(cv[i as int], *finder);
                lemma_cap_append(x, y);
                assert(x + y == start + own + spec_similar_nodes_all(t, *finder));
            }
            i = i + 1;
        }
        proof {
            assert(cv.take(cv.len() as int) == cv);
            assert(start + own + spec_similar_nodes_all(cv, *finder) == start + spec_similar_nodes(node@, *finder));
        }
    }

    fn is_similar(node: &WidgetNode, finder: &Finder, needle: &Vec<char>) -> (r: bool)
        requires
            needle@ == lowercase(spec_normalize(finder_value(*finder))),
        ensures
            r == spec_is_similar(node@, *finder),
    {
        if needle.len() == 0 {
            return false;
        }
        similar_field(&node.text, needle) || similar_field(&node.tooltip, needle) || similar_field(
            &node.semantics_label,
            needle,
        )
    }

    fn finder_value(finder: &Finder) -> (r: &str)
        ensures
            r@ == finder_value(*finder),
    {
        match finder {
            Finder::Text { text, .. } => text.as_str(),
            Finder::Tooltip(t) => t.as_str(),
            Finder::SemanticsLabel(l) => l.as_str(),
            _ => {
                proof {
                    reveal_strlit("");
                }
                ""
            },
        }
    }
}

/// A match among the first trees is a match among all of them.
pub proof fn lemma_any_match_all_extend(s: Seq<WidgetNodeView>, f: Finder, k: int)
    requires
        0 <= k <= s.len(),
        spec_any_match_all(s.take(k), f),
    ensures
        spec_any_match_all(s, f),
    decreases s.len() - k,
{
    if k == s.len() {
        assert(s.take(k) == s);
    } else {
        assert(s.take(k + 1).drop_last() == s.take(k));
        lemma_any_match_all_extend(s, f, k + 1);
    }
}

fn opt_as_str(o: &Option<String>) -> (r: Option<&str>)
    ensures
        match r {
            Some(s) => crate::entities::opt_view(*o) == Some(s@),
            None => o is None,
        },
{
    match o {
        Some(s) => Some(s.as_str()),
        None => None,
    }
}

fn similar_field(field: &Option<String>, needle: &Vec<char>) -> (r: bool)
    ensures
        r == is_similar_field(crate::entities::opt_view(*field), needle@),
{
    match field {
        Some(x) => {
            let n = normalize(x.as_str());
            let lower = to_lowercase(n.as_str());
            let h = to_chars(lower.as_str());
            h.len() > 0 && (contains_exec(&h, needle) || contains_exec(needle, &h))
        },
        None => false,
    }
}

/// Trims surrounding whitespace and double quotes, as the pruner sometimes keeps the
/// literal quotes of a raw description.
pub fn normalize(s: &str) -> (r: String)
    ensures
        r@ == spec_normalize(s@),
{
    let v = to_chars(s);
    let a = trim_chars(&v);
    let b = trim_char_chars(&a, '\u{22}');
    let c = trim_chars(&b);
    from_chars(&c)
}

/// The node value is present and equal to the needle once both are normalized.
pub fn matches_normalized(node_value: Option<&str>, needle: &str) -> (r: bool)
    ensures
        r == match node_value {
            Some(v) => spec_normalize(v@) == spec_normalize(needle@),
            None => false,
        },
{
    match node_value {
        Some(v) => {
            let a = normalize(v);
            let b = normalize(needle);
            crate::text::str_eq(a.as_str(), b.as_str())
        },
        None => false,
    }
}

/// The empty string is left empty by normalizing.
pub proof fn lemma_normalize_empty()
    ensures
        spec_normalize(Seq::<char>::empty()).len() == 0,
{
    let e = Seq::<char>::empty();
    assert(crate::text::trim_start(e) == e);
    assert(crate::text::trim_end(e) == e);
    assert(trim(e) == e);
    assert(crate::text::trim_start_char(e, '\u{22}') == e);
    assert(crate::text::trim_end_char(e, '\u{22}') == e);
    assert(trim_char(e, '\u{22}') == e);
}

/// The nodes of a tree in pre-order: the root, then each child's nodes in turn.
pub open spec fn preorder(n: WidgetNodeView) -> Seq<WidgetNodeView>
    decreases n,
{
    seq![n] + preorder_all(n.children)
}

/// The nodes of a sequence of trees in pre-order.
pub open spec fn preorder_all(s: Seq<WidgetNodeView>) -> Seq<WidgetNodeView>
    decreases s,
{
    if s.len() == 0 {
        Seq::empty()
    } else {
        preorder_all(s.drop_last()) + preorder(s.last())
    }
}

/// Holds of a node that resembles what the finder looks for.
pub open spec fn similar_to(f: Finder) -> spec_fn(WidgetNodeView) -> bool {
    |x: WidgetNodeView| spec_is_similar(x, f)
}

/// Some node of the list matches the finder by itself.
pub open spec fn some_node_matches(s: Seq<WidgetNodeView>, f: Finder) -> bool {
    exists|i: int| 0 <= i < s.len() && spec_node_matches(#[trigger] s[i], f)
}

proof fn lemma_some_node_matches_concat(a: Seq<WidgetNodeView>, b: Seq<WidgetNodeView>, f: Finder)
    ensures
        some_node_matches(a + b, f) <==> some_node_matches(a, f) || some_node_matches(b, f),
{
    let c = a + b;
    if some_node_matches(c, f) {
        let i = choose|i: int| 0 <= i < c.len() && spec_node_matches(#[trigger] c[i], f);
        if i < a.len() {
            assert(c[i] == a[i]);
        } else {
            assert(c[i] == b[i - a.len()]);
        }
    }
    if some_node_matches(a, f) {
        let i = choose|i: int| 0 <= i < a.len() && spec_node_matches(#[trigger] a[i], f);
        assert(c[i] == a[i]);
    }
    if some_node_matches(b, f) {
        let i = choose|i: int| 0 <= i < b.len() && spec_node_matches(#[trigger] b[i], f);
        assert(c[a.len() + i] == b[i]);
    }
}

proof fn lemma_filter_single(n: WidgetNodeView, p: spec_fn(WidgetNodeView) -> bool)
    ensures
        seq![n].filter(p) == (if p(n) { seq![n] } else { Seq::<WidgetNodeView>::empty() }),
{
    reveal_with_fuel(Seq::filter, 2);
    assert(seq![n].drop_last() == Seq::<WidgetNodeView>::empty());
}

/// A tree's matches and similar nodes, read off its pre-order node list.
pub proof fn lemma_preorder_resolution(n: WidgetNodeView, f: Finder)
    ensures
        spec_any_match(n, f) <==> some_node_matches(preorder(n), f),
        spec_similar_nodes(n, f) == preorder(n).filter(similar_to(f)),
    decreases n,
{
    lemma_preorder_resolution_all(n.children, f);
    lemma_some_node_matches_concat(seq![n], preorder_all(n.children), f);
    if spec_node_matches(n, f) {
        assert(seq![n][0] == n);
    }
    if some_node_matches(seq![n], f) {
        let i = choose|i: int| 0 <= i < 1 && spec_node_matches(#[trigger] seq![n][i], f);
        assert(seq![n][i] == n);
    }
    Seq::filter_distributes_over_add(seq![n], preorder_all(n.children), similar_to(f));
    lemma_filter_single(n, similar_to(f));
}

/// The sequence form of `lemma_preorder_resolution`.
pub proof fn lemma_preorder_resolution_all(s: Seq<WidgetNodeView>, f: Finder)
    ensures
        spec_any_match_all(s, f) <==> some_node_matches(preorder_all(s), f),
        spec_similar_nodes_all(s, f) == preorder_all(s).filter(similar_to(f)),
    decreases s,
{
    if s.len() == 0 {
        reveal(Seq::filter);
    } else {
        lemma_preorder_resolution_all(s.drop_last(), f);
        lemma_preorder_resolution(s.last(), f);
        lemma_some_node_matches_concat(preorder_all(s.drop_last()), preorder(s.last()), f);
        Seq::filter_distributes_over_add(preorder_all(s.drop_last()), preorder(s.last()), similar_to(f));
    }
}

/// Law of `quick_resolve` over the tree's node list in pre-order: a match is a node
/// whose own field equals the finder's value, and the candidates are the first
/// `MAX_CANDIDATES` similar nodes of that list, in its order.
pub proof fn law_resolution_over_preorder(root: WidgetNodeView, f: Finder)
    ensures
        spec_any_match(root, f) <==> exists|i: int| 0 <= i < preorder(root).len() && spec_node_matches(#[trigger] preorder(root)[i], f),
        cap(spec_similar_nodes(root, f)) == cap(preorder(root).filter(similar_to(f))),
{
    lemma_preorder_resolution(root, f);
}

/// A node matches a finder by itself exactly when the field the finder looks at (text
/// for a text finder, tooltip for a tooltip finder, semantics label for a semantics
/// finder) is present and equal to the finder's value once both lose surrounding
/// whitespace and quotes; key, type, coordinates and back-button finders match no node
/// this way.
pub proof fn law_node_match_by_field(n: WidgetNodeView, f: Finder)
    ensures
        spec_node_matches(n, f) <==> match f {
            Finder::Text { text, .. } => n.text matches Some(x)
                && trim(trim_char(trim(x), '\u{22}')) == trim(trim_char(trim(text@), '\u{22}')),
            Finder::Tooltip(t) => n.tooltip matches Some(x)
                && trim(trim_char(trim(x), '\u{22}')) == trim(trim_char(trim(t@), '\u{22}')),
            Finder::SemanticsLabel(l) => n.semantics_label matches Some(x)
                && trim(trim_char(trim(x), '\u{22}')) == trim(trim_char(trim(l@), '\u{22}')),
            _ => false,
        },
{
}

/// A node resembles a text, tooltip or semantics finder when the finder's value and one
/// of the node's text, tooltip or semantics label, each without surrounding whitespace
/// and quotes and lowercased, are both non-empty and one contains the other; no other
/// node does. Whichever of the three fields it is, every node of the tree that resembles
/// the finder is among its similar nodes, and only those are.
pub proof fn law_similar_by_text_tooltip_or_label(root: WidgetNodeView, f: Finder)
    ensures
        forall|n: WidgetNodeView| #![trigger spec_is_similar(n, f)]
            spec_is_similar(n, f) <==> ({
                let v = match f {
                    Finder::Text { text, .. } => text@,
                    Finder::Tooltip(t) => t@,
                    Finder::SemanticsLabel(l) => l@,
                    _ => Seq::<char>::empty(),
                };
                let needle = lowercase(trim(trim_char(trim(v), '\u{22}')));
                let text = match n.text {
                    Some(x) => lowercase(trim(trim_char(trim(x), '\u{22}'))),
                    None => Seq::<char>::empty(),
                };
                let tooltip = match n.tooltip {
                    Some(x) => lowercase(trim(trim_char(trim(x), '\u{22}'))),
                    None => Seq::<char>::empty(),
                };
                let label = match n.semantics_label {
                    Some(x) => lowercase(trim(trim_char(trim(x), '\u{22}'))),
                    None => Seq::<char>::empty(),
                };
                &&& needle.len() > 0
                &&& {
                    ||| (n.text is Some && text.len() > 0 && (contains(text, needle) || contains(needle, text)))
                    ||| (n.tooltip is Some && tooltip.len() > 0 && (contains(tooltip, needle) || contains(needle, tooltip)))
                    ||| (n.semantics_label is Some && label.len() > 0 && (contains(label, needle) || contains(needle, label)))
                }
            }),
        forall|k: int| 0 <= k < preorder(root).len() ==> (spec_is_similar(#[trigger] preorder(root)[k], f)
            <==> spec_similar_nodes(root, f).contains(preorder(root)[k])),
{
    lemma_preorder_resolution(root, f);
    let p = preorder(root);
    assert forall|k: int| 0 <= k < p.len() implies (spec_is_similar(#[trigger] p[k], f)
        <==> spec_similar_nodes(root, f).contains(p[k])) by {
        if spec_is_similar(p[k], f) {
            assert(similar_to(f)(p[k]));
            p.lemma_filter_contains(similar_to(f), k);
        }
        if spec_similar_nodes(root, f).contains(p[k]) {
            let q = p.filter(similar_to(f));
            let i = choose|i: int| 0 <= i < q.len() && q[i] == p[k];
            p.lemma_filter_pred(similar_to(f), i);
        }
    }
}

/// A key, type, coordinates or back-button finder matches no node by text: only the
/// text, tooltip and semantics finders compare strings of the tree.
pub proof fn lemma_no_match(n: WidgetNodeView, f: Finder)
    requires
        !(f is Text || f is Tooltip || f is SemanticsLabel),
    ensures
        !spec_any_match(n, f),
    decreases n,
{
    lemma_no_match_all(n.children, f);
}

/// The sequence form of `lemma_no_match`.
pub proof fn lemma_no_match_all(s: Seq<WidgetNodeView>, f: Finder)
    requires
        !(f is Text || f is Tooltip || f is SemanticsLabel),
    ensures
        !spec_any_match_all(s, f),
    decreases s,
{
    if s.len() > 0 {
        lemma_no_match_all(s.drop_last(), f);
        lemma_no_match(s.last(), f);
    }
}

/// A finder that searches for no string (key, type, coordinates, back button) has no
/// similar node anywhere in a tree.
pub proof fn lemma_no_similar_nodes(n: WidgetNodeView, f: Finder)
    requires
        lowercase(spec_normalize(finder_value(f))).len() == 0,
    ensures
        spec_similar_nodes(n, f).len() == 0,
    decreases n,
{
    lemma_no_similar_nodes_all(n.children, f);
}

/// The sequence form of `lemma_no_similar_nodes`.
pub proof fn lemma_no_similar_nodes_all(s: Seq<WidgetNodeView>, f: Finder)
    requires
        lowercase(spec_normalize(finder_value(f))).len() == 0,
    ensures
        spec_similar_nodes_all(s, f).len() == 0,
    decreases s,
{
    if s.len() > 0 {
        lemma_no_similar_nodes_all(s.drop_last(), f);
        lemma_no_similar_nodes(s.last(), f);
    }
}

} // verus!
