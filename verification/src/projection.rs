//! The model of field projection: which selectors count, what one selector
//! adds to the result, and what a list of selectors yields.

use crate::document::{
    find, keys_unique, lemma_find, lemma_find_is, lemma_put_get, lemma_put_same, lemma_put_wf, Tree,
};
use crate::text::{split, trim};
use vstd::prelude::*;

verus! {

/// The segments that a field of a selector string falls into: the field is
/// cut at every `.`, and each piece is trimmed.
pub open spec fn segments(field: Seq<char>) -> Seq<Seq<char>> {
    split(field, '.').map_values(|segment: Seq<char>| trim(segment))
}

/// No segment is empty.
pub open spec fn filled(segments: Seq<Seq<char>>) -> bool {
    forall|i: int| 0 <= i < segments.len() ==> (#[trigger] segments[i]).len() > 0
}

/// The selector that one field of a selector string stands for: its
/// segments, where none of them is empty. A field with an empty segment, and
/// so a field of white space alone, stands for the selector without
/// segments.
pub open spec fn parse_selector(field: Seq<char>) -> Seq<Seq<char>> {
    if filled(segments(field)) {
        segments(field)
    } else {
        Seq::empty()
    }
}

/// The selectors that a selector string stands for: one for each field
/// between commas, in order.
pub open spec fn parse_selectors(text: Seq<char>) -> Seq<Seq<Seq<char>>> {
    split(text, ',').map_values(|field: Seq<char>| parse_selector(field))
}

/// A selector that was read from a string holds no empty segment: it counts,
/// or it has no segments at all.
pub proof fn lemma_parse_selector(field: Seq<char>)
    ensures
        filled(parse_selector(field)),
        parse_selector(field).len() == 0 || selector_ok(parse_selector(field)),
{
}

/// No selector that was read from a selector string holds an empty segment,
/// and there is one selector for each field of the string.
pub proof fn lemma_parse_selectors(text: Seq<char>)
    ensures
        parse_selectors(text).len() == split(text, ',').len(),
        forall|i: int|
            0 <= i < parse_selectors(text).len() ==> filled(#[trigger] parse_selectors(text)[i]),
{
    assert forall|i: int| 0 <= i < parse_selectors(text).len() implies filled(
        #[trigger] parse_selectors(text)[i],
    ) by {
        lemma_parse_selector(split(text, ',')[i]);
    }
}

/// A selector counts where it has at least one segment and no segment is
/// empty.
pub open spec fn selector_ok(selector: Seq<Seq<char>>) -> bool {
    selector.len() > 0 && forall|i: int| 0 <= i < selector.len() ==> (#[trigger] selector[i]).len() > 0
}

/// The result `acc` after one selector has been applied to `source`: where
/// the selector counts and leads to a node of `source`, that node stands at
/// the same path in the result; otherwise the result is unchanged.
pub open spec fn select(acc: Tree, source: Tree, selector: Seq<Seq<char>>) -> Tree {
    if selector_ok(selector) {
        match source.at(selector) {
            Some(value) => acc.with(selector, value),
            None => acc,
        }
    } else {
        acc
    }
}

/// The projection of `source` on `selectors`: starting from the empty
/// mapping, the selectors are applied from first to last.
pub open spec fn project(source: Tree, selectors: Seq<Seq<Seq<char>>>) -> Tree
    decreases selectors.len(),
{
    if selectors.len() == 0 {
        Tree::empty()
    } else {
        select(project(source, selectors.drop_last()), source, selectors.last())
    }
}

/// The node at a path is the value that was put there.
pub proof fn lemma_with_at(tree: Tree, path: Seq<Seq<char>>, value: Tree)
    requires
        path.len() > 0,
    ensures
        tree.with(path, value).at(path) == Some(value),
    decreases path.len(),
{
    if path.len() == 1 {
        lemma_put_get(tree, path[0], value, path[0]);
    } else {
        let child = match tree.get(path[0]) {
            Some(child) => child,
            None => Tree::empty(),
        };
        lemma_with_at(child, path.drop_first(), value);
        lemma_put_get(tree, path[0], child.with(path.drop_first(), value), path[0]);
    }
}

/// Putting at a path the node that stands there changes nothing.
pub proof fn lemma_with_same(tree: Tree, path: Seq<Seq<char>>)
    requires
        tree.at(path) is Some,
    ensures
        tree.with(path, tree.at(path)->Some_0) == tree,
    decreases path.len(),
{
    if path.len() > 1 {
        lemma_with_same(tree.get(path[0])->Some_0, path.drop_first());
    }
    lemma_put_same(tree, path[0]);
}

/// A node of `source` that one selector leads to stays where another
/// selector has put it, whatever is put afterwards at a path that `source`
/// resolves too.
pub proof fn lemma_with_keeps(
    acc: Tree,
    source: Tree,
    kept: Seq<Seq<char>>,
    path: Seq<Seq<char>>,
)
    requires
        source.at(kept) is Some,
        acc.at(kept) == source.at(kept),
        source.at(path) is Some,
    ensures
        acc.with(path, source.at(path)->Some_0).at(kept) == source.at(kept),
    decreases kept.len(),
{
    let value = source.at(path)->Some_0;
    let key = path[0];
    if path.len() == 1 {
        lemma_put_get(acc, key, value, kept[0]);
    } else {
        let child = match acc.get(key) {
            Some(child) => child,
            None => Tree::empty(),
        };
        let grown = child.with(path.drop_first(), value);
        lemma_put_get(acc, key, grown, kept[0]);
        if kept[0] == key {
            let below = source.get(key)->Some_0;
            if kept.len() == 1 {
                lemma_with_same(below, path.drop_first());
            } else {
                lemma_with_keeps(child, below, kept.drop_first(), path.drop_first());
            }
        }
    }
}

/// `part` holds nothing that `whole` does not hold: it is `whole` itself, or
/// a mapping whose every entry has a counterpart in `whole` of which the same
/// is true.
pub open spec fn within(part: Tree, whole: Tree) -> bool
    decreases part,
{
    part == whole || match part {
        Tree::Mapping(entries) => forall|i: int|
            0 <= i < entries.len() ==> whole.get((#[trigger] entries[i]).0) is Some && within(
                entries[i].1,
                whole.get(entries[i].0)->Some_0,
            ),
        _ => false,
    }
}

/// The empty mapping lies within every tree.
pub proof fn lemma_empty_within(whole: Tree)
    ensures
        within(Tree::empty(), whole),
{
}

/// A path that resolves in a part resolves in the whole.
pub proof fn lemma_within_at(part: Tree, whole: Tree, path: Seq<Seq<char>>)
    requires
        within(part, whole),
        part.at(path) is Some,
    ensures
        whole.at(path) is Some,
    decreases path.len(),
{
    if part != whole {
        let entries = part.entries();
        lemma_find(entries, path[0]);
        let i = find(entries, path[0]);
        if path.len() > 1 {
            lemma_within_at(entries[i].1, whole.get(path[0])->Some_0, path.drop_first());
        }
    }
}

/// A part stays a part where a node of the whole is put into it at the
/// node's own path.
pub proof fn lemma_with_within(part: Tree, whole: Tree, path: Seq<Seq<char>>)
    requires
        within(part, whole),
        whole.at(path) is Some,
    ensures
        within(part.with(path, whole.at(path)->Some_0), whole),
    decreases path.len(),
{
    let value = whole.at(path)->Some_0;
    if part == whole {
        lemma_with_same(whole, path);
    } else {
        let key = path[0];
        let below = whole.get(key)->Some_0;
        let entries = part.entries();
        lemma_find(entries, key);
        let i = find(entries, key);
        let child = match part.get(key) {
            Some(child) => child,
            None => Tree::empty(),
        };
        let grown = if path.len() == 1 {
            value
        } else {
            child.with(path.drop_first(), value)
        };
        if path.len() > 1 {
            if i < entries.len() {
                assert(within(entries[i].1, whole.get(entries[i].0)->Some_0));
            }
            lemma_with_within(child, below, path.drop_first());
        }
        let after = part.put(key, grown).entries();
        assert forall|j: int| 0 <= j < after.len() implies whole.get((#[trigger] after[j]).0)
            is Some && within(after[j].1, whole.get(after[j].0)->Some_0) by {
            if j != i {
                assert(after[j] == entries[j]);
            }
        }
    }
}

/// Two sources that resolve every selector that counts alike have the same
/// projection.
pub proof fn lemma_project_alike(a: Tree, b: Tree, selectors: Seq<Seq<Seq<char>>>)
    requires
        forall|i: int|
            0 <= i < selectors.len() && selector_ok(#[trigger] selectors[i]) ==> a.at(selectors[i])
                == b.at(selectors[i]),
    ensures
        project(a, selectors) == project(b, selectors),
    decreases selectors.len(),
{
    if selectors.len() > 0 {
        lemma_project_alike(a, b, selectors.drop_last());
    }
}

/// What a projection holds: it lies within its source, and every selector
/// that counts and resolves in the source leads in the projection to the same
/// node.
pub proof fn lemma_project_holds(source: Tree, selectors: Seq<Seq<Seq<char>>>)
    ensures
        within(project(source, selectors), source),
        forall|i: int|
            0 <= i < selectors.len() && selector_ok(#[trigger] selectors[i]) && source.at(
                selectors[i],
            ) is Some ==> project(source, selectors).at(selectors[i]) == source.at(selectors[i]),
    decreases selectors.len(),
{
    if selectors.len() == 0 {
        lemma_empty_within(source);
    } else {
        let earlier = selectors.drop_last();
        let last = selectors.last();
        let acc = project(source, earlier);
        lemma_project_holds(source, earlier);
        if selector_ok(last) && source.at(last) is Some {
            lemma_with_within(acc, source, last);
            lemma_with_at(acc, last, source.at(last)->Some_0);
            assert forall|i: int|
                0 <= i < selectors.len() && selector_ok(#[trigger] selectors[i]) && source.at(
                    selectors[i],
                ) is Some implies project(source, selectors).at(selectors[i]) == source.at(
                selectors[i],
            ) by {
                if i < earlier.len() {
                    assert(earlier[i] == selectors[i]);
                    lemma_with_keeps(acc, source, selectors[i], last);
                }
            }
        } else {
            assert forall|i: int|
                0 <= i < selectors.len() && selector_ok(#[trigger] selectors[i]) && source.at(
                    selectors[i],
                ) is Some implies project(source, selectors).at(selectors[i]) == source.at(
                selectors[i],
            ) by {
                assert(earlier[i] == selectors[i]);
            }
        }
    }
}

/// Two paths of which one begins with the other.
pub open spec fn along(a: Seq<Seq<char>>, b: Seq<Seq<char>>) -> bool {
    a.is_prefix_of(b) || b.is_prefix_of(a)
}

/// A path that resolves once a value has been put resolved before, or runs
/// along the path at which the value was put.
pub proof fn lemma_with_adds(tree: Tree, path: Seq<Seq<char>>, value: Tree, other: Seq<Seq<char>>)
    requires
        path.len() > 0,
        tree.with(path, value).at(other) is Some,
    ensures
        tree.at(other) is Some || along(other, path),
    decreases path.len(),
{
    let key = path[0];
    let child = match tree.get(key) {
        Some(child) => child,
        None => Tree::empty(),
    };
    let grown = if path.len() == 1 {
        value
    } else {
        child.with(path.drop_first(), value)
    };
    lemma_put_get(tree, key, grown, other[0]);
    if other[0] == key {
        if other.len() == 1 {
            assert(path.subrange(0, 1) =~= other);
        } else if path.len() == 1 {
            assert(other.subrange(0, 1) =~= path);
        } else {
            lemma_with_adds(child, path.drop_first(), value, other.drop_first());
            if along(other.drop_first(), path.drop_first()) {
                lemma_along_behind(other, path);
            }
        }
    }
}

/// Two paths that begin with the same segment run along each other where
/// what follows that segment does.
proof fn lemma_along_behind(a: Seq<Seq<char>>, b: Seq<Seq<char>>)
    requires
        a.len() > 0,
        b.len() > 0,
        a[0] == b[0],
        along(a.drop_first(), b.drop_first()),
    ensures
        along(a, b),
{
    if a.drop_first().is_prefix_of(b.drop_first()) {
        assert(b.subrange(0, a.len() as int) =~= a) by {
            assert forall|i: int| 0 <= i < a.len() implies b.subrange(0, a.len() as int)[i]
                == a[i] by {
                if i > 0 {
                    assert(b.drop_first().subrange(0, a.len() - 1)[i - 1] == a.drop_first()[i - 1]);
                }
            }
        }
    } else {
        assert(a.subrange(0, b.len() as int) =~= b) by {
            assert forall|i: int| 0 <= i < b.len() implies a.subrange(0, b.len() as int)[i]
                == b[i] by {
                if i > 0 {
                    assert(a.drop_first().subrange(0, b.len() - 1)[i - 1] == b.drop_first()[i - 1]);
                }
            }
        }
    }
}

/// A projection holds nothing but what was selected: every path that
/// resolves in it runs along a selector that counts and resolves in the
/// source.
pub proof fn lemma_project_only(
    source: Tree,
    selectors: Seq<Seq<Seq<char>>>,
    path: Seq<Seq<char>>,
)
    requires
        project(source, selectors).at(path) is Some,
    ensures
        exists|i: int|
            0 <= i < selectors.len() && selector_ok(#[trigger] selectors[i]) && source.at(
                selectors[i],
            ) is Some && along(path, selectors[i]),
    decreases selectors.len(),
{
    if selectors.len() == 0 {
        assert(Tree::empty().get(path[0]) is None);
    } else {
        let earlier = selectors.drop_last();
        let last = selectors.last();
        let acc = project(source, earlier);
        if selector_ok(last) && source.at(last) is Some {
            lemma_with_adds(acc, last, source.at(last)->Some_0, path);
        }
        if acc.at(path) is Some {
            lemma_project_only(source, earlier, path);
            let i = choose|i: int|
                0 <= i < earlier.len() && selector_ok(#[trigger] earlier[i]) && source.at(
                    earlier[i],
                ) is Some && along(path, earlier[i]);
        } else {
            assert(selectors[selectors.len() - 1] == last);
        }
    }
}

/// Projection is idempotent: projecting a projection on the same selectors
/// gives the projection back.
pub proof fn lemma_project_idempotent(source: Tree, selectors: Seq<Seq<Seq<char>>>)
    ensures
        project(project(source, selectors), selectors) == project(source, selectors),
{
    let once = project(source, selectors);
    lemma_project_holds(source, selectors);
    assert forall|i: int|
        0 <= i < selectors.len() && selector_ok(#[trigger] selectors[i]) implies once.at(
        selectors[i],
    ) == source.at(selectors[i]) by {
        if source.at(selectors[i]) is None && once.at(selectors[i]) is Some {
            lemma_within_at(once, source, selectors[i]);
        }
    }
    lemma_project_alike(once, source, selectors);
}

/// A selector that is listed once more adds nothing.
pub proof fn lemma_project_repeated(source: Tree, selectors: Seq<Seq<Seq<char>>>, i: int)
    requires
        0 <= i < selectors.len(),
    ensures
        project(source, selectors.push(selectors[i])) == project(source, selectors),
{
    let again = selectors.push(selectors[i]);
    assert(again.drop_last() =~= selectors);
    lemma_project_holds(source, selectors);
    if selector_ok(selectors[i]) && source.at(selectors[i]) is Some {
        lemma_with_same(project(source, selectors), selectors[i]);
    }
}

/// A selector that does not resolve in the source adds nothing.
pub proof fn lemma_project_unresolved(
    source: Tree,
    selectors: Seq<Seq<Seq<char>>>,
    selector: Seq<Seq<char>>,
)
    requires
        source.at(selector) is None,
    ensures
        project(source, selectors.push(selector)) == project(source, selectors),
{
    assert(selectors.push(selector).drop_last() =~= selectors);
}

/// A path does not resolve where a proper prefix of it leads to a node that
/// is no mapping.
pub proof fn lemma_leaf_stops_path(tree: Tree, path: Seq<Seq<char>>, n: int)
    requires
        0 < n < path.len(),
        tree.at(path.take(n)) is Some,
        !(tree.at(path.take(n))->Some_0 is Mapping),
    ensures
        tree.at(path) is None,
    decreases n,
{
    let child = tree.get(path[0])->Some_0;
    let rest = path.drop_first();
    if n == 1 {
        assert(child.at(rest) is None);
    } else {
        assert(path.take(n).drop_first() =~= path.drop_first().take(n - 1));
        lemma_leaf_stops_path(child, path.drop_first(), n - 1);
    }
}

/// The projection on the first `n` keys of a mapping, each taken as a
/// selector of one segment, is the mapping's first `n` entries.
proof fn lemma_project_keys(source: Tree, selectors: Seq<Seq<Seq<char>>>, n: int)
    requires
        source is Mapping,
        keys_unique(source.entries()),
        0 <= n <= selectors.len() == source.entries().len(),
        forall|i: int|
            0 <= i < selectors.len() ==> (#[trigger] selectors[i]).len() == 1 && selectors[i][0]
                == source.entries()[i].0 && source.entries()[i].0.len() > 0,
    ensures
        project(source, selectors.take(n)) == Tree::Mapping(source.entries().take(n)),
    decreases n,
{
    let entries = source.entries();
    if n == 0 {
        assert(entries.take(0) =~= Seq::empty());
    } else {
        lemma_project_keys(source, selectors, n - 1);
        assert(selectors.take(n).drop_last() =~= selectors.take(n - 1));
        let selector = selectors[n - 1];
        let key = entries[n - 1].0;
        lemma_find_is(entries, key, n - 1);
        lemma_find_is(entries.take(n - 1), key, n - 1);
        assert(entries.take(n - 1).push((key, entries[n - 1].1)) =~= entries.take(n));
    }
}

/// Projection on every key of a mapping gives the mapping back: where the
/// keys are unique and none is empty, and the selectors are the keys in their
/// order, each as a selector of one segment.
pub proof fn lemma_project_round_trip(source: Tree, selectors: Seq<Seq<Seq<char>>>)
    requires
        source is Mapping,
        keys_unique(source.entries()),
        selectors.len() == source.entries().len(),
        forall|i: int|
            0 <= i < selectors.len() ==> (#[trigger] selectors[i]).len() == 1 && selectors[i][0]
                == source.entries()[i].0 && source.entries()[i].0.len() > 0,
    ensures
        project(source, selectors) == source,
{
    lemma_project_keys(source, selectors, selectors.len() as int);
    assert(selectors.take(selectors.len() as int) =~= selectors);
    assert(source.entries().take(selectors.len() as int) =~= source.entries());
}

/// Projection on every key of a mapping, in any order, gives a mapping
/// that holds under every key what the source holds: where no key of the
/// source is empty, and each stands among the selectors as a selector of one
/// segment.
pub proof fn lemma_project_covers(source: Tree, selectors: Seq<Seq<Seq<char>>>, key: Seq<char>)
    requires
        source is Mapping,
        forall|j: int|
            0 <= j < source.entries().len() ==> (#[trigger] source.entries()[j]).0.len() > 0
                && exists|i: int|
                0 <= i < selectors.len() && (#[trigger] selectors[i]).len() == 1 && selectors[i][0]
                    == source.entries()[j].0,
    ensures
        project(source, selectors).get(key) == source.get(key),
{
    let result = project(source, selectors);
    let entries = source.entries();
    lemma_project_holds(source, selectors);
    lemma_find(entries, key);
    let at = find(entries, key);
    if at < entries.len() {
        let i = choose|i: int|
            0 <= i < selectors.len() && (#[trigger] selectors[i]).len() == 1 && selectors[i][0]
                == entries[at].0;
    } else if result.get(key) is Some {
        lemma_within_at(result, source, seq![key]);
    }
}

/// A projection is a mapping.
pub proof fn lemma_project_is_mapping(source: Tree, selectors: Seq<Seq<Seq<char>>>)
    ensures
        project(source, selectors) is Mapping,
    decreases selectors.len(),
{
    if selectors.len() > 0 {
        lemma_project_is_mapping(source, selectors.drop_last());
    }
}

/// A node of a well-formed tree is well formed.
pub proof fn lemma_at_wf(tree: Tree, path: Seq<Seq<char>>)
    requires
        tree.wf(),
        tree.at(path) is Some,
    ensures
        tree.at(path)->Some_0.wf(),
    decreases path.len(),
{
    let entries = tree.entries();
    lemma_find(entries, path[0]);
    if path.len() > 1 {
        lemma_at_wf(tree.get(path[0])->Some_0, path.drop_first());
    }
}

/// `with` keeps a tree well formed.
pub proof fn lemma_with_wf(tree: Tree, path: Seq<Seq<char>>, value: Tree)
    requires
        tree is Mapping ==> tree.wf(),
        value.wf(),
        path.len() > 0,
    ensures
        tree.with(path, value).wf(),
    decreases path.len(),
{
    if path.len() == 1 {
        lemma_put_wf(tree, path[0], value);
    } else {
        let child = match tree.get(path[0]) {
            Some(child) => child,
            None => Tree::empty(),
        };
        if tree.get(path[0]) is Some {
            let entries = tree.entries();
            lemma_find(entries, path[0]);
        }
        lemma_with_wf(child, path.drop_first(), value);
        lemma_put_wf(tree, path[0], child.with(path.drop_first(), value));
    }
}

/// The projection of a well-formed tree is well formed.
pub proof fn lemma_project_wf(source: Tree, selectors: Seq<Seq<Seq<char>>>)
    requires
        source.wf(),
    ensures
        project(source, selectors).wf(),
    decreases selectors.len(),
{
    if selectors.len() > 0 {
        let last = selectors.last();
        lemma_project_wf(source, selectors.drop_last());
        if selector_ok(last) && source.at(last) is Some {
            lemma_at_wf(source, last);
            lemma_with_wf(project(source, selectors.drop_last()), last, source.at(last)->Some_0);
        }
    }
}

} // verus!
