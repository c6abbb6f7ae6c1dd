//! Selector parsing and field projection on documents, and the timeout as a
//! duration.

use crate::document::{entries_tree, lemma_find, position, Document};
use crate::projection::{
    filled, lemma_at_wf, lemma_parse_selectors, lemma_project_is_mapping, lemma_project_wf,
    lemma_with_wf, parse_selector, parse_selectors, project, segments, selector_ok,
};
use crate::text::{split, split_ranges, to_chars, trim, trim_range};
use std::time::Duration;
use vstd::prelude::*;

verus! {

/// The whole milliseconds that a duration holds, as `Duration::as_millis` of
/// std counts them.
pub uninterp spec fn duration_millis(d: Duration) -> nat;

/// The part of a duration below a whole second, in nanoseconds, as
/// `Duration::subsec_nanos` of std gives it.
pub uninterp spec fn duration_subsec_nanos(d: Duration) -> nat;

/// Taken on trust from the documentation of std, not proved:
/// `Duration::from_millis` makes a duration of exactly that many
/// milliseconds. Its whole milliseconds are the argument, and what it holds
/// below a second is the argument's last three digits as milliseconds, with
/// nothing below a millisecond.
pub assume_specification[ Duration::from_millis ](millis: u64) -> (d: Duration)
    ensures
        duration_millis(d) == millis,
        duration_subsec_nanos(d) == (millis % 1000) * 1_000_000,
;

/// The duration of exactly `timeout_ms` milliseconds.
pub fn timeout_duration(timeout_ms: u64) -> (r: Duration)
    ensures
        duration_millis(r) == timeout_ms,
        duration_subsec_nanos(r) == (timeout_ms % 1000) * 1_000_000,
{
    Duration::from_millis(timeout_ms)
}

/// Reads a selector string: a list of dotted paths with commas between
/// them. Each path becomes one selector, its segments trimmed. No selector
/// in the result holds an empty segment: a path with an empty segment, and
/// so an empty path, becomes the selector without segments.
pub fn parse_field_selector(selector: &str) -> (r: Vec<Vec<String>>)
    ensures
        r.deep_view() == parse_selectors(selector@),
        r.len() == split(selector@, ',').len(),
        forall|i: int| 0 <= i < r.len() ==> filled(#[trigger] r.deep_view()[i]),
{
    proof {
        lemma_parse_selectors(selector@);
    }
    let chars = to_chars(selector);
    let fields = split_ranges(&chars, 0, chars.len(), ',');
    let ghost pieces = split(selector@, ',');
    assert(chars@.subrange(0, chars.len() as int) =~= selector@);
    let mut out: Vec<Vec<String>> = Vec::new();
    let mut i: usize = 0;
    while i < fields.len()
        invariant
            i <= fields.len(),
            chars@ == selector@,
            fields.len() == pieces.len(),
            forall|j: int|
                0 <= j < fields.len() ==> (#[trigger] fields[j]).0 <= fields[j].1 <= chars.len()
                    && chars@.subrange(fields[j].0 as int, fields[j].1 as int) == pieces[j],
            out.len() == i,
            forall|j: int| 0 <= j < i ==> (#[trigger] out[j]).deep_view() == parse_selector(pieces[j]),
        decreases fields.len() - i,
    {
        let (lo, hi) = fields[i];
        let one = parse_field(selector, &chars, lo, hi);
        out.push(one);
        i += 1;
    }
    out
}

/// Reads the field `chars[lo..hi]` of a selector string.
fn parse_field(text: &str, chars: &Vec<char>, lo: usize, hi: usize) -> (r: Vec<String>)
    requires
        chars@ == text@,
        lo <= hi <= chars.len(),
    ensures
        r.deep_view() == parse_selector(chars@.subrange(lo as int, hi as int)),
{
    let ghost field = chars@.subrange(lo as int, hi as int);
    let ghost wanted = segments(field);
    let ranges = split_ranges(chars, lo, hi, '.');
    let ghost pieces = split(field, '.');
    let mut out: Vec<String> = Vec::new();
    let mut complete = true;
    let mut i: usize = 0;
    while i < ranges.len()
        invariant
            i <= ranges.len(),
            chars@ == text@,
            wanted == segments(field),
            pieces == split(field, '.'),
            ranges.len() == pieces.len(),
            forall|j: int|
                0 <= j < ranges.len() ==> (#[trigger] ranges[j]).0 <= ranges[j].1 <= chars.len()
                    && chars@.subrange(ranges[j].0 as int, ranges[j].1 as int) == pieces[j],
            out.len() == i,
            forall|j: int| 0 <= j < i ==> (#[trigger] out[j])@ == wanted[j],
            complete == (forall|j: int| 0 <= j < i ==> (#[trigger] wanted[j]).len() > 0),
        decreases ranges.len() - i,
    {
        let (from, to) = ranges[i];
        let (start, end) = trim_range(chars, from, to);
        assert(wanted[i as int] == trim(pieces[i as int]));
        if start == end {
            complete = false;
        }
        out.push(text.substring_char(start, end).to_owned());
        i += 1;
    }
    if complete {
        assert(out.deep_view() =~= wanted);
        out
    } else {
        let none: Vec<String> = Vec::new();
        assert(none.deep_view() =~= Seq::<Seq<char>>::empty());
        none
    }
}

/// The node that `path` leads to in `doc`, copied; `None` where the path
/// does not resolve.
pub fn get_value_at_path(doc: &Document, path: &[String]) -> (r: Option<Document>)
    ensures
        match r {
            Some(d) => doc@.at(path.deep_view()) == Some(d@) && (doc@.wf() ==> d@.wf()),
            None => doc@.at(path.deep_view()) is None,
        },
{
    let ghost p = path.deep_view();
    proof {
        if doc@.wf() && doc@.at(p) is Some {
            lemma_at_wf(doc@, p);
        }
    }
    if path.len() == 0 {
        return None;
    }
    let mut current: &Document = doc;
    let mut i: usize = 0;
    assert(p.skip(0) =~= p);
    while i + 1 < path.len()
        invariant
            p == path.deep_view(),
            i < path.len(),
            doc@.at(p) == current@.at(p.skip(i as int)),
        decreases path.len() - i,
    {
        assert(p.skip(i as int).drop_first() =~= p.skip(i as int + 1));
        match current.get(&path[i]) {
            Some(next) => {
                current = next;
            },
            None => {
                return None;
            },
        }
        i += 1;
    }
    match current.get(&path[i]) {
        Some(found) => Some(found.clone()),
        None => None,
    }
}

/// Puts `value` at `path` below `root`, creating the mappings that are
/// missing on the way and replacing a node on the way that is no mapping.
/// The empty path changes nothing.
pub fn insert_at_path(root: &mut Document, path: &[String], value: Document)
    ensures
        final(root)@ == old(root)@.with(path.deep_view(), value@),
        old(root)@.wf() && value@.wf() ==> final(root)@.wf(),
{
    proof {
        if path.len() > 0 && root@.wf() && value@.wf() {
            lemma_with_wf(root@, path.deep_view(), value@);
        }
    }
    if path.len() > 0 {
        assert(path.deep_view().skip(0) =~= path.deep_view());
        insert_below(root, path, 0, value);
    }
}

fn insert_below(node: &mut Document, path: &[String], depth: usize, value: Document)
    requires
        depth < path.len(),
    ensures
        final(node)@ == old(node)@.with(path.deep_view().skip(depth as int), value@),
    decreases path.len() - depth,
{
    let ghost p = path.deep_view().skip(depth as int);
    if depth + 1 == path.len() {
        node.insert(path[depth].clone(), value);
    } else {
        assert(p.drop_first() =~= path.deep_view().skip(depth as int + 1));
        if !node.is_mapping() {
            *node = Document::new_mapping();
        }
        match node {
            Document::Mapping(entries) => {
                let ghost before = *entries;
                let at = position(entries, &path[depth]);
                if at == entries.len() {
                    entries.push((path[depth].clone(), Document::new_mapping()));
                }
                let ghost between = *entries;
                insert_below(&mut entries[at].1, path, depth + 1, value);
                proof {
                    Document::lemma_mapping_tree(before);
                    Document::lemma_mapping_tree(*entries);
                    let e = entries_tree(before@);
                    lemma_find(e, p[0]);
                    let child = between@[at as int].1@.with(p.drop_first(), value@);
                    if at < before.len() {
                        assert(entries_tree(entries@) =~= e.update(at as int, (p[0], child)));
                    } else {
                        assert(entries_tree(entries@) =~= e.push((p[0], child)));
                    }
                }
            },
            _ => {},
        }
    }
}

/// Whether a selector counts: it has a segment, and none of them is empty.
pub fn is_selector_ok(selector: &[String]) -> (r: bool)
    ensures
        r == selector_ok(selector.deep_view()),
{
    if selector.len() == 0 {
        return false;
    }
    let mut i: usize = 0;
    while i < selector.len()
        invariant
            i <= selector.len(),
            forall|j: int| 0 <= j < i ==> (#[trigger] selector.deep_view()[j]).len() > 0,
        decreases selector.len() - i,
    {
        if selector[i].as_str().is_empty() {
            assert(selector.deep_view()[i as int].len() == 0);
            return false;
        }
        i += 1;
    }
    true
}

/// Projects `value` on `fields`: the result holds, at their own paths, the
/// nodes of `value` that the selectors lead to, and nothing else. A selector
/// that does not count or does not resolve adds nothing.
pub fn filter_json_fields(value: Document, fields: Vec<Vec<String>>) -> (r: Document)
    ensures
        r@ == project(value@, fields.deep_view()),
        r@ is Mapping,
        value@.wf() ==> r@.wf(),
{
    let ghost selectors = fields.deep_view();
    proof {
        lemma_project_is_mapping(value@, selectors);
        if value@.wf() {
            lemma_project_wf(value@, selectors);
        }
    }
    let mut result = Document::new_mapping();
    let mut i: usize = 0;
    while i < fields.len()
        invariant
            i <= fields.len(),
            selectors == fields.deep_view(),
            result@ == project(value@, selectors.take(i as int)),
        decreases fields.len() - i,
    {
        let field_path = fields[i].as_slice();
        assert(selectors.take(i as int + 1).drop_last() =~= selectors.take(i as int));
        if is_selector_ok(field_path) {
            if let Some(found) = get_value_at_path(&value, field_path) {
                insert_at_path(&mut result, field_path, found);
            }
        }
        i += 1;
    }
    assert(selectors.take(i as int) =~= selectors);
    result
}

} // verus!
