//! What the embedded endpoint answers: the whole document, or the node that
//! a dotted path leads to.

use crate::document::{Document, Tree};
use crate::text::{split, split_ranges, to_chars};
use crate::utils::get_value_at_path;
use vstd::prelude::*;

verus! {

/// The node of `info` that the dotted `path` leads to, or the empty mapping
/// where the path does not resolve. The path is cut at every `.`; its
/// segments are taken as they are.
pub open spec fn info_at(info: Tree, path: Seq<char>) -> Tree {
    match info.at(split(path, '.')) {
        Some(node) => node,
        None => Tree::empty(),
    }
}

/// The answer to a request for the whole document.
pub fn get_all_info(info: &Document) -> (r: Document)
    ensures
        r@ == info@,
{
    info.clone()
}

/// The answer to a request for the node at a dotted path: the node, or the
/// empty mapping where the path does not resolve.
pub fn get_info_by_path(info: &Document, path: &str) -> (r: Document)
    ensures
        r@ == info_at(info@, path@),
        info@.wf() ==> r@.wf(),
{
    let chars = to_chars(path);
    let ranges = split_ranges(&chars, 0, chars.len(), '.');
    let ghost pieces = split(path@, '.');
    assert(chars@.subrange(0, chars.len() as int) =~= path@);
    let mut segments: Vec<String> = Vec::new();
    let mut i: usize = 0;
    while i < ranges.len()
        invariant
            i <= ranges.len(),
            chars@ == path@,
            ranges.len() == pieces.len(),
            forall|j: int|
                0 <= j < ranges.len() ==> (#[trigger] ranges[j]).0 <= ranges[j].1 <= chars.len()
                    && chars@.subrange(ranges[j].0 as int, ranges[j].1 as int) == pieces[j],
            segments.len() == i,
            forall|j: int| 0 <= j < i ==> (#[trigger] segments[j])@ == pieces[j],
        decreases ranges.len() - i,
    {
        let (from, to) = ranges[i];
        segments.push(path.substring_char(from, to).to_owned());
        i += 1;
    }
    let segments = segments.as_slice();
    assert(segments.deep_view() =~= pieces);
    match get_value_at_path(info, segments) {
        Some(node) => node,
        None => Document::new_mapping(),
    }
}

} // verus!
