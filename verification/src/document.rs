//! The document tree that every collected record is expressed in.
//!
//! A [`Document`] is the executable value; a [`Tree`] is its mathematical
//! model, over which every contract of this crate is stated. A mapping keeps
//! its entries in the order of their first insertion.

use vstd::prelude::*;

verus! {

/// A number, held without loss of precision.
#[derive(Clone, Copy, Debug, PartialEq, Eq, Structural)]
pub enum Number {
    /// A non-negative integer.
    Unsigned(u64),
    /// A negative integer.
    Signed(i64),
    /// A finite binary64 value, held as its IEEE-754 bit pattern.
    Real(u64),
}

/// The mathematical value of a [`Document`].
pub enum Tree {
    Null,
    Boolean(bool),
    Number(Number),
    Text(Seq<char>),
    Sequence(Seq<Tree>),
    Mapping(Seq<(Seq<char>, Tree)>),
}

/// The index of the first entry at or after `from` that is keyed by `key`,
/// or the number of entries where there is none.
pub open spec fn find_from(entries: Seq<(Seq<char>, Tree)>, key: Seq<char>, from: int) -> int
    decreases entries.len() - from,
{
    if from < 0 || from >= entries.len() {
        entries.len() as int
    } else if entries[from].0 == key {
        from
    } else {
        find_from(entries, key, from + 1)
    }
}

/// The index of the first entry keyed by `key`, or the number of entries
/// where there is none.
pub open spec fn find(entries: Seq<(Seq<char>, Tree)>, key: Seq<char>) -> int {
    find_from(entries, key, 0)
}

/// No two entries share a key.
pub open spec fn keys_unique(entries: Seq<(Seq<char>, Tree)>) -> bool {
    forall|i: int, j: int|
        0 <= i < j < entries.len() ==> (#[trigger] entries[i]).0 != (#[trigger] entries[j]).0
}

impl Tree {
    /// The mapping without entries.
    pub open spec fn empty() -> Tree {
        Tree::Mapping(Seq::empty())
    }

    /// The entries of a mapping; none for any other node.
    pub open spec fn entries(self) -> Seq<(Seq<char>, Tree)> {
        match self {
            Tree::Mapping(entries) => entries,
            _ => Seq::empty(),
        }
    }

    /// The value that a mapping holds under `key`.
    pub open spec fn get(self, key: Seq<char>) -> Option<Tree> {
        let entries = self.entries();
        let i = find(entries, key);
        if i < entries.len() {
            Some(entries[i].1)
        } else {
            None
        }
    }

    /// The mapping with `value` under `key`: in the place of the old value
    /// where the key is present, behind the last entry where it is not. A
    /// node that is no mapping counts as the empty mapping.
    pub open spec fn put(self, key: Seq<char>, value: Tree) -> Tree {
        let entries = self.entries();
        let i = find(entries, key);
        if i < entries.len() {
            Tree::Mapping(entries.update(i, (key, value)))
        } else {
            Tree::Mapping(entries.push((key, value)))
        }
    }

    /// The node that `path` leads to. Every segment but the last must name
    /// an entry of a mapping whose value is a mapping again; the last must
    /// name an entry of any kind. The empty path leads nowhere.
    pub open spec fn at(self, path: Seq<Seq<char>>) -> Option<Tree>
        decreases path.len(),
    {
        if path.len() == 0 {
            None
        } else {
            match self.get(path[0]) {
                Some(child) => if path.len() == 1 {
                    Some(child)
                } else {
                    child.at(path.drop_first())
                },
                None => None,
            }
        }
    }

    /// The tree with `value` at `path`. Mappings that are missing on the way
    /// are created, and a node on the way that is no mapping is replaced by
    /// one. The empty path changes nothing.
    pub open spec fn with(self, path: Seq<Seq<char>>, value: Tree) -> Tree
        decreases path.len(),
    {
        if path.len() == 0 {
            self
        } else if path.len() == 1 {
            self.put(path[0], value)
        } else {
            let child = match self.get(path[0]) {
                Some(child) => child,
                None => Tree::empty(),
            };
            self.put(path[0], child.with(path.drop_first(), value))
        }
    }

    /// Every mapping in the tree has unique keys.
    pub open spec fn wf(self) -> bool
        decreases self,
    {
        match self {
            Tree::Sequence(items) => forall|i: int|
                0 <= i < items.len() ==> (#[trigger] items[i]).wf(),
            Tree::Mapping(entries) => keys_unique(entries) && forall|i: int|
                0 <= i < entries.len() ==> (#[trigger] entries[i]).1.wf(),
            _ => true,
        }
    }
}

/// What `find_from` returns: it lies between `from` and the length, it names
/// an entry with the key where it lies below the length, and no entry from
/// `from` up to it has the key.
pub proof fn lemma_find_from(entries: Seq<(Seq<char>, Tree)>, key: Seq<char>, from: int)
    requires
        0 <= from <= entries.len(),
    ensures
        from <= find_from(entries, key, from) <= entries.len(),
        find_from(entries, key, from) < entries.len() ==> entries[find_from(
            entries,
            key,
            from,
        )].0 == key,
        forall|j: int| from <= j < find_from(entries, key, from) ==> (#[trigger] entries[j]).0 != key,
    decreases entries.len() - from,
{
    if from < entries.len() && entries[from].0 != key {
        lemma_find_from(entries, key, from + 1);
    }
}

/// `find` is the first index with the key, or the length.
pub proof fn lemma_find(entries: Seq<(Seq<char>, Tree)>, key: Seq<char>)
    ensures
        0 <= find(entries, key) <= entries.len(),
        find(entries, key) < entries.len() ==> entries[find(entries, key)].0 == key,
        forall|j: int| 0 <= j < find(entries, key) ==> (#[trigger] entries[j]).0 != key,
{
    lemma_find_from(entries, key, 0);
}

/// An index whose entry has the key, behind entries that have not, is what
/// `find` returns; so is the length, where no entry has the key.
pub proof fn lemma_find_is(entries: Seq<(Seq<char>, Tree)>, key: Seq<char>, i: int)
    requires
        0 <= i <= entries.len(),
        i < entries.len() ==> entries[i].0 == key,
        forall|j: int| 0 <= j < i ==> (#[trigger] entries[j]).0 != key,
    ensures
        find(entries, key) == i,
{
    lemma_find(entries, key);
}

/// Looking a key up behind a `put`: the key that was put has the new value,
/// every other key has what it had.
pub proof fn lemma_put_get(tree: Tree, key: Seq<char>, value: Tree, other: Seq<char>)
    ensures
        tree.put(key, value).get(other) == if other == key {
            Some(value)
        } else {
            tree.get(other)
        },
        tree.put(key, value) is Mapping,
{
    let before = tree.entries();
    let after = tree.put(key, value).entries();
    lemma_find(before, key);
    lemma_find(before, other);
    let i = find(before, key);
    if other == key {
        lemma_find_is(after, key, i);
    } else {
        let j = find(before, other);
        if j < before.len() {
            lemma_find_is(after, other, j);
        } else {
            lemma_find_is(after, other, after.len() as int);
        }
    }
}

/// Putting under a key the value that it has changes nothing.
pub proof fn lemma_put_same(tree: Tree, key: Seq<char>)
    requires
        tree.get(key) is Some,
    ensures
        tree.put(key, tree.get(key)->Some_0) == tree,
{
    let entries = tree.entries();
    lemma_find(entries, key);
    let i = find(entries, key);
    assert(entries.update(i, (key, entries[i].1)) =~= entries);
}

/// `put` keeps a tree well formed. A node that is no mapping is replaced, so
/// nothing is asked of it.
pub proof fn lemma_put_wf(tree: Tree, key: Seq<char>, value: Tree)
    requires
        tree is Mapping ==> tree.wf(),
        value.wf(),
    ensures
        tree.put(key, value).wf(),
{
    let before = tree.entries();
    let after = tree.put(key, value).entries();
    lemma_find(before, key);
    let at = find(before, key);
    assert forall|i: int, j: int| 0 <= i < j < after.len() implies (#[trigger] after[i]).0 != (
    #[trigger] after[j]).0 by {
        if j < before.len() {
            assert(before[i].0 != before[j].0);
        }
    }
    assert forall|i: int| 0 <= i < after.len() implies (#[trigger] after[i]).1.wf() by {
        if i != at {
            assert(before[i].1.wf());
        }
    }
}

/// A node of a document.
#[derive(Debug, PartialEq, Eq)]
pub enum Document {
    Null,
    Boolean(bool),
    Number(Number),
    Text(String),
    Sequence(Vec<Document>),
    /// Entries in the order of their first insertion.
    Mapping(Vec<(String, Document)>),
}

impl View for Document {
    type V = Tree;

    open spec fn view(&self) -> Tree {
        self.tree()
    }
}

/// The model of a list of entries.
pub open spec fn entries_tree(entries: Seq<(String, Document)>) -> Seq<(Seq<char>, Tree)> {
    Seq::new(entries.len(), |i: int| (entries[i].0@, entries[i].1@))
}

/// The model of a list of documents.
pub open spec fn items_tree(items: Seq<Document>) -> Seq<Tree> {
    Seq::new(items.len(), |i: int| items[i]@)
}

impl Document {
    /// The model of the document.
    pub open spec fn tree(&self) -> Tree
        decreases self,
    {
        match self {
            Document::Null => Tree::Null,
            Document::Boolean(b) => Tree::Boolean(*b),
            Document::Number(n) => Tree::Number(*n),
            Document::Text(s) => Tree::Text(s@),
            Document::Sequence(items) => Tree::Sequence(
                Seq::new(
                    items@.len(),
                    |i: int|
                        if 0 <= i < items@.len() {
                            items@[i].tree()
                        } else {
                            Tree::Null
                        },
                ),
            ),
            Document::Mapping(entries) => Tree::Mapping(
                Seq::new(
                    entries@.len(),
                    |i: int|
                        if 0 <= i < entries@.len() {
                            (entries@[i].0@, entries@[i].1.tree())
                        } else {
                            (Seq::empty(), Tree::Null)
                        },
                ),
            ),
        }
    }

    /// The model of a mapping is the model of its entries.
    pub proof fn lemma_mapping_tree(entries: Vec<(String, Document)>)
        ensures
            Document::Mapping(entries)@ == Tree::Mapping(entries_tree(entries@)),
    {
        assert(Document::Mapping(entries)@->Mapping_0 =~= entries_tree(entries@));
    }

    /// The model of a sequence is the model of its items.
    pub proof fn lemma_sequence_tree(items: Vec<Document>)
        ensures
            Document::Sequence(items)@ == Tree::Sequence(items_tree(items@)),
    {
        assert(Document::Sequence(items)@->Sequence_0 =~= items_tree(items@));
    }

    /// The mapping without entries.
    pub fn new_mapping() -> (r: Document)
        ensures
            r@ == Tree::empty(),
            r@.wf(),
    {
        let entries: Vec<(String, Document)> = Vec::new();
        proof {
            Document::lemma_mapping_tree(entries);
            assert(entries_tree(entries@) =~= Seq::empty());
        }
        Document::Mapping(entries)
    }

    /// Whether the node is a mapping.
    pub fn is_mapping(&self) -> (r: bool)
        ensures
            r == (self@ is Mapping),
    {
        match self {
            Document::Mapping(_) => true,
            _ => false,
        }
    }
}

impl Document {
    /// The value that a mapping holds under `key`; `None` where the key is
    /// absent or the node is no mapping.
    pub fn get(&self, key: &String) -> (r: Option<&Document>)
        ensures
            match r {
                Some(d) => self@.get(key@) == Some(d@) && (self@.wf() ==> d@.wf()),
                None => self@.get(key@) is None,
            },
    {
        proof {
            lemma_find(self@.entries(), key@);
        }
        match self {
            Document::Mapping(entries) => {
                proof {
                    Document::lemma_mapping_tree(*entries);
                }
                let i = position(entries, key);
                if i < entries.len() {
                    Some(&entries[i].1)
                } else {
                    None
                }
            },
            _ => None,
        }
    }

    /// Puts `value` under `key`: in the place of the old value where the key
    /// is present, behind the last entry where it is not. A node that is no
    /// mapping becomes a mapping with this one entry.
    pub fn insert(&mut self, key: String, value: Document)
        ensures
            final(self)@ == old(self)@.put(key@, value@),
            (old(self)@ is Mapping ==> old(self)@.wf()) && value@.wf() ==> final(self)@.wf(),
    {
        proof {
            if (self@ is Mapping ==> self@.wf()) && value@.wf() {
                lemma_put_wf(self@, key@, value@);
            }
        }
        if !self.is_mapping() {
            *self = Document::new_mapping();
        }
        match self {
            Document::Mapping(entries) => {
                let ghost before = *entries;
                proof {
                    Document::lemma_mapping_tree(before);
                }
                let i = position(entries, &key);
                if i < entries.len() {
                    entries[i] = (key, value);
                } else {
                    entries.push((key, value));
                }
                proof {
                    Document::lemma_mapping_tree(*entries);
                    let e = entries_tree(before@);
                    if i < before.len() {
                        assert(entries_tree(entries@) =~= e.update(i as int, (key@, value@)));
                    } else {
                        assert(entries_tree(entries@) =~= e.push((key@, value@)));
                    }
                }
            },
            _ => {},
        }
    }
}

impl Document {
    /// Whether every mapping in the document has unique keys.
    pub fn is_well_formed(&self) -> (r: bool)
        ensures
            r == self@.wf(),
        decreases self,
    {
        match self {
            Document::Sequence(items) => {
                proof {
                    Document::lemma_sequence_tree(*items);
                }
                let mut i: usize = 0;
                while i < items.len()
                    invariant
                        self == Document::Sequence(*items),
                        self@ == Tree::Sequence(items_tree(items@)),
                        i <= items.len(),
                        forall|j: int| 0 <= j < i ==> (#[trigger] items@[j])@.wf(),
                    decreases items.len() - i,
                {
                    proof {
                        assert(decreases_to!(self => self->Sequence_0));
                        assert(decreases_to!(items => items@));
                        assert(decreases_to!(items@ => items@[i as int]));
                    }
                    if !items[i].is_well_formed() {
                        assert(self@->Sequence_0[i as int] == items@[i as int]@);
                        return false;
                    }
                    i += 1;
                }
                assert forall|j: int| 0 <= j < items.len() implies (#[trigger] items_tree(
                    items@,
                )[j]).wf() by {
                    assert(items@[j]@.wf());
                }
                true
            },
            Document::Mapping(entries) => {
                proof {
                    Document::lemma_mapping_tree(*entries);
                }
                let ghost model = entries_tree(entries@);
                let mut i: usize = 0;
                while i < entries.len()
                    invariant
                        self == Document::Mapping(*entries),
                        self@ == Tree::Mapping(model),
                        model == entries_tree(entries@),
                        i <= entries.len(),
                        forall|j: int| 0 <= j < i ==> (#[trigger] entries@[j]).1@.wf(),
                        forall|j: int| 0 <= j < i ==> find(model, (#[trigger] model[j]).0) == j,
                    decreases entries.len() - i,
                {
                    proof {
                        assert(decreases_to!(self => self->Mapping_0));
                        assert(decreases_to!(entries => entries@));
                        assert(decreases_to!(entries@ => entries@[i as int]));
                        assert(decreases_to!(entries@[i as int] => entries@[i as int].1));
                        lemma_find(model, model[i as int].0);
                    }
                    if position(entries, &entries[i].0) != i {
                        return false;
                    }
                    if !entries[i].1.is_well_formed() {
                        return false;
                    }
                    i += 1;
                }
                assert forall|a: int, b: int| 0 <= a < b < model.len() implies (#[trigger] model[a]).0
                    != (#[trigger] model[b]).0 by {
                    lemma_find(model, model[b].0);
                }
                assert forall|j: int| 0 <= j < model.len() implies (#[trigger] model[j]).1.wf() by {
                    assert(entries@[j].1@.wf());
                }
                true
            },
            _ => true,
        }
    }
}

/// The index of the first entry keyed by `key`, or the number of entries.
pub fn position(entries: &Vec<(String, Document)>, key: &String) -> (r: usize)
    ensures
        r == find(entries_tree(entries@), key@),
        r <= entries.len(),
{
    let ghost model = entries_tree(entries@);
    let mut i: usize = 0;
    while i < entries.len()
        invariant
            i <= entries.len(),
            model == entries_tree(entries@),
            forall|j: int| 0 <= j < i ==> (#[trigger] model[j]).0 != key@,
        decreases entries.len() - i,
    {
        if entries[i].0 == *key {
            proof {
                lemma_find_is(model, key@, i as int);
            }
            return i;
        }
        i += 1;
    }
    proof {
        lemma_find_is(model, key@, i as int);
    }
    i
}

impl Clone for Document {
    /// A deep copy.
    fn clone(&self) -> (r: Document)
        ensures
            r@ == self@,
        decreases self,
    {
        match self {
            Document::Null => Document::Null,
            Document::Boolean(b) => Document::Boolean(*b),
            Document::Number(n) => Document::Number(*n),
            Document::Text(s) => Document::Text(s.clone()),
            Document::Sequence(items) => {
                let mut out: Vec<Document> = Vec::new();
                let mut i: usize = 0;
                while i < items.len()
                    invariant
                        self == Document::Sequence(*items),
                        i <= items.len(),
                        out.len() == i,
                        forall|j: int| 0 <= j < i ==> (#[trigger] out@[j])@ == items@[j]@,
                    decreases items.len() - i,
                {
                    proof {
                        assert(decreases_to!(self => self->Sequence_0));
                        assert(decreases_to!(items => items@));
                        assert(decreases_to!(items@ => items@[i as int]));
                    }
                    let d = items[i].clone();
                    out.push(d);
                    i += 1;
                }
                proof {
                    Document::lemma_sequence_tree(out);
                    Document::lemma_sequence_tree(*items);
                    assert(items_tree(out@) =~= items_tree(items@));
                }
                Document::Sequence(out)
            },
            Document::Mapping(entries) => {
                let mut out: Vec<(String, Document)> = Vec::new();
                let mut i: usize = 0;
                while i < entries.len()
                    invariant
                        self == Document::Mapping(*entries),
                        i <= entries.len(),
                        out.len() == i,
                        forall|j: int|
                            0 <= j < i ==> (#[trigger] out@[j]).0@ == entries@[j].0@ && out@[j].1@
                                == entries@[j].1@,
                    decreases entries.len() - i,
                {
                    proof {
                        assert(decreases_to!(self => self->Mapping_0));
                        assert(decreases_to!(entries => entries@));
                        assert(decreases_to!(entries@ => entries@[i as int]));
                        assert(decreases_to!(entries@[i as int] => entries@[i as int].1));
                    }
                    let k = entries[i].0.clone();
                    let d = entries[i].1.clone();
                    out.push((k, d));
                    i += 1;
                }
                proof {
                    Document::lemma_mapping_tree(out);
                    Document::lemma_mapping_tree(*entries);
                    assert(entries_tree(out@) =~= entries_tree(entries@));
                }
                Document::Mapping(out)
            },
        }
    }
}

} // verus!
