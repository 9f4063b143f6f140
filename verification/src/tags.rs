//! Key-value tags: records carry them, retrieval filters on them.

use vstd::prelude::*;
use vstd::string::StrSliceExecFns;

verus! {

/// One `key = value` tag, attached to a memory record or used in a
/// retrieval filter.
pub struct TagPair {
    pub key: String,
    pub value: String,
}

impl View for TagPair {
    type V = (Seq<char>, Seq<char>);

    open spec fn view(&self) -> (Seq<char>, Seq<char>) {
        (self.key@, self.value@)
    }
}

/// `tags` holds a pair equal to `p`.
pub open spec fn has_pair(tags: Seq<TagPair>, p: (Seq<char>, Seq<char>)) -> bool {
    exists|i: int| 0 <= i < tags.len() && tags[i]@ == p
}

/// Every pair of `filter` occurs in `tags`: the tags are a superset of the
/// filter.  An empty filter matches everything.
pub open spec fn tags_match(filter: Seq<TagPair>, tags: Seq<TagPair>) -> bool {
    forall|i: int| 0 <= i < filter.len() ==> has_pair(tags, #[trigger] filter[i]@)
}

/// Character-for-character equality of two string slices.
pub fn str_eq(a: &str, b: &str) -> (r: bool)
    ensures
        r == (a@ == b@),
{
    let alen = a.unicode_len();
    let blen = b.unicode_len();
    if alen != blen {
        return false;
    }
    let mut i: usize = 0;
    while i < alen
        invariant
            i <= alen,
            alen == a@.len(),
            alen == b@.len(),
            forall|j: int| 0 <= j < i ==> a@[j] == b@[j],
        decreases alen - i,
    {
        if a.get_char(i) != b.get_char(i) {
            return false;
        }
        i = i + 1;
    }
    proof {
        assert(a@ =~= b@);
    }
    true
}

impl TagPair {
    /// The two pairs hold the same key and the same value.
    pub fn matches(&self, other: &TagPair) -> (r: bool)
        ensures
            r == (self@ == other@),
    {
        self.key == other.key && self.value == other.value
    }

    /// A copy of the pair, equal to the original.
    pub fn duplicate(&self) -> (r: TagPair)
        ensures
            r == *self,
    {
        TagPair { key: self.key.clone(), value: self.value.clone() }
    }
}

/// An element-for-element copy of a tag list, equal to the original.
pub fn dup_tags(v: &Vec<TagPair>) -> (r: Vec<TagPair>)
    ensures
        r@ == v@,
{
    let mut r: Vec<TagPair> = Vec::new();
    let mut i: usize = 0;
    while i < v.len()
        invariant
            i <= v@.len(),
            r@.len() == i,
            forall|j: int| 0 <= j < i ==> r@[j] == v@[j],
        decreases v@.len() - i,
    {
        r.push(v[i].duplicate());
        i = i + 1;
    }
    proof {
        assert(r@ =~= v@);
    }
    r
}

/// `tags` holds a pair equal to `p`.
pub fn has_pair_exec(tags: &Vec<TagPair>, p: &TagPair) -> (r: bool)
    ensures
        r == has_pair(tags@, p@),
{
    let mut i: usize = 0;
    while i < tags.len()
        invariant
            i <= tags@.len(),
            forall|j: int| 0 <= j < i ==> tags@[j]@ != p@,
        decreases tags@.len() - i,
    {
        if tags[i].matches(p) {
            return true;
        }
        i = i + 1;
    }
    false
}

/// Every pair of `filter` occurs in `tags`.
pub fn tags_match_exec(filter: &Vec<TagPair>, tags: &Vec<TagPair>) -> (r: bool)
    ensures
        r == tags_match(filter@, tags@),
{
    let mut i: usize = 0;
    while i < filter.len()
        invariant
            i <= filter@.len(),
            forall|j: int| 0 <= j < i ==> has_pair(tags@, #[trigger] filter@[j]@),
        decreases filter@.len() - i,
    {
        if !has_pair_exec(tags, &filter[i]) {
            return false;
        }
        i = i + 1;
    }
    true
}

} // verus!
