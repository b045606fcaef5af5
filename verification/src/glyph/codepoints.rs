//! A collection of codepoints that keeps their order and holds each only once.

use vstd::prelude::*;

verus! {

/// The ordered set of the `indexmap` crate.
#[verifier::external_type_specification]
#[verifier::external_body]
#[verifier::reject_recursive_types(T)]
#[verifier::reject_recursive_types(S)]
pub struct ExIndexSet<T, S>(indexmap::IndexSet<T, S>);

/// The items of an ordered set of characters, in their order.
pub uninterp spec fn index_set_items(s: indexmap::IndexSet<char>) -> Seq<char>;

/// `indexmap::IndexSet::new`: an empty set.
#[verifier::external_body]
fn index_set_new() -> (res: indexmap::IndexSet<char>)
    ensures
        index_set_items(res) == Seq::<char>::empty(),
{
    indexmap::IndexSet::new()
}

/// `indexmap::IndexSet::insert`: an item that is not in the set goes to its end and
/// `true` is returned; otherwise the set is unchanged and `false` is returned.
#[verifier::external_body]
fn index_set_insert(s: &mut indexmap::IndexSet<char>, c: char) -> (res: bool)
    ensures
        res == !index_set_items(*old(s)).contains(c),
        res ==> index_set_items(*final(s)) == index_set_items(*old(s)).push(c),
        !res ==> index_set_items(*final(s)) == index_set_items(*old(s)),
{
    s.insert(c)
}

/// `indexmap::IndexSet::contains`: whether the item is in the set.
#[verifier::external_body]
fn index_set_contains(s: &indexmap::IndexSet<char>, c: char) -> (res: bool)
    ensures
        res == index_set_items(*s).contains(c),
{
    s.contains(&c)
}

/// `indexmap::IndexSet::len`: the number of items.
#[verifier::external_body]
fn index_set_len(s: &indexmap::IndexSet<char>) -> (res: usize)
    ensures
        res == index_set_items(*s).len(),
{
    s.len()
}

/// `indexmap::IndexSet::clear`: no item is left.
#[verifier::external_body]
fn index_set_clear(s: &mut indexmap::IndexSet<char>)
    ensures
        index_set_items(*final(s)) == Seq::<char>::empty(),
{
    s.clear()
}

/// `indexmap::IndexSet::iter`, each item copied out: the items in their order.
#[verifier::external_body]
fn index_set_to_vec(s: &indexmap::IndexSet<char>) -> (res: Vec<char>)
    ensures
        res@ == index_set_items(*s),
{
    s.iter().copied().collect()
}

/// `Clone::clone` on the set: the same items in the same order.
#[verifier::external_body]
fn index_set_clone(s: &indexmap::IndexSet<char>) -> (res: indexmap::IndexSet<char>)
    ensures
        index_set_items(res) == index_set_items(*s),
{
    s.clone()
}

/// The items of `src` in order, each kept at its first occurrence only.
pub open spec fn dedup_first(src: Seq<char>) -> Seq<char>
    decreases src.len(),
{
    if src.len() == 0 {
        Seq::empty()
    } else {
        let r = dedup_first(src.drop_last());
        if r.contains(src.last()) {
            r
        } else {
            r.push(src.last())
        }
    }
}

/// A glyph's codepoints hold each codepoint once, and exactly the codepoints given.
pub proof fn law_codepoints_distinct(src: Seq<char>)
    ensures
        forall|i: int, j: int| 0 <= i < j < dedup_first(src).len() ==> dedup_first(src)[i] != dedup_first(src)[j],
        forall|c: char| dedup_first(src).contains(c) <==> src.contains(c),
    decreases src.len(),
{
    if src.len() > 0 {
        let p = src.drop_last();
        law_codepoints_distinct(p);
        let r = dedup_first(p);
        let d = dedup_first(src);
        let last = src.last();
        assert forall|c: char| src.contains(c) <==> (p.contains(c) || c == last) by {
            if src.contains(c) {
                let k = choose|k: int| 0 <= k < src.len() && src[k] == c;
                if k < src.len() - 1 {
                    assert(p[k] == c);
                }
            }
            if p.contains(c) {
                let k = choose|k: int| 0 <= k < p.len() && p[k] == c;
                assert(src[k] == c);
            }
            if c == last {
                assert(src[src.len() - 1] == c);
            }
        }
        if r.contains(last) {
            assert(d == r);
        } else {
            assert(d == r.push(last));
            assert forall|c: char| d.contains(c) <==> (r.contains(c) || c == last) by {
                if d.contains(c) {
                    let k = choose|k: int| 0 <= k < d.len() && d[k] == c;
                    if k < r.len() {
                        assert(r[k] == c);
                    }
                }
                if r.contains(c) {
                    let k = choose|k: int| 0 <= k < r.len() && r[k] == c;
                    assert(d[k] == c);
                }
                if c == last {
                    assert(d[r.len() as int] == c);
                }
            }
        }
    }
}

/// A set of Unicode codepoints, in the order they were added, each held once.
#[derive(Debug)]
pub struct Codepoints {
    inner: indexmap::IndexSet<char>,
}

impl View for Codepoints {
    type V = Seq<char>;

    closed spec fn view(&self) -> Seq<char> {
        index_set_items(self.inner)
    }
}

impl Clone for Codepoints {
    fn clone(&self) -> (res: Self)
        ensures
            res@ == self@,
    {
        Codepoints { inner: index_set_clone(&self.inner) }
    }
}

impl Codepoints {
    /// Returns an empty set of codepoints.
    pub fn empty() -> (res: Self)
        ensures
            res@ == Seq::<char>::empty(),
    {
        Codepoints { inner: index_set_new() }
    }

    /// Returns the codepoints of `src`, in order, each kept at its first occurrence.
    pub fn new(src: &[char]) -> (res: Self)
        ensures
            res@ == dedup_first(src@),
    {
        let mut this = Codepoints::empty();
        this.set(src);
        this
    }

    /// Returns the number of codepoints.
    pub fn len(&self) -> (res: usize)
        ensures
            res == self@.len(),
    {
        index_set_len(&self.inner)
    }

    /// Returns true if there are no codepoints.
    pub fn is_empty(&self) -> (res: bool)
        ensures
            res == (self@.len() == 0),
    {
        index_set_len(&self.inner) == 0
    }

    /// Replaces the codepoints by those of `codepoints`, in order, each kept at its first
    /// occurrence.
    pub fn set(&mut self, codepoints: &[char])
        ensures
            final(self)@ == dedup_first(codepoints@),
    {
        index_set_clear(&mut self.inner);
        let mut i: usize = 0;
        while i < codepoints.len()
            invariant
                0 <= i <= codepoints@.len(),
                index_set_items(self.inner) == dedup_first(codepoints@.subrange(0, i as int)),
            decreases codepoints@.len() - i,
        {
            proof {
                let t = codepoints@.subrange(0, i + 1);
                assert(t.drop_last() =~= codepoints@.subrange(0, i as int));
            }
            index_set_insert(&mut self.inner, codepoints[i]);
            i += 1;
        }
        assert(codepoints@.subrange(0, codepoints@.len() as int) =~= codepoints@);
    }

    /// Removes all codepoints.
    pub fn clear(&mut self)
        ensures
            final(self)@ == Seq::<char>::empty(),
    {
        index_set_clear(&mut self.inner)
    }

    /// Returns true if the codepoint is in the set.
    pub fn contains(&self, codepoint: char) -> (res: bool)
        ensures
            res == self@.contains(codepoint),
    {
        index_set_contains(&self.inner, codepoint)
    }

    /// Inserts a codepoint at the end, unless it is in the set already, in which case
    /// the order is unchanged. Returns `true` if the codepoint was not in the set.
    pub fn insert(&mut self, codepoint: char) -> (res: bool)
        ensures
            res == !old(self)@.contains(codepoint),
            res ==> final(self)@ == old(self)@.push(codepoint),
            !res ==> final(self)@ == old(self)@,
    {
        index_set_insert(&mut self.inner, codepoint)
    }

    /// Returns the codepoints, in order.
    pub fn iter(&self) -> (res: Vec<char>)
        ensures
            res@ == self@,
    {
        index_set_to_vec(&self.inner)
    }
}

} // verus!
