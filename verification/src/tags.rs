//! Sets of tags.

use vstd::prelude::*;
use vstd::string::StringExecFns;

verus! {

/// The characters of each string of `v`, in order.
pub open spec fn strings_view(v: Seq<String>) -> Seq<Seq<char>> {
    v.map_values(|s: String| s@)
}

/// A set of tags. Tags are compared exactly (case-sensitive); the set keeps
/// the order in which its tags were first added.
#[derive(Debug)]
pub struct TagSet {
    items: Vec<String>,
}

impl View for TagSet {
    type V = Seq<Seq<char>>;

    closed spec fn view(&self) -> Seq<Seq<char>> {
        strings_view(self.items@)
    }
}

impl Clone for TagSet {
    fn clone(&self) -> (r: Self)
        ensures
            r@ == self@,
    {
        proof {
            use_type_invariant(self);
        }
        TagSet { items: clone_strings(&self.items) }
    }
}

impl Default for TagSet {
    fn default() -> (r: Self)
        ensures
            r@ == Seq::<Seq<char>>::empty(),
    {
        TagSet::new()
    }
}

/// A copy of `v`, string by string.
pub fn clone_strings(v: &Vec<String>) -> (r: Vec<String>)
    ensures
        strings_view(r@) == strings_view(v@),
{
    let mut r: Vec<String> = Vec::new();
    let mut i: usize = 0;
    while i < v.len()
        invariant
            i <= v.len(),
            strings_view(r@) == strings_view(v@).take(i as int),
        decreases v.len() - i,
    {
        let ghost before = strings_view(r@);
        r.push(v[i].clone());
        assert(strings_view(r@) =~= before.push(v@[i as int]@));
        assert(strings_view(v@).take(i as int + 1) =~= strings_view(v@).take(i as int).push(
            v@[i as int]@,
        ));
        i += 1;
    }
    assert(strings_view(v@).take(v.len() as int) =~= strings_view(v@));
    r
}

impl TagSet {
    /// No tag occurs twice.
    #[verifier::type_invariant]
    pub open spec fn wf(&self) -> bool {
        self@.no_duplicates()
    }

    /// The empty set.
    pub fn new() -> (r: Self)
        ensures
            r@ == Seq::<Seq<char>>::empty(),
    {
        let r = TagSet { items: Vec::new() };
        assert(r@ =~= Seq::<Seq<char>>::empty());
        r
    }

    /// Whether the set has no tag.
    pub fn is_empty(&self) -> (r: bool)
        ensures
            r == (self@.len() == 0),
    {
        self.items.len() == 0
    }

    /// The number of tags.
    pub fn len(&self) -> (n: usize)
        ensures
            n == self@.len(),
    {
        self.items.len()
    }

    /// Whether `tag` is in the set.
    pub fn contains(&self, tag: &str) -> (r: bool)
        ensures
            r == self@.contains(tag@),
    {
        let needle = String::from_str(tag);
        let mut i: usize = 0;
        while i < self.items.len()
            invariant
                i <= self.items.len(),
                needle@ == tag@,
                forall|j: int| 0 <= j < i ==> self@[j] != tag@,
            decreases self.items.len() - i,
        {
            if self.items[i] == needle {
                assert(self@[i as int] == tag@);
                return true;
            }
            i += 1;
        }
        false
    }

    /// Adds `tag`; says whether it was newly added.
    pub fn insert(&mut self, tag: String) -> (added: bool)
        ensures
            added == !old(self)@.contains(tag@),
            final(self)@ == with_tag(old(self)@, tag@),
    {
        if self.contains(tag.as_str()) {
            false
        } else {
            proof {
                use_type_invariant(&*self);
            }
            let ghost before = self@;
            let mut items: Vec<String> = Vec::new();
            std::mem::swap(&mut items, &mut self.items);
            items.push(tag);
            proof {
                assert(strings_view(items@) =~= before.push(tag@));
                assert(before.push(tag@).no_duplicates());
            }
            self.items = items;
            true
        }
    }

    /// Removes `tag`; says whether it was present.
    pub fn remove(&mut self, tag: &str) -> (removed: bool)
        ensures
            removed == old(self)@.contains(tag@),
            final(self)@ == without_tag(old(self)@, tag@),
    {
        proof {
            use_type_invariant(&*self);
        }
        let needle = String::from_str(tag);
        let mut i: usize = 0;
        while i < self.items.len()
            invariant
                i <= self.items.len(),
                needle@ == tag@,
                self@ == old(self)@,
                self@.no_duplicates(),
                forall|j: int| 0 <= j < i ==> self@[j] != tag@,
            decreases self.items.len() - i,
        {
            if self.items[i] == needle {
                let ghost before = self@;
                assert(before[i as int] == tag@);
                let mut items: Vec<String> = Vec::new();
                std::mem::swap(&mut items, &mut self.items);
                items.remove(i);
                proof {
                    assert(strings_view(items@) =~= before.remove(i as int));
                    assert(before.remove(i as int).no_duplicates());
                    lemma_remove_is_filter(before, i as int, other_than(tag@));
                }
                self.items = items;
                return true;
            }
            i += 1;
        }
        proof {
            lemma_filter_all(self@, other_than(tag@));
        }
        false
    }

    /// Whether the two sets have a tag in common.
    pub fn intersects(&self, other: &TagSet) -> (r: bool)
        ensures
            r == share_tag(self@, other@),
    {
        let mut i: usize = 0;
        while i < self.items.len()
            invariant
                i <= self.items.len(),
                forall|j: int| 0 <= j < i ==> !other@.contains(self@[j]),
            decreases self.items.len() - i,
        {
            if other.contains(self.items[i].as_str()) {
                assert(self@.contains(self@[i as int]));
                return true;
            }
            i += 1;
        }
        false
    }

    /// The set of the strings of `tags`, each kept at its first occurrence.
    pub fn from_vec(tags: Vec<String>) -> (r: Self)
        ensures
            r@ == distinct(strings_view(tags@)),
    {
        let mut r = TagSet::new();
        let mut i: usize = 0;
        while i < tags.len()
            invariant
                i <= tags.len(),
                r@ == distinct(strings_view(tags@).take(i as int)),
            decreases tags.len() - i,
        {
            let tag = tags[i].clone();
            proof {
                let all = strings_view(tags@);
                assert(all.take(i as int + 1).drop_last() =~= all.take(i as int));
                assert(all.take(i as int + 1).last() == tag@);
            }
            r.insert(tag);
            i += 1;
        }
        assert(strings_view(tags@).take(tags.len() as int) =~= strings_view(tags@));
        r
    }

    /// The tags, in the order of the set.
    pub fn to_vec(&self) -> (r: Vec<String>)
        ensures
            strings_view(r@) == self@,
    {
        clone_strings(&self.items)
    }
}

/// `s` with `tag` added at the end, unless it is there already.
pub open spec fn with_tag(s: Seq<Seq<char>>, tag: Seq<char>) -> Seq<Seq<char>> {
    if s.contains(tag) {
        s
    } else {
        s.push(tag)
    }
}

/// Whether a tag is another than `tag`.
pub open spec fn other_than(tag: Seq<char>) -> spec_fn(Seq<char>) -> bool {
    |t: Seq<char>| t != tag
}

/// `s` without `tag`.
pub open spec fn without_tag(s: Seq<Seq<char>>, tag: Seq<char>) -> Seq<Seq<char>> {
    s.filter(other_than(tag))
}

/// Whether some tag is in both `a` and `b`.
pub open spec fn share_tag(a: Seq<Seq<char>>, b: Seq<Seq<char>>) -> bool {
    exists|t: Seq<char>| a.contains(t) && b.contains(t)
}

/// The strings of `s` in order, each kept at its first occurrence only.
pub open spec fn distinct(s: Seq<Seq<char>>) -> Seq<Seq<char>>
    decreases s.len(),
{
    if s.len() == 0 {
        Seq::empty()
    } else {
        with_tag(distinct(s.drop_last()), s.last())
    }
}

/// Taking a tag from tags without duplicates leaves no duplicates.
pub proof fn lemma_without_tag_no_duplicates(s: Seq<Seq<char>>, tag: Seq<char>)
    requires
        s.no_duplicates(),
    ensures
        without_tag(s, tag).no_duplicates(),
{
    crate::store::lemma_filter_keeps_no_duplicates(s, other_than(tag));
}

/// A sequence whose items all satisfy `pred` is its own filter.
pub proof fn lemma_filter_all<A>(s: Seq<A>, pred: spec_fn(A) -> bool)
    requires
        forall|j: int| 0 <= j < s.len() ==> pred(s[j]),
    ensures
        s.filter(pred) == s,
    decreases s.len(),
{
    reveal(Seq::filter);
    if s.len() > 0 {
        lemma_filter_all(s.drop_last(), pred);
        assert(s.drop_last().push(s.last()) =~= s);
    }
}

/// Where exactly the item at `i` fails `pred`, filtering removes that item.
pub proof fn lemma_remove_is_filter<A>(s: Seq<A>, i: int, pred: spec_fn(A) -> bool)
    requires
        0 <= i < s.len(),
        !pred(s[i]),
        forall|j: int| 0 <= j < s.len() && j != i ==> pred(s[j]),
    ensures
        s.filter(pred) == s.remove(i),
    decreases s.len(),
{
    reveal(Seq::filter);
    if i == s.len() - 1 {
        lemma_filter_all(s.drop_last(), pred);
        assert(s.remove(i) =~= s.drop_last());
    } else {
        lemma_remove_is_filter(s.drop_last(), i, pred);
        assert(s.remove(i) =~= s.drop_last().remove(i).push(s.last()));
    }
}

} // verus!
