//! The page of each window class.

use vstd::prelude::*;
use vstd::string::StringExecFns;

verus! {

/// The page that one window class stands at.
#[derive(Debug)]
pub struct PageEntry {
    pub wm_class: String,
    pub page: usize,
}

/// The window classes of `v`, in order.
pub open spec fn page_keys(v: Seq<PageEntry>) -> Seq<Seq<char>> {
    v.map_values(|e: PageEntry| e.wm_class@)
}

/// The page of each window class that has one.
#[derive(Debug)]
pub struct PageTable {
    entries: Vec<PageEntry>,
}

impl View for PageTable {
    type V = Map<Seq<char>, usize>;

    closed spec fn view(&self) -> Map<Seq<char>, usize> {
        Map::new(
            |k: Seq<char>| page_keys(self.entries@).contains(k),
            |k: Seq<char>| self.entries@[page_keys(self.entries@).index_of(k)].page,
        )
    }
}

impl Default for PageTable {
    fn default() -> (r: Self)
        ensures
            r@ == Map::<Seq<char>, usize>::empty(),
    {
        PageTable::new()
    }
}

impl PageTable {
    /// No window class occurs twice.
    #[verifier::type_invariant]
    closed spec fn wf(&self) -> bool {
        page_keys(self.entries@).no_duplicates()
    }

    /// The table in which no window class has a page.
    pub fn new() -> (r: Self)
        ensures
            r@ == Map::<Seq<char>, usize>::empty(),
    {
        let r = PageTable { entries: Vec::new() };
        assert(r@ =~= Map::<Seq<char>, usize>::empty());
        r
    }

    /// Where `wm_class` stands in the table, if it has a page.
    fn find(&self, wm_class: &str) -> (r: Option<usize>)
        ensures
            match r {
                Some(i) => i < self.entries.len() && self.entries@[i as int].wm_class@ == wm_class@
                    && self@.contains_key(wm_class@) && self@[wm_class@]
                    == self.entries@[i as int].page,
                None => !self@.contains_key(wm_class@),
            },
    {
        proof {
            use_type_invariant(self);
        }
        let needle = String::from_str(wm_class);
        let mut i: usize = 0;
        while i < self.entries.len()
            invariant
                i <= self.entries.len(),
                needle@ == wm_class@,
                page_keys(self.entries@).no_duplicates(),
                forall|j: int| 0 <= j < i ==> page_keys(self.entries@)[j] != wm_class@,
            decreases self.entries.len() - i,
        {
            if self.entries[i].wm_class == needle {
                proof {
                    let keys = page_keys(self.entries@);
                    assert(keys[i as int] == wm_class@);
                    let k = keys.index_of(wm_class@);
                    assert(0 <= k < keys.len() && keys[k] == keys[i as int]);
                }
                return Some(i);
            }
            i += 1;
        }
        None
    }

    /// The page of `wm_class`, if it has one.
    pub fn get(&self, wm_class: &str) -> (r: Option<usize>)
        ensures
            r == (if self@.contains_key(wm_class@) {
                Some(self@[wm_class@])
            } else {
                None
            }),
    {
        match self.find(wm_class) {
            Some(i) => Some(self.entries[i].page),
            None => None,
        }
    }

    /// Gives `wm_class` the page `page`.
    pub fn set(&mut self, wm_class: &str, page: usize)
        ensures
            final(self)@ == old(self)@.insert(wm_class@, page),
    {
        proof {
            use_type_invariant(&*self);
        }
        let ghost before = self@;
        let ghost old_entries = self.entries@;
        let ghost old_keys = page_keys(self.entries@);
        let found = self.find(wm_class);
        let mut entries: Vec<PageEntry> = Vec::new();
        std::mem::swap(&mut entries, &mut self.entries);
        let entry = PageEntry { wm_class: String::from_str(wm_class), page };
        match found {
            Some(i) => {
                entries.remove(i);
                entries.insert(i, entry);
                assert(entries@ =~= old_entries.update(i as int, entry));
                assert(page_keys(entries@) =~= old_keys);
            },
            None => {
                entries.push(entry);
                assert(entries@ =~= old_entries.push(entry));
                assert(page_keys(entries@) =~= old_keys.push(wm_class@));
            },
        }
        self.entries = entries;
        proof {
            let keys = page_keys(self.entries@);
            assert forall|k: Seq<char>| #[trigger]
                self@.contains_key(k) == before.insert(wm_class@, page).contains_key(k) by {
                if old_keys.contains(k) {
                    let j = old_keys.index_of(k);
                    assert(keys[j] == k);
                }
                if keys.contains(k) && k != wm_class@ {
                    let j = keys.index_of(k);
                    assert(old_keys[j] == k);
                }
                if k == wm_class@ {
                    if found is Some {
                        assert(keys[found->0 as int] == k);
                    } else {
                        assert(keys[keys.len() - 1] == k);
                    }
                }
            }
            assert forall|k: Seq<char>| self@.contains_key(k) implies #[trigger] self@[k]
                == before.insert(wm_class@, page)[k] by {
                let j = keys.index_of(k);
                assert(0 <= j < keys.len() && keys[j] == k);
                assert(keys.no_duplicates());
                if k != wm_class@ {
                    assert(old_keys[j] == k);
                    let j0 = old_keys.index_of(k);
                    assert(0 <= j0 < old_keys.len() && old_keys[j0] == old_keys[j]);
                    assert(self.entries@[j] == old_entries[j]);
                } else {
                    if found is Some {
                        assert(keys[found->0 as int] == keys[j]);
                    } else {
                        assert(keys[keys.len() - 1] == keys[j]);
                    }
                    assert(self.entries@[j].page == page);
                }
            }
            assert(self@ =~= before.insert(wm_class@, page));
        }
    }
}

} // verus!
