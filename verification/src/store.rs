//! The content store: entries by name, tags by window class, and the
//! resolver that matches the two.

use vstd::prelude::*;
use vstd::string::StringExecFns;
use crate::error::Failure;
use crate::model::CheatsheetImage;
use crate::model::CheatsheetTags;
use crate::model::CheatsheetsInfo;
use crate::model::ImageView;
use crate::model::TagsEither;
use crate::model::TagsView;
use crate::model::WmClassTags;
use crate::tags::share_tag;
use crate::tags::with_tag;
use crate::tags::without_tag;
use crate::tags::TagSet;

verus! {

/// What is stored beside an entry's image.
#[derive(Debug)]
pub struct CheatsheetMetadata {
    pub tags: TagSet,
}

/// An entry's image.
#[derive(Debug)]
pub struct Cheatsheet {
    pub image: CheatsheetImage,
}

impl Default for CheatsheetMetadata {
    fn default() -> (r: Self)
        ensures
            r.tags@ == Seq::<Seq<char>>::empty(),
    {
        CheatsheetMetadata { tags: TagSet::new() }
    }
}

impl Clone for CheatsheetMetadata {
    fn clone(&self) -> (r: Self)
        ensures
            r.tags@ == self.tags@,
    {
        CheatsheetMetadata { tags: self.tags.clone() }
    }
}

impl Clone for Cheatsheet {
    fn clone(&self) -> (r: Self)
        ensures
            r.image@ == self.image@,
    {
        Cheatsheet { image: self.image.clone() }
    }
}

/// A named, tagged image as the store holds it.
#[derive(Debug)]
pub struct Entry {
    pub name: String,
    pub metadata: CheatsheetMetadata,
    pub sheet: Cheatsheet,
}

/// An entry as plain values.
#[verifier::ext_equal]
pub struct SheetView {
    pub name: Seq<char>,
    pub tags: Seq<Seq<char>>,
    pub image: ImageView,
}

impl View for Entry {
    type V = SheetView;

    open spec fn view(&self) -> SheetView {
        SheetView { name: self.name@, tags: self.metadata.tags@, image: self.sheet.image@ }
    }
}

impl Clone for Entry {
    fn clone(&self) -> (r: Self)
        ensures
            r@ == self@,
    {
        Entry {
            name: self.name.clone(),
            metadata: self.metadata.clone(),
            sheet: self.sheet.clone(),
        }
    }
}

/// The tags of a window class as the store holds them.
#[derive(Debug)]
pub struct WmClassEntry {
    pub wm_class: String,
    pub tags: TagSet,
}

impl View for WmClassEntry {
    type V = TagsView;

    open spec fn view(&self) -> TagsView {
        TagsView { key: self.wm_class@, tags: self.tags@ }
    }
}

impl Clone for WmClassEntry {
    fn clone(&self) -> (r: Self)
        ensures
            r@ == self@,
    {
        WmClassEntry { wm_class: self.wm_class.clone(), tags: self.tags.clone() }
    }
}

/// The content store as plain values: the entries and the window classes,
/// each in the order in which the store walks them.
#[verifier::ext_equal]
pub struct StoreView {
    pub sheets: Seq<SheetView>,
    pub wm_classes: Seq<TagsView>,
}

impl StoreView {
    /// The names of the entries, in store order.
    pub open spec fn names(self) -> Seq<Seq<char>> {
        self.sheets.map_values(|s: SheetView| s.name)
    }

    /// The window classes, in store order.
    pub open spec fn wm_keys(self) -> Seq<Seq<char>> {
        self.wm_classes.map_values(|w: TagsView| w.key)
    }

    /// No entry name and no window class occurs twice, and no tag occurs
    /// twice in one tag set.
    pub open spec fn wf(self) -> bool {
        &&& self.names().no_duplicates()
        &&& self.wm_keys().no_duplicates()
        &&& forall|i: int| 0 <= i < self.sheets.len() ==> (#[trigger] self.sheets[i]).tags.no_duplicates()
        &&& forall|i: int|
            0 <= i < self.wm_classes.len() ==> (#[trigger] self.wm_classes[i]).tags.no_duplicates()
    }

    /// The store without entries and window classes.
    pub open spec fn empty() -> StoreView {
        StoreView { sheets: Seq::empty(), wm_classes: Seq::empty() }
    }

    /// Whether an entry is named `name`.
    pub open spec fn has_sheet(self, name: Seq<char>) -> bool {
        self.names().contains(name)
    }

    /// Where the entry named `name` stands.
    pub open spec fn sheet_pos(self, name: Seq<char>) -> int {
        self.names().index_of(name)
    }

    /// The entry named `name`.
    pub open spec fn sheet(self, name: Seq<char>) -> SheetView {
        self.sheets[self.sheet_pos(name)]
    }

    /// Whether the window class `wm_class` has a tag set.
    pub open spec fn has_wm_class(self, wm_class: Seq<char>) -> bool {
        self.wm_keys().contains(wm_class)
    }

    /// Where the window class `wm_class` stands.
    pub open spec fn wm_pos(self, wm_class: Seq<char>) -> int {
        self.wm_keys().index_of(wm_class)
    }

    /// The tags of the window class `wm_class`; none where it is unknown.
    pub open spec fn wm_tags(self, wm_class: Seq<char>) -> Seq<Seq<char>> {
        if self.has_wm_class(wm_class) {
            self.wm_classes[self.wm_pos(wm_class)].tags
        } else {
            Seq::empty()
        }
    }

    /// The store after `sheet` was put in: in the place of the entry of its
    /// name, or else behind all entries.
    pub open spec fn insert(self, sheet: SheetView) -> StoreView {
        if self.has_sheet(sheet.name) {
            StoreView { sheets: self.sheets.update(self.sheet_pos(sheet.name), sheet), ..self }
        } else {
            StoreView { sheets: self.sheets.push(sheet), ..self }
        }
    }

    /// The store without the entry named `name`.
    pub open spec fn remove(self, name: Seq<char>) -> StoreView {
        StoreView { sheets: self.sheets.filter(|s: SheetView| s.name != name), ..self }
    }

    /// The store after the entry named `name` got the tags `tags`.
    pub open spec fn set_tags(self, name: Seq<char>, tags: Seq<Seq<char>>) -> StoreView {
        StoreView {
            sheets: self.sheets.update(
                self.sheet_pos(name),
                SheetView { tags: tags, ..self.sheet(name) },
            ),
            ..self
        }
    }

    /// The store after `tag` was added to the entry named `name`.
    pub open spec fn add_tag(self, name: Seq<char>, tag: Seq<char>) -> StoreView {
        self.set_tags(name, with_tag(self.sheet(name).tags, tag))
    }

    /// The store after `tag` was taken from the entry named `name`.
    pub open spec fn remove_tag(self, name: Seq<char>, tag: Seq<char>) -> StoreView {
        self.set_tags(name, without_tag(self.sheet(name).tags, tag))
    }

    /// The store after the window class `wm_class` got the tags `tags`.
    pub open spec fn set_wm_tags(self, wm_class: Seq<char>, tags: Seq<Seq<char>>) -> StoreView {
        if self.has_wm_class(wm_class) {
            StoreView {
                wm_classes: self.wm_classes.update(
                    self.wm_pos(wm_class),
                    TagsView { key: wm_class, tags: tags },
                ),
                ..self
            }
        } else {
            StoreView {
                wm_classes: self.wm_classes.push(TagsView { key: wm_class, tags: tags }),
                ..self
            }
        }
    }

    /// The store after `tag` was added to the window class `wm_class`, which
    /// gets a tag set if it had none.
    pub open spec fn add_wm_class_tag(self, wm_class: Seq<char>, tag: Seq<char>) -> StoreView {
        self.set_wm_tags(wm_class, with_tag(self.wm_tags(wm_class), tag))
    }

    /// The store after `tag` was taken from the window class `wm_class`.
    pub open spec fn remove_wm_class_tag(self, wm_class: Seq<char>, tag: Seq<char>) -> StoreView {
        self.set_wm_tags(wm_class, without_tag(self.wm_tags(wm_class), tag))
    }

    /// The store after each tag of `tags` was added, in order, to the entry
    /// named `name`; the same store where there is no such entry.
    pub open spec fn add_tags(self, name: Seq<char>, tags: Seq<Seq<char>>) -> StoreView
        decreases tags.len(),
    {
        if tags.len() == 0 || !self.has_sheet(name) {
            self
        } else {
            self.add_tags(name, tags.drop_last()).add_tag(name, tags.last())
        }
    }

    /// The store after each tag of `tags` was taken, in order, from the entry
    /// named `name`; the same store where there is no such entry.
    pub open spec fn remove_tags(self, name: Seq<char>, tags: Seq<Seq<char>>) -> StoreView
        decreases tags.len(),
    {
        if tags.len() == 0 || !self.has_sheet(name) {
            self
        } else {
            self.remove_tags(name, tags.drop_last()).remove_tag(name, tags.last())
        }
    }

    /// The store after the entry named `name` lost all its tags; the same
    /// store where there is no such entry.
    pub open spec fn clear_tags(self, name: Seq<char>) -> StoreView {
        if self.has_sheet(name) {
            self.set_tags(name, Seq::empty())
        } else {
            self
        }
    }

    /// The store after each tag of `tags` was added, in order, to the window
    /// class `wm_class`.
    pub open spec fn add_wm_class_tags(self, wm_class: Seq<char>, tags: Seq<Seq<char>>) -> StoreView
        decreases tags.len(),
    {
        if tags.len() == 0 {
            self
        } else {
            self.add_wm_class_tags(wm_class, tags.drop_last()).add_wm_class_tag(
                wm_class,
                tags.last(),
            )
        }
    }

    /// The store after each tag of `tags` was taken, in order, from the
    /// window class `wm_class`; the same store where it has no tag set.
    pub open spec fn remove_wm_class_tags(
        self,
        wm_class: Seq<char>,
        tags: Seq<Seq<char>>,
    ) -> StoreView
        decreases tags.len(),
    {
        if tags.len() == 0 || !self.has_wm_class(wm_class) {
            self
        } else {
            self.remove_wm_class_tags(wm_class, tags.drop_last()).remove_wm_class_tag(
                wm_class,
                tags.last(),
            )
        }
    }

    /// The store after the window class `wm_class` lost all its tags, but
    /// kept its empty tag set; the same store where it has no tag set.
    pub open spec fn clear_wm_class_tags(self, wm_class: Seq<char>) -> StoreView {
        if self.has_wm_class(wm_class) {
            self.set_wm_tags(wm_class, Seq::empty())
        } else {
            self
        }
    }

    /// The entries that hold the tag `tag`, in store order.
    pub open spec fn tagged(self, tag: Seq<char>) -> Seq<SheetView> {
        self.sheets.filter(|s: SheetView| s.tags.contains(tag))
    }

    /// The entries that share a tag with the window class `wm_class`, in
    /// store order.
    pub open spec fn resolve(self, wm_class: Seq<char>) -> Seq<SheetView> {
        let wanted = self.wm_tags(wm_class);
        self.sheets.filter(|s: SheetView| share_tag(s.tags, wanted))
    }
}

/// A window class resolves to exactly those entries of the store that share a
/// tag with it: an entry whose tags are disjoint from the window class's is
/// never among them, and one that shares a tag always is.
pub proof fn law_resolve_is_exact(s: StoreView, wm_class: Seq<char>, sheet: SheetView)
    ensures
        s.resolve(wm_class).contains(sheet) <==> s.sheets.contains(sheet) && share_tag(
            sheet.tags,
            s.wm_tags(wm_class),
        ),
{
    let wanted = s.wm_tags(wm_class);
    let pred = |e: SheetView| share_tag(e.tags, wanted);
    let found = s.sheets.filter(pred);
    if found.contains(sheet) {
        let i = choose|i: int| 0 <= i < found.len() && found[i] == sheet;
        s.sheets.lemma_filter_pred(pred, i);
        s.sheets.lemma_filter_contains_rev(pred, sheet);
    }
    if s.sheets.contains(sheet) && pred(sheet) {
        let i = choose|i: int| 0 <= i < s.sheets.len() && s.sheets[i] == sheet;
        s.sheets.lemma_filter_contains(pred, i);
    }
}

/// What a window class resolves to stands in store order: of two resolved
/// entries, the one that comes first is the one that the store holds first.
pub proof fn law_resolve_keeps_store_order(s: StoreView, wm_class: Seq<char>, i: int, j: int)
    requires
        s.wf(),
        0 <= i < j < s.resolve(wm_class).len(),
    ensures
        s.has_sheet(s.resolve(wm_class)[i].name),
        s.has_sheet(s.resolve(wm_class)[j].name),
        s.sheet_pos(s.resolve(wm_class)[i].name) < s.sheet_pos(s.resolve(wm_class)[j].name),
{
    let wanted = s.wm_tags(wm_class);
    let pred = |e: SheetView| share_tag(e.tags, wanted);
    lemma_filter_positions(s.sheets, pred, i, j);
    let (a, b) = choose|a: int, b: int|
        0 <= a < b < s.sheets.len() && s.sheets[a] == s.sheets.filter(pred)[i] && s.sheets[b]
            == s.sheets.filter(pred)[j];
    assert(s.names()[a] == s.sheets[a].name);
    assert(s.names()[b] == s.sheets[b].name);
    lemma_index_of_unique(s.names(), a);
    lemma_index_of_unique(s.names(), b);
}

/// Two items of a filter come from two places of the sequence, in the same
/// order.
pub proof fn lemma_filter_positions<A>(s: Seq<A>, pred: spec_fn(A) -> bool, i: int, j: int)
    requires
        0 <= i < j < s.filter(pred).len(),
    ensures
        exists|a: int, b: int|
            0 <= a < b < s.len() && s[a] == s.filter(pred)[i] && s[b] == s.filter(pred)[j],
    decreases s.len(),
{
    reveal(Seq::filter);
    if s.len() > 0 {
        let rest = s.drop_last();
        let sub = rest.filter(pred);
        if j < sub.len() {
            lemma_filter_positions(rest, pred, i, j);
            let (a, b) = choose|a: int, b: int|
                0 <= a < b < rest.len() && rest[a] == sub[i] && rest[b] == sub[j];
            assert(0 <= a < b < s.len() && s[a] == s.filter(pred)[i] && s[b] == s.filter(pred)[j]);
        } else {
            assert(sub.contains(sub[i]));
            rest.lemma_filter_contains_rev(pred, sub[i]);
            let a = choose|a: int| 0 <= a < rest.len() && rest[a] == sub[i];
            let b = s.len() - 1;
            assert(0 <= a < b < s.len() && s[a] == s.filter(pred)[i] && s[b] == s.filter(pred)[j]);
        }
    }
}

/// What is left of a sequence without duplicates after filtering has no
/// duplicates.
pub proof fn lemma_filter_keeps_no_duplicates<A>(s: Seq<A>, pred: spec_fn(A) -> bool)
    requires
        s.no_duplicates(),
    ensures
        s.filter(pred).no_duplicates(),
{
    let f = s.filter(pred);
    assert forall|i: int, j: int| 0 <= i < j < f.len() implies f[i] != f[j] by {
        lemma_filter_positions(s, pred, i, j);
    }
}

/// Whatever is done to a valid store leaves it valid: no entry name and no
/// window class comes twice, and no tag comes twice in a tag set.
pub proof fn law_store_stays_valid(
    s: StoreView,
    sheet: SheetView,
    name: Seq<char>,
    wm_class: Seq<char>,
    tag: Seq<char>,
)
    requires
        s.wf(),
        sheet.tags.no_duplicates(),
    ensures
        StoreView::empty().wf(),
        s.insert(sheet).wf(),
        s.remove(name).wf(),
        s.has_sheet(name) ==> s.add_tag(name, tag).wf() && s.remove_tag(name, tag).wf(),
        s.add_wm_class_tag(wm_class, tag).wf(),
        s.has_wm_class(wm_class) ==> s.remove_wm_class_tag(wm_class, tag).wf(),
{
    assert(StoreView::empty().names() =~= Seq::<Seq<char>>::empty());
    assert(StoreView::empty().wm_keys() =~= Seq::<Seq<char>>::empty());
    // insert
    if s.has_sheet(sheet.name) {
        let i = s.sheet_pos(sheet.name);
        assert(0 <= i < s.names().len() && s.names()[i] == sheet.name);
        assert(s.insert(sheet).names() =~= s.names());
    } else {
        assert(s.insert(sheet).names() =~= s.names().push(sheet.name));
    }
    // remove
    let keep = |e: SheetView| e.name != name;
    let left = s.sheets.filter(keep);
    assert forall|i: int, j: int| 0 <= i < j < left.len() implies left[i].name
        != left[j].name by {
        lemma_filter_positions(s.sheets, keep, i, j);
        let (a, b) = choose|a: int, b: int|
            0 <= a < b < s.sheets.len() && s.sheets[a] == left[i] && s.sheets[b] == left[j];
        assert(s.names()[a] != s.names()[b]);
    }
    assert forall|i: int| 0 <= i < left.len() implies (#[trigger] left[i]).tags.no_duplicates() by {
        assert(left.contains(left[i]));
        s.sheets.lemma_filter_contains_rev(keep, left[i]);
        let a = choose|a: int| 0 <= a < s.sheets.len() && s.sheets[a] == left[i];
        assert(s.sheets[a].tags.no_duplicates());
    }
    assert(s.remove(name).names().no_duplicates()) by {
        let names = s.remove(name).names();
        assert forall|i: int, j: int| 0 <= i < j < names.len() implies names[i] != names[j] by {
            assert(names[i] == left[i].name && names[j] == left[j].name);
        }
    }
    // tags
    if s.has_wm_class(wm_class) {
        let i = s.wm_pos(wm_class);
        assert(0 <= i < s.wm_keys().len() && s.wm_keys()[i] == wm_class);
        assert(s.wm_classes[i].tags.no_duplicates());
    }
    crate::tags::lemma_without_tag_no_duplicates(s.wm_tags(wm_class), tag);
    lemma_set_wm_tags_keeps_valid(s, wm_class, with_tag(s.wm_tags(wm_class), tag));
    lemma_set_wm_tags_keeps_valid(s, wm_class, without_tag(s.wm_tags(wm_class), tag));
    if s.has_sheet(name) {
        let i = s.sheet_pos(name);
        assert(0 <= i < s.names().len() && s.names()[i] == name);
        assert(s.sheets[i].tags.no_duplicates());
        crate::tags::lemma_without_tag_no_duplicates(s.sheet(name).tags, tag);
        lemma_set_tags_keeps_valid(s, name, with_tag(s.sheet(name).tags, tag));
        lemma_set_tags_keeps_valid(s, name, without_tag(s.sheet(name).tags, tag));
    }
}

/// New tags for an entry leave a valid store valid.
pub proof fn lemma_set_tags_keeps_valid(s: StoreView, name: Seq<char>, tags: Seq<Seq<char>>)
    requires
        s.wf(),
        s.has_sheet(name),
        tags.no_duplicates(),
    ensures
        s.set_tags(name, tags).wf(),
{
    lemma_set_tags_keeps_names(s, name, tags);
    let after = s.set_tags(name, tags);
    let at = s.sheet_pos(name);
    assert(0 <= at < s.names().len() && s.names()[at] == name);
    assert forall|i: int| 0 <= i < after.sheets.len() implies (
    #[trigger] after.sheets[i]).tags.no_duplicates() by {
        if i != at {
            assert(after.sheets[i] == s.sheets[i]);
        }
    }
}

/// New tags for a window class leave a valid store valid.
pub proof fn lemma_set_wm_tags_keeps_valid(s: StoreView, wm_class: Seq<char>, tags: Seq<Seq<char>>)
    requires
        s.wf(),
        tags.no_duplicates(),
    ensures
        s.set_wm_tags(wm_class, tags).wf(),
{
    let after = s.set_wm_tags(wm_class, tags);
    if s.has_wm_class(wm_class) {
        lemma_set_wm_tags_keeps_keys(s, wm_class, tags);
        let at = s.wm_pos(wm_class);
        assert(0 <= at < s.wm_keys().len() && s.wm_keys()[at] == wm_class);
        assert forall|i: int| 0 <= i < after.wm_classes.len() implies (
        #[trigger] after.wm_classes[i]).tags.no_duplicates() by {
            if i != at {
                assert(after.wm_classes[i] == s.wm_classes[i]);
            }
        }
    } else {
        assert(after.wm_keys() =~= s.wm_keys().push(wm_class));
        assert forall|i: int| 0 <= i < after.wm_classes.len() implies (
        #[trigger] after.wm_classes[i]).tags.no_duplicates() by {
            if i < s.wm_classes.len() {
                assert(after.wm_classes[i] == s.wm_classes[i]);
            }
        }
    }
}

/// Once the entry of a name is removed, no window class resolves to an entry
/// of that name, whatever the store held before.
pub proof fn law_removed_is_not_resolved(s: StoreView, name: Seq<char>, wm_class: Seq<char>)
    ensures
        !s.remove(name).has_sheet(name),
        forall|e: SheetView| s.remove(name).resolve(wm_class).contains(e) ==> e.name != name,
{
    let keep = |e: SheetView| e.name != name;
    let left = s.sheets.filter(keep);
    assert forall|e: SheetView| left.contains(e) implies e.name != name by {
        let i = choose|i: int| 0 <= i < left.len() && left[i] == e;
        s.sheets.lemma_filter_pred(keep, i);
    }
    if s.remove(name).has_sheet(name) {
        let names = s.remove(name).names();
        let i = choose|i: int| 0 <= i < names.len() && names[i] == name;
        assert(left.contains(left[i]));
    }
    let wanted = s.remove(name).wm_tags(wm_class);
    let pred = |e: SheetView| share_tag(e.tags, wanted);
    assert forall|e: SheetView| s.remove(name).resolve(wm_class).contains(e) implies e.name
        != name by {
        left.lemma_filter_contains_rev(pred, e);
    }
}

/// An entry that is put into the store and then removed is resolved by no
/// window class.
pub proof fn law_inserted_then_removed_is_not_resolved(
    s: StoreView,
    sheet: SheetView,
    wm_class: Seq<char>,
)
    ensures
        forall|e: SheetView|
            s.insert(sheet).remove(sheet.name).resolve(wm_class).contains(e) ==> e.name
                != sheet.name,
{
    law_removed_is_not_resolved(s.insert(sheet), sheet.name, wm_class);
}

/// New tags for an entry leave the names of the entries as they are.
pub proof fn lemma_set_tags_keeps_names(s: StoreView, name: Seq<char>, tags: Seq<Seq<char>>)
    requires
        s.has_sheet(name),
    ensures
        s.set_tags(name, tags).names() == s.names(),
        s.set_tags(name, tags).has_sheet(name),
{
    let i = s.sheet_pos(name);
    assert(0 <= i < s.names().len() && s.names()[i] == name);
    assert(s.set_tags(name, tags).names() =~= s.names());
}

/// New tags for a window class that has a tag set leave the window classes
/// as they are.
pub proof fn lemma_set_wm_tags_keeps_keys(s: StoreView, wm_class: Seq<char>, tags: Seq<Seq<char>>)
    requires
        s.has_wm_class(wm_class),
    ensures
        s.set_wm_tags(wm_class, tags).wm_keys() == s.wm_keys(),
        s.set_wm_tags(wm_class, tags).has_wm_class(wm_class),
{
    let i = s.wm_pos(wm_class);
    assert(0 <= i < s.wm_keys().len() && s.wm_keys()[i] == wm_class);
    assert(s.set_wm_tags(wm_class, tags).wm_keys() =~= s.wm_keys());
}

/// The name and the tags of each entry of `sheets`.
pub open spec fn sheet_tags_of(sheets: Seq<SheetView>) -> Seq<TagsView> {
    sheets.map_values(|s: SheetView| TagsView { key: s.name, tags: s.tags })
}

/// A sequence of which no item satisfies `pred` has an empty filter.
pub proof fn lemma_filter_none<A>(s: Seq<A>, pred: spec_fn(A) -> bool)
    requires
        forall|j: int| 0 <= j < s.len() ==> !pred(s[j]),
    ensures
        s.filter(pred) == Seq::<A>::empty(),
    decreases s.len(),
{
    reveal(Seq::filter);
    if s.len() > 0 {
        lemma_filter_none(s.drop_last(), pred);
    }
}

/// In a sequence without duplicates, an item is found where it stands.
pub proof fn lemma_index_of_unique<A>(s: Seq<A>, i: int)
    requires
        s.no_duplicates(),
        0 <= i < s.len(),
    ensures
        s.contains(s[i]),
        s.index_of(s[i]) == i,
{
    let k = s.index_of(s[i]);
    assert(0 <= k < s.len() && s[k] == s[i]);
}

/// The entries of `v` as plain values.
pub open spec fn entries_view(v: Seq<Entry>) -> Seq<SheetView> {
    v.map_values(|e: Entry| e@)
}

/// The entries that `v` refers to, as plain values.
pub open spec fn entry_refs_view(v: Seq<&Entry>) -> Seq<SheetView> {
    v.map_values(|e: &Entry| e@)
}

/// The window classes of `v` as plain values.
pub open spec fn wm_entries_view(v: Seq<WmClassEntry>) -> Seq<TagsView> {
    v.map_values(|e: WmClassEntry| e@)
}

/// The content store: the entries by name, and the tags of each window
/// class.
#[derive(Debug)]
pub struct Cheatsheets {
    sheets: Vec<Entry>,
    wm_class_tags: Vec<WmClassEntry>,
}

impl View for Cheatsheets {
    type V = StoreView;

    closed spec fn view(&self) -> StoreView {
        StoreView {
            sheets: entries_view(self.sheets@),
            wm_classes: wm_entries_view(self.wm_class_tags@),
        }
    }
}

impl Default for Cheatsheets {
    fn default() -> (r: Self)
        ensures
            r@ == StoreView::empty(),
    {
        Cheatsheets::new()
    }
}

impl Clone for Cheatsheets {
    fn clone(&self) -> (r: Self)
        ensures
            r@ == self@,
    {
        proof {
            use_type_invariant(self);
        }
        let mut sheets: Vec<Entry> = Vec::new();
        let mut i: usize = 0;
        while i < self.sheets.len()
            invariant
                i <= self.sheets.len(),
                entries_view(sheets@) =~= entries_view(self.sheets@).take(i as int),
            decreases self.sheets.len() - i,
        {
            let ghost before = entries_view(sheets@);
            let entry = self.sheets[i].clone();
            sheets.push(entry);
            proof {
                let all = entries_view(self.sheets@);
                assert(entries_view(sheets@) =~= before.push(entry@));
                assert(all.take(i as int + 1) =~= all.take(i as int).push(all[i as int]));
            }
            i += 1;
        }
        let mut classes: Vec<WmClassEntry> = Vec::new();
        let mut k: usize = 0;
        while k < self.wm_class_tags.len()
            invariant
                k <= self.wm_class_tags.len(),
                wm_entries_view(classes@) =~= wm_entries_view(self.wm_class_tags@).take(k as int),
            decreases self.wm_class_tags.len() - k,
        {
            let ghost before = wm_entries_view(classes@);
            let entry = self.wm_class_tags[k].clone();
            classes.push(entry);
            proof {
                let all = wm_entries_view(self.wm_class_tags@);
                assert(wm_entries_view(classes@) =~= before.push(entry@));
                assert(all.take(k as int + 1) =~= all.take(k as int).push(all[k as int]));
            }
            k += 1;
        }
        proof {
            assert(entries_view(self.sheets@).take(i as int) =~= entries_view(self.sheets@));
            assert(wm_entries_view(self.wm_class_tags@).take(k as int) =~= wm_entries_view(
                self.wm_class_tags@,
            ));
        }
        Cheatsheets { sheets, wm_class_tags: classes }
    }
}

impl Cheatsheets {
    /// Names and window classes are unique.
    #[verifier::type_invariant]
    pub open spec fn wf(&self) -> bool {
        self@.wf()
    }

    /// The empty store.
    pub fn new() -> (r: Self)
        ensures
            r@ == StoreView::empty(),
    {
        let r = Cheatsheets { sheets: Vec::new(), wm_class_tags: Vec::new() };
        assert(r@.sheets =~= Seq::empty());
        assert(r@.wm_classes =~= Seq::empty());
        r
    }

    /// The number of entries.
    pub fn len(&self) -> (n: usize)
        ensures
            n == self@.sheets.len(),
    {
        self.sheets.len()
    }

    /// The entry at `index` in store order, if there are that many.
    pub fn sheet_at(&self, index: usize) -> (r: Option<&Entry>)
        ensures
            match r {
                Some(e) => index < self@.sheets.len() && e@ == self@.sheets[index as int],
                None => index >= self@.sheets.len(),
            },
    {
        if index < self.sheets.len() {
            Some(&self.sheets[index])
        } else {
            None
        }
    }

    /// Puts an entry into the store, in the place of the entry of that name
    /// if there is one, which is handed back.
    pub fn insert_sheet(&mut self, sheet: Cheatsheet, name: String, tags: TagSet) -> (prev: Option<
        (CheatsheetMetadata, Cheatsheet),
    >)
        ensures
            final(self)@ == old(self)@.insert(
                SheetView { name: name@, tags: tags@, image: sheet.image@ },
            ),
            match prev {
                Some(p) => old(self)@.has_sheet(name@) && p.0.tags@ == old(self)@.sheet(name@).tags
                    && p.1.image@ == old(self)@.sheet(name@).image,
                None => !old(self)@.has_sheet(name@),
            },
    {
        proof {
            use_type_invariant(&*self);
            use_type_invariant(&tags);
        }
        let ghost before = self@;
        let found = self.find_sheet(name.as_str());
        let entry = Entry { name, metadata: CheatsheetMetadata { tags }, sheet };
        let mut sheets: Vec<Entry> = Vec::new();
        std::mem::swap(&mut sheets, &mut self.sheets);
        assert(entries_view(sheets@) == before.sheets);
        let prev = match found {
            Some(i) => {
                let old_entry = sheets.remove(i);
                sheets.insert(i, entry);
                proof {
                    let after = entries_view(sheets@);
                    assert(after =~= before.sheets.update(i as int, entry@));
                    assert(after.map_values(|s: SheetView| s.name) =~= before.names());
                }
                Some((old_entry.metadata, old_entry.sheet))
            },
            None => {
                sheets.push(entry);
                proof {
                    let after = entries_view(sheets@);
                    assert(after =~= before.sheets.push(entry@));
                    assert(after.map_values(|s: SheetView| s.name) =~= before.names().push(
                        entry@.name,
                    ));
                }
                None
            },
        };
        self.sheets = sheets;
        prev
    }

    /// Takes the entry named `name` out of the store and hands it back;
    /// nothing happens where there is none.
    pub fn remove_sheet(&mut self, name: &str) -> (prev: Option<(CheatsheetMetadata, Cheatsheet)>)
        ensures
            final(self)@ == old(self)@.remove(name@),
            match prev {
                Some(p) => old(self)@.has_sheet(name@) && p.0.tags@ == old(self)@.sheet(name@).tags
                    && p.1.image@ == old(self)@.sheet(name@).image,
                None => !old(self)@.has_sheet(name@),
            },
    {
        proof {
            use_type_invariant(&*self);
        }
        let ghost before = self@;
        let ghost keep = |s: SheetView| s.name != name@;
        match self.find_sheet(name) {
            Some(i) => {
                let mut sheets: Vec<Entry> = Vec::new();
                std::mem::swap(&mut sheets, &mut self.sheets);
                let old_entry = sheets.remove(i);
                proof {
                    let after = entries_view(sheets@);
                    assert(after =~= before.sheets.remove(i as int));
                    assert(after.map_values(|s: SheetView| s.name) =~= before.names().remove(
                        i as int,
                    ));
                    assert forall|j: int| 0 <= j < before.sheets.len() && j != i implies keep(
                        before.sheets[j],
                    ) by {
                        assert(before.names()[j] != before.names()[i as int]);
                    }
                    assert(before.names()[i as int] == name@);
                    crate::tags::lemma_remove_is_filter(before.sheets, i as int, keep);
                }
                self.sheets = sheets;
                Some((old_entry.metadata, old_entry.sheet))
            },
            None => {
                proof {
                    assert forall|j: int| 0 <= j < before.sheets.len() implies keep(
                        before.sheets[j],
                    ) by {
                        assert(before.names()[j] == before.sheets[j].name);
                    }
                    crate::tags::lemma_filter_all(before.sheets, keep);
                }
                None
            },
        }
    }

    /// Adds `tag` to the entry named `name`; says whether it was newly added.
    pub fn add_sheet_tag(&mut self, name: &str, tag: String) -> (r: Result<bool, Failure>)
        ensures
            match r {
                Ok(added) => old(self)@.has_sheet(name@) && added == !old(self)@.sheet(
                    name@,
                ).tags.contains(tag@) && final(self)@ == old(self)@.add_tag(name@, tag@),
                Err(e) => e == Failure::NotFound && !old(self)@.has_sheet(name@) && final(self)@
                    == old(self)@,
            },
    {
        proof {
            use_type_invariant(&*self);
        }
        let ghost before = self@;
        match self.find_sheet(name) {
            Some(i) => {
                let mut sheets: Vec<Entry> = Vec::new();
                std::mem::swap(&mut sheets, &mut self.sheets);
                let mut entry = sheets.remove(i);
                let added = entry.metadata.tags.insert(tag);
                proof {
                    use_type_invariant(&entry.metadata.tags);
                }
                sheets.insert(i, entry);
                proof {
                    let after = entries_view(sheets@);
                    assert(after =~= before.sheets.update(i as int, entry@));
                    assert(after.map_values(|s: SheetView| s.name) =~= before.names());
                }
                self.sheets = sheets;
                Ok(added)
            },
            None => Err(Failure::NotFound),
        }
    }

    /// Takes `tag` from the entry named `name`; says whether it was there.
    pub fn remove_sheet_tag(&mut self, name: &str, tag: &str) -> (r: Result<bool, Failure>)
        ensures
            match r {
                Ok(removed) => old(self)@.has_sheet(name@) && removed == old(self)@.sheet(
                    name@,
                ).tags.contains(tag@) && final(self)@ == old(self)@.remove_tag(name@, tag@),
                Err(e) => e == Failure::NotFound && !old(self)@.has_sheet(name@) && final(self)@
                    == old(self)@,
            },
    {
        proof {
            use_type_invariant(&*self);
        }
        let ghost before = self@;
        match self.find_sheet(name) {
            Some(i) => {
                let mut sheets: Vec<Entry> = Vec::new();
                std::mem::swap(&mut sheets, &mut self.sheets);
                let mut entry = sheets.remove(i);
                let removed = entry.metadata.tags.remove(tag);
                proof {
                    use_type_invariant(&entry.metadata.tags);
                }
                sheets.insert(i, entry);
                proof {
                    let after = entries_view(sheets@);
                    assert(after =~= before.sheets.update(i as int, entry@));
                    assert(after.map_values(|s: SheetView| s.name) =~= before.names());
                }
                self.sheets = sheets;
                Ok(removed)
            },
            None => Err(Failure::NotFound),
        }
    }

    /// Adds `tag` to the window class `wm_class`, which gets a tag set if it
    /// had none. Says whether the tag was added to a tag set that was there
    /// before.
    pub fn add_wm_class_tag(&mut self, wm_class: &str, tag: String) -> (added: bool)
        ensures
            final(self)@ == old(self)@.add_wm_class_tag(wm_class@, tag@),
            added == (old(self)@.has_wm_class(wm_class@) && !old(self)@.wm_tags(
                wm_class@,
            ).contains(tag@)),
    {
        proof {
            use_type_invariant(&*self);
        }
        let ghost before = self@;
        let found = self.find_wm_class(wm_class);
        let mut classes: Vec<WmClassEntry> = Vec::new();
        std::mem::swap(&mut classes, &mut self.wm_class_tags);
        let added = match found {
            Some(i) => {
                let mut entry = classes.remove(i);
                let added = entry.tags.insert(tag);
                proof {
                    use_type_invariant(&entry.tags);
                }
                classes.insert(i, entry);
                proof {
                    let after = wm_entries_view(classes@);
                    assert(before.wm_keys()[i as int] == wm_class@);
                    assert(after =~= before.wm_classes.update(i as int, entry@));
                    assert(after.map_values(|w: TagsView| w.key) =~= before.wm_keys());
                }
                added
            },
            None => {
                let mut tags = TagSet::new();
                tags.insert(tag);
                proof {
                    use_type_invariant(&tags);
                }
                let entry = WmClassEntry { wm_class: String::from_str(wm_class), tags };
                classes.push(entry);
                proof {
                    let after = wm_entries_view(classes@);
                    assert(entry@.tags =~= with_tag(Seq::empty(), tag@));
                    assert(after =~= before.wm_classes.push(entry@));
                    assert(after.map_values(|w: TagsView| w.key) =~= before.wm_keys().push(
                        wm_class@,
                    ));
                }
                false
            },
        };
        self.wm_class_tags = classes;
        added
    }

    /// Gives the window class `wm_class` the tags `tags`, in the place of
    /// those it had.
    pub fn set_wm_class_tags(&mut self, wm_class: &str, tags: TagSet)
        ensures
            final(self)@ == old(self)@.set_wm_tags(wm_class@, tags@),
    {
        proof {
            use_type_invariant(&*self);
            use_type_invariant(&tags);
        }
        let ghost before = self@;
        let found = self.find_wm_class(wm_class);
        let mut classes: Vec<WmClassEntry> = Vec::new();
        std::mem::swap(&mut classes, &mut self.wm_class_tags);
        let entry = WmClassEntry { wm_class: String::from_str(wm_class), tags };
        match found {
            Some(i) => {
                classes.remove(i);
                classes.insert(i, entry);
                proof {
                    let after = wm_entries_view(classes@);
                    assert(before.wm_keys()[i as int] == wm_class@);
                    assert(after =~= before.wm_classes.update(i as int, entry@));
                    assert(after.map_values(|w: TagsView| w.key) =~= before.wm_keys());
                }
            },
            None => {
                classes.push(entry);
                proof {
                    let after = wm_entries_view(classes@);
                    assert(after =~= before.wm_classes.push(entry@));
                    assert(after.map_values(|w: TagsView| w.key) =~= before.wm_keys().push(
                        wm_class@,
                    ));
                }
            },
        }
        self.wm_class_tags = classes;
    }

    /// Takes `tag` from the window class `wm_class`; says whether it was
    /// there.
    pub fn remove_wm_class_tag(&mut self, wm_class: &str, tag: &str) -> (r: Result<
        bool,
        Failure,
    >)
        ensures
            match r {
                Ok(removed) => old(self)@.has_wm_class(wm_class@) && removed == old(self)@.wm_tags(wm_class@).contains(tag@) && final(self)@ == old(self)@.remove_wm_class_tag(wm_class@, tag@),
                Err(e) => e == Failure::NotFound && !old(self)@.has_wm_class(wm_class@) && final(self)@ == old(self)@,
            },
    {
        proof {
            use_type_invariant(&*self);
        }
        let ghost before = self@;
        match self.find_wm_class(wm_class) {
            Some(i) => {
                let mut classes: Vec<WmClassEntry> = Vec::new();
                std::mem::swap(&mut classes, &mut self.wm_class_tags);
                let mut entry = classes.remove(i);
                let removed = entry.tags.remove(tag);
                proof {
                    use_type_invariant(&entry.tags);
                }
                classes.insert(i, entry);
                proof {
                    let after = wm_entries_view(classes@);
                    assert(before.wm_keys()[i as int] == wm_class@);
                    assert(after =~= before.wm_classes.update(i as int, entry@));
                    assert(after.map_values(|w: TagsView| w.key) =~= before.wm_keys());
                }
                self.wm_class_tags = classes;
                Ok(removed)
            },
            None => Err(Failure::NotFound),
        }
    }

    /// The number of window classes that have a tag set.
    pub fn wm_class_count(&self) -> (n: usize)
        ensures
            n == self@.wm_classes.len(),
    {
        self.wm_class_tags.len()
    }

    /// The window class at `index` in store order, if there are that many.
    pub fn wm_class_at(&self, index: usize) -> (r: Option<&WmClassEntry>)
        ensures
            match r {
                Some(e) => index < self@.wm_classes.len() && e@ == self@.wm_classes[index as int],
                None => index >= self@.wm_classes.len(),
            },
    {
        if index < self.wm_class_tags.len() {
            Some(&self.wm_class_tags[index])
        } else {
            None
        }
    }

    /// The entries that hold the tag `tag`, in store order.
    pub fn sheets_for_tag(&self, tag: &str) -> (found: Vec<&Entry>)
        ensures
            entry_refs_view(found@) == self@.tagged(tag@),
    {
        let ghost wanted = |s: SheetView| s.tags.contains(tag@);
        let mut found: Vec<&Entry> = Vec::new();
        let mut i: usize = 0;
        assert(self@.sheets.take(0).filter(wanted) =~= Seq::<SheetView>::empty()) by {
            reveal(Seq::filter);
        }
        while i < self.sheets.len()
            invariant
                i <= self.sheets.len(),
                wanted == (|s: SheetView| s.tags.contains(tag@)),
                entry_refs_view(found@) =~= self@.sheets.take(i as int).filter(wanted),
            decreases self.sheets.len() - i,
        {
            let entry = &self.sheets[i];
            proof {
                let all = self@.sheets;
                assert(all.take(i as int + 1) =~= all.take(i as int).push(all[i as int]));
                all.take(i as int).lemma_filter_push(all[i as int], wanted);
            }
            if entry.metadata.tags.contains(tag) {
                found.push(entry);
            }
            i += 1;
        }
        assert(self@.sheets.take(self.sheets.len() as int) =~= self@.sheets);
        found
    }

    /// Resolves a window class: the entries that share at least one tag with
    /// it, in store order. All matches rank alike.
    pub fn sheets_for_wm_class(&self, wm_class: &str) -> (found: Vec<&Entry>)
        ensures
            entry_refs_view(found@) == self@.resolve(wm_class@),
    {
        let ghost tags = self@.wm_tags(wm_class@);
        let ghost wanted = |s: SheetView| share_tag(s.tags, tags);
        let mut found: Vec<&Entry> = Vec::new();
        let Some(w) = self.find_wm_class(wm_class) else {
            proof {
                assert forall|j: int| 0 <= j < self@.sheets.len() implies !wanted(
                    self@.sheets[j],
                ) by {
                    assert(forall|t: Seq<char>| !tags.contains(t));
                }
                lemma_filter_none(self@.sheets, wanted);
            }
            return found;
        };
        let class_tags = &self.wm_class_tags[w].tags;
        assert(class_tags@ == tags);
        let mut i: usize = 0;
        assert(self@.sheets.take(0).filter(wanted) =~= Seq::<SheetView>::empty()) by {
            reveal(Seq::filter);
        }
        while i < self.sheets.len()
            invariant
                i <= self.sheets.len(),
                class_tags@ == tags,
                wanted == (|s: SheetView| share_tag(s.tags, tags)),
                entry_refs_view(found@) =~= self@.sheets.take(i as int).filter(wanted),
            decreases self.sheets.len() - i,
        {
            let entry = &self.sheets[i];
            proof {
                let all = self@.sheets;
                assert(all.take(i as int + 1) =~= all.take(i as int).push(all[i as int]));
                all.take(i as int).lemma_filter_push(all[i as int], wanted);
            }
            if entry.metadata.tags.intersects(class_tags) {
                found.push(entry);
            }
            i += 1;
        }
        assert(self@.sheets.take(self.sheets.len() as int) =~= self@.sheets);
        found
    }

    /// Where in the store the entry stands that is number `page` of those
    /// that the window class `wm_class` resolves to; `None` where it
    /// resolves to fewer.
    pub fn resolved_index(&self, wm_class: &str, page: usize) -> (r: Option<usize>)
        ensures
            match r {
                Some(i) => page < self@.resolve(wm_class@).len() && i < self@.sheets.len()
                    && self@.sheets[i as int] == self@.resolve(wm_class@)[page as int],
                None => page >= self@.resolve(wm_class@).len(),
            },
    {
        proof {
            use_type_invariant(self);
        }
        let found = self.sheets_for_wm_class(wm_class);
        if page < found.len() {
            let ghost sheet = self@.resolve(wm_class@)[page as int];
            proof {
                assert(entry_refs_view(found@)[page as int] == sheet);
                assert(self@.resolve(wm_class@).contains(sheet));
                law_resolve_is_exact(self@, wm_class@, sheet);
                let at = choose|at: int| 0 <= at < self@.sheets.len() && self@.sheets[at] == sheet;
                assert(self@.names()[at] == sheet.name);
                lemma_index_of_unique(self@.names(), at);
            }
            self.find_sheet(found[page].name.as_str())
        } else {
            None
        }
    }

    /// How many entries the window class `wm_class` resolves to.
    pub fn wm_class_n_sheets(&self, wm_class: &str) -> (n: usize)
        ensures
            n == self@.resolve(wm_class@).len(),
    {
        self.sheets_for_wm_class(wm_class).len()
    }

    /// Every entry's name with its tags, in store order.
    pub fn get_sheet_tags(&self) -> (r: Vec<CheatsheetTags>)
        ensures
            r@.map_values(|t: CheatsheetTags| t@) == sheet_tags_of(self@.sheets),
    {
        let mut r: Vec<CheatsheetTags> = Vec::new();
        let mut i: usize = 0;
        while i < self.sheets.len()
            invariant
                i <= self.sheets.len(),
                r@.map_values(|t: CheatsheetTags| t@) =~= sheet_tags_of(self@.sheets).take(
                    i as int,
                ),
            decreases self.sheets.len() - i,
        {
            let entry = &self.sheets[i];
            let item = CheatsheetTags { name: entry.name.clone(), tags: entry.metadata.tags.to_vec() };
            let ghost before = r@.map_values(|t: CheatsheetTags| t@);
            r.push(item);
            proof {
                let all = sheet_tags_of(self@.sheets);
                assert(item@ =~= all[i as int]);
                assert(r@.map_values(|t: CheatsheetTags| t@) =~= before.push(item@));
                assert(all.take(i as int + 1) =~= all.take(i as int).push(all[i as int]));
            }
            i += 1;
        }
        r
    }

    /// Every window class with its tags, in store order.
    pub fn get_wm_classes_tags(&self) -> (r: Vec<WmClassTags>)
        ensures
            r@.map_values(|t: WmClassTags| t@) == self@.wm_classes,
    {
        let mut r: Vec<WmClassTags> = Vec::new();
        let mut i: usize = 0;
        while i < self.wm_class_tags.len()
            invariant
                i <= self.wm_class_tags.len(),
                r@.map_values(|t: WmClassTags| t@) =~= self@.wm_classes.take(i as int),
            decreases self.wm_class_tags.len() - i,
        {
            let entry = &self.wm_class_tags[i];
            let item = WmClassTags { wm_class: entry.wm_class.clone(), tags: entry.tags.to_vec() };
            let ghost before = r@.map_values(|t: WmClassTags| t@);
            r.push(item);
            proof {
                let all = self@.wm_classes;
                assert(item@ =~= all[i as int]);
                assert(r@.map_values(|t: WmClassTags| t@) =~= before.push(item@));
                assert(all.take(i as int + 1) =~= all.take(i as int).push(all[i as int]));
            }
            i += 1;
        }
        r
    }

    /// A report of the store: every entry and every window class with its
    /// tags.
    pub fn get_info(&self) -> (r: CheatsheetsInfo)
        ensures
            r@.cheatsheets == sheet_tags_of(self@.sheets),
            r@.wm_classes == self@.wm_classes,
    {
        CheatsheetsInfo { cheatsheets: self.get_sheet_tags(), wm_classes: self.get_wm_classes_tags() }
    }

    /// Adds the tags of `tags`, one after the other, to the entry named
    /// `name`.
    pub fn add_sheet_tags(&mut self, name: &str, tags: &TagSet) -> (r: Result<(), Failure>)
        ensures
            final(self)@ == old(self)@.add_tags(name@, tags@),
            match r {
                Ok(_) => old(self)@.has_sheet(name@),
                Err(e) => e == Failure::NotFound && !old(self)@.has_sheet(name@),
            },
    {
        if self.find_sheet(name).is_none() {
            return Err(Failure::NotFound);
        }
        let list = tags.to_vec();
        let mut i: usize = 0;
        assert(tags@.take(0) =~= Seq::<Seq<char>>::empty());
        while i < list.len()
            invariant
                i <= list.len(),
                crate::tags::strings_view(list@) == tags@,
                old(self)@.has_sheet(name@),
                self@.has_sheet(name@),
                self@ == old(self)@.add_tags(name@, tags@.take(i as int)),
            decreases list.len() - i,
        {
            proof {
                assert(tags@.take(i as int + 1).drop_last() =~= tags@.take(i as int));
                assert(tags@.take(i as int + 1).last() == list@[i as int]@);
            }
            let ghost before = self@;
            let _ = self.add_sheet_tag(name, list[i].clone());
            proof {
                lemma_set_tags_keeps_names(before, name@, with_tag(before.sheet(name@).tags, list@[i as int]@));
            }
            i += 1;
        }
        assert(tags@.take(i as int) =~= tags@);
        Ok(())
    }

    /// Takes the tags that `tags` names from the entry named `name`: each of
    /// them, one after the other, or all that it has.
    pub fn remove_sheet_tags(&mut self, name: &str, tags: &TagsEither) -> (r: Result<(), Failure>)
        ensures
            final(self)@ == (match tags@ {
                Some(list) => old(self)@.remove_tags(name@, list),
                None => old(self)@.clear_tags(name@),
            }),
            match r {
                Ok(_) => old(self)@.has_sheet(name@),
                Err(e) => e == Failure::NotFound && !old(self)@.has_sheet(name@),
            },
    {
        proof {
            use_type_invariant(&*self);
        }
        let Some(at) = self.find_sheet(name) else {
            return Err(Failure::NotFound);
        };
        match tags {
            TagsEither::Tags(tags) => {
                let list = tags.to_vec();
                let mut i: usize = 0;
                assert(tags@.take(0) =~= Seq::<Seq<char>>::empty());
                while i < list.len()
                    invariant
                        i <= list.len(),
                        crate::tags::strings_view(list@) == tags@,
                        old(self)@.has_sheet(name@),
                        self@.has_sheet(name@),
                        self@ == old(self)@.remove_tags(name@, tags@.take(i as int)),
                    decreases list.len() - i,
                {
                    proof {
                        assert(tags@.take(i as int + 1).drop_last() =~= tags@.take(i as int));
                        assert(tags@.take(i as int + 1).last() == list@[i as int]@);
                    }
                    let ghost before = self@;
                    let _ = self.remove_sheet_tag(name, list[i].as_str());
                    proof {
                        lemma_set_tags_keeps_names(
                            before,
                            name@,
                            without_tag(before.sheet(name@).tags, list@[i as int]@),
                        );
                    }
                    i += 1;
                }
                assert(tags@.take(i as int) =~= tags@);
            },
            TagsEither::All => {
                let ghost before = self@;
                let mut sheets: Vec<Entry> = Vec::new();
                std::mem::swap(&mut sheets, &mut self.sheets);
                let mut entry = sheets.remove(at);
                entry.metadata.tags = TagSet::new();
                sheets.insert(at, entry);
                proof {
                    let after = entries_view(sheets@);
                    assert(after =~= before.sheets.update(at as int, entry@));
                    assert(after.map_values(|s: SheetView| s.name) =~= before.names());
                    assert(entry@ =~= (SheetView { tags: Seq::empty(), ..before.sheet(name@) }));
                }
                self.sheets = sheets;
            },
        }
        Ok(())
    }

    /// Adds the tags of `tags`, one after the other, to the window class
    /// `wm_class`.
    pub fn add_wm_class_tags(&mut self, wm_class: &str, tags: &TagSet)
        ensures
            final(self)@ == old(self)@.add_wm_class_tags(wm_class@, tags@),
    {
        let list = tags.to_vec();
        let mut i: usize = 0;
        assert(tags@.take(0) =~= Seq::<Seq<char>>::empty());
        while i < list.len()
            invariant
                i <= list.len(),
                crate::tags::strings_view(list@) == tags@,
                self@ == old(self)@.add_wm_class_tags(wm_class@, tags@.take(i as int)),
            decreases list.len() - i,
        {
            proof {
                assert(tags@.take(i as int + 1).drop_last() =~= tags@.take(i as int));
                assert(tags@.take(i as int + 1).last() == list@[i as int]@);
            }
            self.add_wm_class_tag(wm_class, list[i].clone());
            i += 1;
        }
        assert(tags@.take(i as int) =~= tags@);
    }

    /// Takes the tags that `tags` names from the window class `wm_class`:
    /// each of them, one after the other, or all that it has.
    pub fn remove_wm_class_tags(&mut self, wm_class: &str, tags: &TagsEither) -> (r: Result<
        (),
        Failure,
    >)
        ensures
            final(self)@ == (match tags@ {
                Some(list) => old(self)@.remove_wm_class_tags(wm_class@, list),
                None => old(self)@.clear_wm_class_tags(wm_class@),
            }),
            match r {
                Ok(_) => old(self)@.has_wm_class(wm_class@),
                Err(e) => e == Failure::NotFound && !old(self)@.has_wm_class(wm_class@),
            },
    {
        if self.find_wm_class(wm_class).is_none() {
            return Err(Failure::NotFound);
        }
        match tags {
            TagsEither::Tags(tags) => {
                let list = tags.to_vec();
                let mut i: usize = 0;
                assert(tags@.take(0) =~= Seq::<Seq<char>>::empty());
                while i < list.len()
                    invariant
                        i <= list.len(),
                        crate::tags::strings_view(list@) == tags@,
                        old(self)@.has_wm_class(wm_class@),
                        self@.has_wm_class(wm_class@),
                        self@ == old(self)@.remove_wm_class_tags(wm_class@, tags@.take(i as int)),
                    decreases list.len() - i,
                {
                    proof {
                        assert(tags@.take(i as int + 1).drop_last() =~= tags@.take(i as int));
                        assert(tags@.take(i as int + 1).last() == list@[i as int]@);
                    }
                    let ghost before = self@;
                    let _ = self.remove_wm_class_tag(wm_class, list[i].as_str());
                    proof {
                        lemma_set_wm_tags_keeps_keys(
                            before,
                            wm_class@,
                            without_tag(before.wm_tags(wm_class@), list@[i as int]@),
                        );
                    }
                    i += 1;
                }
                assert(tags@.take(i as int) =~= tags@);
            },
            TagsEither::All => {
                self.set_wm_class_tags(wm_class, TagSet::new());
            },
        }
        Ok(())
    }

    /// Where the entry named `name` stands, if there is one.
    fn find_sheet(&self, name: &str) -> (r: Option<usize>)
        ensures
            match r {
                Some(i) => self@.has_sheet(name@) && i == self@.sheet_pos(name@) && i
                    < self.sheets.len(),
                None => !self@.has_sheet(name@),
            },
    {
        proof {
            use_type_invariant(self);
        }
        let needle = String::from_str(name);
        let mut i: usize = 0;
        while i < self.sheets.len()
            invariant
                i <= self.sheets.len(),
                needle@ == name@,
                self@.wf(),
                forall|j: int| 0 <= j < i ==> self@.names()[j] != name@,
            decreases self.sheets.len() - i,
        {
            if self.sheets[i].name == needle {
                proof {
                    assert(self@.names()[i as int] == name@);
                    lemma_index_of_unique(self@.names(), i as int);
                }
                return Some(i);
            }
            i += 1;
        }
        None
    }

    /// Where the window class `wm_class` stands, if it has a tag set.
    fn find_wm_class(&self, wm_class: &str) -> (r: Option<usize>)
        ensures
            match r {
                Some(i) => self@.has_wm_class(wm_class@) && i == self@.wm_pos(wm_class@) && i
                    < self.wm_class_tags.len(),
                None => !self@.has_wm_class(wm_class@),
            },
    {
        proof {
            use_type_invariant(self);
        }
        let needle = String::from_str(wm_class);
        let mut i: usize = 0;
        while i < self.wm_class_tags.len()
            invariant
                i <= self.wm_class_tags.len(),
                needle@ == wm_class@,
                self@.wf(),
                forall|j: int| 0 <= j < i ==> self@.wm_keys()[j] != wm_class@,
            decreases self.wm_class_tags.len() - i,
        {
            if self.wm_class_tags[i].wm_class == needle {
                proof {
                    assert(self@.wm_keys()[i as int] == wm_class@);
                    lemma_index_of_unique(self@.wm_keys(), i as int);
                }
                return Some(i);
            }
            i += 1;
        }
        None
    }
}

} // verus!
