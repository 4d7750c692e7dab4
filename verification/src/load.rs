//! Putting a store together from the files that hold it.

use vstd::prelude::*;
use vstd::bytes::lemma_auto_spec_u32_to_from_le_bytes;
use vstd::bytes::lemma_auto_spec_u64_to_from_le_bytes;
use vstd::bytes::spec_u32_from_le_bytes;
use vstd::bytes::spec_u32_to_le_bytes;
use vstd::bytes::spec_u64_to_le_bytes;
use crate::codec::bincode_image_fields;
use crate::codec::json_object_from_slice;
use crate::codec::json_object_parsed;
use crate::codec::record_data_len;
use crate::codec::starts_with_image_record;
use crate::codec::tag_keys;
use crate::codec::tag_lists_view;
use crate::codec::tag_map;
use crate::codec::TagList;
use crate::codec::TagMap;
use crate::error::Failure;
use crate::model::ByteOrder;
use crate::model::CheatsheetImage;
use crate::model::ImageFormat;
use crate::model::ImageView;
use crate::model::TagsView;
use crate::persist::image_bytes;
use crate::persist::metadata_bytes;
use crate::persist::wm_class_tags_bytes;
use crate::store::Cheatsheet;
use crate::store::Cheatsheets;
use crate::store::SheetView;
use crate::store::StoreView;
use crate::tags::distinct;
use crate::ui::UiState;
use crate::ui::UiView;
use crate::tags::strings_view;
use crate::tags::TagSet;

verus! {

/// The image that the record at the start of `bytes` holds; `None` where
/// `bytes` does not start with a record, or the record names a format or a
/// byte order that there is not.
pub open spec fn image_of_record(bytes: Seq<u8>) -> Option<ImageView> {
    let format = spec_u32_from_le_bytes(bytes.subrange(0, 4));
    let order = spec_u32_from_le_bytes(bytes.subrange(4, 8));
    if starts_with_image_record(bytes) && format == 0 && order <= 1 {
        Some(
            ImageView {
                format: ImageFormat::Gray8,
                order: if order == 0 {
                    ByteOrder::LE
                } else {
                    ByteOrder::BE
                },
                width: spec_u32_from_le_bytes(bytes.subrange(8, 12)),
                height: spec_u32_from_le_bytes(bytes.subrange(12, 16)),
                data: bytes.subrange(24, 24 + record_data_len(bytes)),
            },
        )
    } else {
        None
    }
}

/// The tags that the metadata file `bytes` holds, each once: the member
/// `tags` of the JSON object; `None` where `bytes` is no such object or has
/// no such member.
pub open spec fn tags_of_metadata(bytes: Seq<u8>) -> Option<Seq<Seq<char>>> {
    match json_object_parsed(bytes) {
        Some(members) => if members.contains_key("tags"@) {
            Some(distinct(members["tags"@]))
        } else {
            None
        },
        None => None,
    }
}

/// Whether the metadata file `bytes`, if it is what is written for some
/// tags, is read back as those tags.
pub open spec fn metadata_reads_back(bytes: Seq<u8>) -> bool {
    forall|tags: Seq<Seq<char>>|
        bytes == #[trigger] metadata_bytes(tags) ==> tags_of_metadata(bytes) == Some(
            distinct(tags),
        )
}

/// Whether the file `bytes`, if it is what is written for some window
/// classes, is read back as those window classes.
pub open spec fn wm_class_tags_read_back(bytes: Seq<u8>) -> bool {
    forall|wm_classes: Seq<TagsView>|
        bytes == #[trigger] wm_class_tags_bytes(wm_classes) ==> json_object_parsed(bytes) == Some(
            tag_map(wm_classes),
        )
}

/// The keys of `v` are the keys of its map, and they are finitely many.
pub proof fn lemma_tag_map_finite(v: Seq<TagsView>)
    ensures
        tag_map(v).dom() == tag_keys(v).to_set(),
        tag_map(v).dom().finite(),
{
    broadcast use vstd::seq_lib::group_seq_properties;

    assert(tag_map(v).dom() =~= tag_keys(v).to_set());
}

/// A record that was written for an image is read back as that image.
pub proof fn lemma_image_record_reads_back(image: ImageView, tail: Seq<u8>)
    requires
        image.data.len() <= u64::MAX,
    ensures
        image_of_record(image_bytes(image) + tail) == Some(image),
{
    lemma_auto_spec_u32_to_from_le_bytes();
    lemma_auto_spec_u64_to_from_le_bytes();
    let format = image.format.code() as u32;
    let order = image.order.code() as u32;
    let len = image.data.len() as u64;
    let bytes = image_bytes(image) + tail;
    assert(spec_u32_to_le_bytes(format).len() == 4);
    assert(spec_u32_to_le_bytes(order).len() == 4);
    assert(spec_u32_to_le_bytes(image.width).len() == 4);
    assert(spec_u32_to_le_bytes(image.height).len() == 4);
    assert(spec_u64_to_le_bytes(len).len() == 8);
    assert(bytes.subrange(0, 4) =~= spec_u32_to_le_bytes(format));
    assert(bytes.subrange(4, 8) =~= spec_u32_to_le_bytes(order));
    assert(bytes.subrange(8, 12) =~= spec_u32_to_le_bytes(image.width));
    assert(bytes.subrange(12, 16) =~= spec_u32_to_le_bytes(image.height));
    assert(bytes.subrange(16, 24) =~= spec_u64_to_le_bytes(len));
    assert(record_data_len(bytes) == len);
    assert(bytes.subrange(24, 24 + len) =~= image.data);
    assert(image_of_record(bytes)->0 =~= image);
}

/// Reads an image file.
pub fn decode_image(bytes: &Vec<u8>) -> (r: Result<CheatsheetImage, Failure>)
    ensures
        match r {
            Ok(image) => image_of_record(bytes@) == Some(image@),
            Err(e) => e == Failure::LoadFailure && image_of_record(bytes@) is None,
        },
{
    match bincode_image_fields(bytes) {
        Ok(fields) => {
            let (format, order, width, height, data) = fields;
            if format != 0 || order > 1 {
                return Err(Failure::LoadFailure);
            }
            let order = if order == 0 {
                ByteOrder::LE
            } else {
                ByteOrder::BE
            };
            Ok(CheatsheetImage { format: ImageFormat::Gray8, order, width, height, data })
        },
        Err(_) => Err(Failure::LoadFailure),
    }
}

/// The list of the first member of `members` that stands under `key`, if
/// there is one.
pub open spec fn first_list(members: Seq<TagsView>, key: Seq<char>) -> Option<Seq<Seq<char>>>
    decreases members.len(),
{
    if members.len() == 0 {
        None
    } else if members.first().key == key {
        Some(members.first().tags)
    } else {
        first_list(members.drop_first(), key)
    }
}

/// Where no key comes twice, the first list under a key is the list that the
/// map of the members holds for it.
pub proof fn lemma_first_list_is_mapped(members: Seq<TagsView>, key: Seq<char>)
    requires
        tag_keys(members).no_duplicates(),
    ensures
        first_list(members, key) == (if tag_map(members).contains_key(key) {
            Some(tag_map(members)[key])
        } else {
            None
        }),
    decreases members.len(),
{
    let keys = tag_keys(members);
    if members.len() > 0 {
        let rest = members.drop_first();
        assert(tag_keys(rest) =~= keys.drop_first());
        if members.first().key == key {
            assert(keys[0] == key);
            crate::store::lemma_index_of_unique(keys, 0);
        } else {
            lemma_first_list_is_mapped(rest, key);
            if tag_keys(rest).contains(key) {
                let i = tag_keys(rest).index_of(key);
                assert(0 <= i < rest.len() && tag_keys(rest)[i] == key);
                assert(keys[i + 1] == key);
                crate::store::lemma_index_of_unique(keys, i + 1);
                assert(members[i + 1] == rest[i]);
            }
            if keys.contains(key) {
                let i = keys.index_of(key);
                assert(0 <= i < keys.len() && keys[i] == key);
                assert(tag_keys(rest)[i - 1] == key);
            }
        }
    }
}

/// The tags that the members of a metadata file hold: the list of the
/// member `tags`, each tag once. Fails where there is no such member.
pub fn metadata_tags(members: &Vec<TagList>) -> (r: Result<TagSet, Failure>)
    ensures
        match r {
            Ok(tags) => first_list(tag_lists_view(members@), "tags"@) is Some && tags@
                == distinct(first_list(tag_lists_view(members@), "tags"@)->0),
            Err(e) => e == Failure::LoadFailure && first_list(tag_lists_view(members@), "tags"@)
                is None,
        },
{
    let ghost all = tag_lists_view(members@);
    let needle = String::from_str("tags");
    let mut i: usize = 0;
    assert(all.skip(0) =~= all);
    while i < members.len()
        invariant
            i <= members.len(),
            needle@ == "tags"@,
            all == tag_lists_view(members@),
            first_list(all, "tags"@) == first_list(all.skip(i as int), "tags"@),
        decreases members.len() - i,
    {
        proof {
            assert(all.skip(i as int).first() == members@[i as int]@);
            assert(all.skip(i as int).drop_first() =~= all.skip(i as int + 1));
        }
        if members[i].key == needle {
            return Ok(TagSet::from_vec(crate::tags::clone_strings(&members[i].tags)));
        }
        i += 1;
    }
    Err(Failure::LoadFailure)
}

/// The store after each member of `members` gave its window class its
/// tags, each tag once, one member after the other.
pub open spec fn with_members(store: StoreView, members: Seq<TagsView>) -> StoreView
    decreases members.len(),
{
    if members.len() == 0 {
        store
    } else {
        with_members(store, members.drop_last()).set_wm_tags(
            members.last().key,
            distinct(members.last().tags),
        )
    }
}

/// Members with different keys give a store without window classes exactly
/// these window classes, in their order.
pub proof fn lemma_with_members_of_different_keys(store: StoreView, members: Seq<TagsView>)
    requires
        tag_keys(members).no_duplicates(),
        store.wm_classes == Seq::<TagsView>::empty(),
    ensures
        with_members(store, members).sheets == store.sheets,
        with_members(store, members).wm_classes == distinct_members(members),
    decreases members.len(),
{
    if members.len() > 0 {
        let rest = members.drop_last();
        let last = members.last();
        let keys = tag_keys(members);
        assert(tag_keys(rest) =~= keys.drop_last());
        lemma_with_members_of_different_keys(store, rest);
        let before = with_members(store, rest);
        assert(before.wm_keys() =~= tag_keys(rest));
        if before.has_wm_class(last.key) {
            let j = choose|j: int| 0 <= j < before.wm_keys().len() && before.wm_keys()[j] == last.key;
            assert(keys[j] == keys[members.len() - 1]);
        }
        assert(distinct_members(members) =~= distinct_members(rest).push(
            TagsView { key: last.key, tags: distinct(last.tags) },
        ));
    } else {
        assert(distinct_members(members) =~= Seq::<TagsView>::empty());
    }
}

/// Gives each window class of `members` its tags, each tag once, one member
/// after the other: the tags of a window class that comes again take the
/// place of those before.
pub fn put_wm_class_tags(store: &mut Cheatsheets, members: &Vec<TagList>)
    ensures
        final(store)@ == with_members(old(store)@, tag_lists_view(members@)),
{
    let ghost listed = tag_lists_view(members@);
    let mut k: usize = 0;
    assert(listed.take(0) =~= Seq::<TagsView>::empty());
    while k < members.len()
        invariant
            k <= members.len(),
            listed == tag_lists_view(members@),
            store@ == with_members(old(store)@, listed.take(k as int)),
        decreases members.len() - k,
    {
        let member = &members[k];
        let tags = TagSet::from_vec(crate::tags::clone_strings(&member.tags));
        proof {
            assert(listed.take(k as int + 1).drop_last() =~= listed.take(k as int));
            assert(listed.take(k as int + 1).last() == member@);
        }
        store.set_wm_class_tags(member.key.as_str(), tags);
        k += 1;
    }
    assert(listed.take(k as int) =~= listed);
}

/// Reads the metadata file of an entry: its tags.
pub fn decode_metadata(bytes: &Vec<u8>) -> (r: Result<TagSet, Failure>)
    ensures
        match r {
            Ok(tags) => tags_of_metadata(bytes@) == Some(tags@),
            Err(e) => e == Failure::LoadFailure && tags_of_metadata(bytes@) is None,
        },
        metadata_reads_back(bytes@),
{
    let parsed = json_object_from_slice(bytes);
    proof {
        assert forall|tags: Seq<Seq<char>>| bytes@ == #[trigger] metadata_bytes(
            tags,
        ) implies tags_of_metadata(bytes@) == Some(distinct(tags)) by {
            let m: TagMap = map!["tags"@ => tags];
            assert(m.dom() =~= set!["tags"@]);
            assert(m.dom().finite());
            assert(bytes@ == crate::codec::json_object_bytes(m));
            assert(json_object_parsed(bytes@) == Some(m));
        }
    }
    match parsed {
        Ok(members) => {
            proof {
                lemma_first_list_is_mapped(tag_lists_view(members@), "tags"@);
            }
            metadata_tags(&members)
        },
        Err(_) => Err(Failure::LoadFailure),
    }
}

/// Reads the file of the window classes: each window class with its tags as
/// the file lists them.
pub fn decode_wm_class_tags(bytes: &Vec<u8>) -> (r: Result<Vec<TagList>, Failure>)
    ensures
        match r {
            Ok(members) => {
                &&& tag_keys(tag_lists_view(members@)).no_duplicates()
                &&& json_object_parsed(bytes@) == Some(tag_map(tag_lists_view(members@)))
            },
            Err(e) => e == Failure::LoadFailure && json_object_parsed(bytes@) is None,
        },
        wm_class_tags_read_back(bytes@),
{
    let parsed = json_object_from_slice(bytes);
    proof {
        assert forall|wm_classes: Seq<TagsView>| bytes@ == #[trigger] wm_class_tags_bytes(
            wm_classes,
        ) implies json_object_parsed(bytes@) == Some(tag_map(wm_classes)) by {
            lemma_tag_map_finite(wm_classes);
            assert(bytes@ == crate::codec::json_object_bytes(tag_map(wm_classes)));
        }
    }
    match parsed {
        Ok(members) => Ok(members),
        Err(_) => Err(Failure::LoadFailure),
    }
}

/// The two files of an entry as they were read, with the entry's name.
#[derive(Debug)]
pub struct LoadedEntry {
    pub name: String,
    /// The contents of the image file.
    pub sheet: Vec<u8>,
    /// The contents of the metadata file.
    pub metadata: Vec<u8>,
}

/// A `LoadedEntry` as plain values.
#[verifier::ext_equal]
pub struct PartView {
    pub name: Seq<char>,
    pub sheet: Seq<u8>,
    pub metadata: Seq<u8>,
}

impl View for LoadedEntry {
    type V = PartView;

    open spec fn view(&self) -> PartView {
        PartView { name: self.name@, sheet: self.sheet@, metadata: self.metadata@ }
    }
}

/// The entries of `v` as plain values.
pub open spec fn parts_view(v: Seq<LoadedEntry>) -> Seq<PartView> {
    v.map_values(|p: LoadedEntry| p@)
}

/// The entry that the two files of `part` hold; `None` where one of them
/// cannot be read.
pub open spec fn sheet_of_part(part: PartView) -> Option<SheetView> {
    match (image_of_record(part.sheet), tags_of_metadata(part.metadata)) {
        (Some(image), Some(tags)) => Some(SheetView { name: part.name, tags: tags, image: image }),
        _ => None,
    }
}

/// The store that holds the entries of `parts`, put in one after the other;
/// `None` where a file of one of them cannot be read.
pub open spec fn loaded_sheets(parts: Seq<PartView>) -> Option<StoreView>
    decreases parts.len(),
{
    if parts.len() == 0 {
        Some(StoreView::empty())
    } else {
        match (loaded_sheets(parts.drop_last()), sheet_of_part(parts.last())) {
            (Some(store), Some(sheet)) => Some(store.insert(sheet)),
            _ => None,
        }
    }
}

/// The lists of `members`, each string of a list kept once.
pub open spec fn distinct_lists(members: TagMap) -> TagMap {
    members.map_values(|list: Seq<Seq<char>>| distinct(list))
}

/// The members of `v`, each string of a list kept once.
pub open spec fn distinct_members(v: Seq<TagsView>) -> Seq<TagsView> {
    v.map_values(|t: TagsView| TagsView { key: t.key, tags: distinct(t.tags) })
}

/// The files of the entries `sheets` as they are written.
pub open spec fn saved_parts(sheets: Seq<SheetView>) -> Seq<PartView> {
    sheets.map_values(
        |e: SheetView|
            PartView {
                name: e.name,
                sheet: image_bytes(e.image),
                metadata: metadata_bytes(e.tags),
            },
    )
}

/// Whether `parts` and `wm_class_tags` are the files that are written for
/// the store `store`.
pub open spec fn saved_as(store: StoreView, parts: Seq<PartView>, wm_class_tags: Seq<u8>) -> bool {
    &&& store.wf()
    &&& parts == saved_parts(store.sheets)
    &&& wm_class_tags == wm_class_tags_bytes(store.wm_classes)
}

/// Whether two stores hold the same: the same entries in the same order,
/// and the same tags for the same window classes.
pub open spec fn same_content(a: StoreView, b: StoreView) -> bool {
    &&& a.sheets == b.sheets
    &&& tag_map(a.wm_classes) == tag_map(b.wm_classes)
}

/// Two stores that hold the same resolve every window class alike.
pub proof fn law_same_content_resolves_alike(a: StoreView, b: StoreView, wm_class: Seq<char>)
    requires
        same_content(a, b),
    ensures
        a.wm_tags(wm_class) == b.wm_tags(wm_class),
        a.resolve(wm_class) == b.resolve(wm_class),
{
    assert(tag_keys(a.wm_classes) =~= a.wm_keys());
    assert(tag_keys(b.wm_classes) =~= b.wm_keys());
    assert(tag_map(a.wm_classes).contains_key(wm_class) == a.has_wm_class(wm_class));
    assert(tag_map(b.wm_classes).contains_key(wm_class) == b.has_wm_class(wm_class));
    if a.has_wm_class(wm_class) {
        assert(tag_map(a.wm_classes)[wm_class] == a.wm_tags(wm_class));
        assert(tag_map(b.wm_classes)[wm_class] == b.wm_tags(wm_class));
    }
}

/// A sequence without duplicates holds each of its strings once already.
pub proof fn lemma_distinct_of_no_duplicates(s: Seq<Seq<char>>)
    requires
        s.no_duplicates(),
    ensures
        distinct(s) == s,
    decreases s.len(),
{
    if s.len() > 0 {
        lemma_distinct_of_no_duplicates(s.drop_last());
        let rest = s.drop_last();
        if rest.contains(s.last()) {
            let i = choose|i: int| 0 <= i < rest.len() && rest[i] == s.last();
            assert(s[i] == s[s.len() - 1]);
        }
        assert(rest.push(s.last()) =~= s);
    }
}

/// Where all of `parts` can be read, so can its first `n`.
pub proof fn lemma_loaded_prefix(parts: Seq<PartView>, n: int)
    requires
        0 <= n <= parts.len(),
        loaded_sheets(parts) is Some,
    ensures
        loaded_sheets(parts.take(n)) is Some,
    decreases parts.len(),
{
    if n == parts.len() {
        assert(parts.take(n) =~= parts);
    } else {
        lemma_loaded_prefix(parts.drop_last(), n);
        assert(parts.drop_last().take(n) =~= parts.take(n));
    }
}

/// The files that are written for an entry are read back as that entry.
pub proof fn lemma_saved_part_reads_back(sheet: SheetView)
    requires
        sheet.tags.no_duplicates(),
        sheet.image.data.len() <= u64::MAX,
        metadata_reads_back(metadata_bytes(sheet.tags)),
    ensures
        sheet_of_part(saved_parts(seq![sheet])[0]) == Some(sheet),
{
    lemma_image_record_reads_back(sheet.image, Seq::empty());
    assert(image_bytes(sheet.image) + Seq::<u8>::empty() =~= image_bytes(sheet.image));
    lemma_distinct_of_no_duplicates(sheet.tags);
    assert(sheet_of_part(saved_parts(seq![sheet])[0])->0 =~= sheet);
}

/// The files that are written for entries of different names are read back
/// as those entries, in their order.
pub proof fn lemma_saved_parts_load(sheets: Seq<SheetView>)
    requires
        sheets.map_values(|s: SheetView| s.name).no_duplicates(),
        forall|j: int| 0 <= j < sheets.len() ==> (#[trigger] sheets[j]).tags.no_duplicates(),
        forall|j: int| 0 <= j < sheets.len() ==> (#[trigger] sheets[j]).image.data.len() <= u64::MAX,
        forall|j: int|
            0 <= j < sheets.len() ==> metadata_reads_back(
                metadata_bytes((#[trigger] sheets[j]).tags),
            ),
    ensures
        loaded_sheets(saved_parts(sheets)) == Some(
            StoreView { sheets: sheets, wm_classes: Seq::empty() },
        ),
    decreases sheets.len(),
{
    if sheets.len() > 0 {
        let rest = sheets.drop_last();
        let last = sheets.last();
        let names = sheets.map_values(|s: SheetView| s.name);
        assert(rest.map_values(|s: SheetView| s.name) =~= names.drop_last());
        assert forall|j: int| 0 <= j < rest.len() implies (#[trigger] rest[j]).tags.no_duplicates() by {
            assert(rest[j] == sheets[j]);
        }
        assert forall|j: int| 0 <= j < rest.len() implies (#[trigger] rest[j]).image.data.len()
            <= u64::MAX by {
            assert(rest[j] == sheets[j]);
        }
        assert forall|j: int| 0 <= j < rest.len() implies metadata_reads_back(
            metadata_bytes((#[trigger] rest[j]).tags),
        ) by {
            assert(rest[j] == sheets[j]);
        }
        lemma_saved_parts_load(rest);
        assert(saved_parts(sheets).drop_last() =~= saved_parts(rest));
        assert(sheets[sheets.len() - 1] == last);
        lemma_saved_part_reads_back(last);
        assert(saved_parts(sheets).last() == saved_parts(seq![last])[0]);
        let before = StoreView { sheets: rest, wm_classes: Seq::empty() };
        if before.has_sheet(last.name) {
            let i = choose|i: int| 0 <= i < before.names().len() && before.names()[i] == last.name;
            assert(names[i] == names[sheets.len() - 1]);
        }
        assert(before.insert(last).sheets =~= sheets);
    } else {
        assert(saved_parts(sheets) =~= Seq::empty());
        assert(sheets =~= Seq::empty());
    }
}

/// Puts the store together from the files that were read: the two files of
/// each entry, and the file of the window classes. An entry whose name came
/// before takes the place of the earlier one. Fails where one of the files
/// cannot be read.
pub fn load_from_parts(parts: Vec<LoadedEntry>, wm_class_tags: &Vec<u8>) -> (r: Result<
    Cheatsheets,
    Failure,
>)
    ensures
        match r {
            Ok(store) => {
                &&& loaded_sheets(parts_view(parts@)) is Some
                &&& store@.sheets == loaded_sheets(parts_view(parts@))->0.sheets
                &&& json_object_parsed(wm_class_tags@) is Some
                &&& tag_map(store@.wm_classes) == distinct_lists(
                    json_object_parsed(wm_class_tags@)->0,
                )
            },
            Err(e) => e == Failure::LoadFailure && (loaded_sheets(parts_view(parts@)) is None
                || json_object_parsed(wm_class_tags@) is None),
        },
        forall|saved: StoreView| #[trigger]
            saved_as(saved, parts_view(parts@), wm_class_tags@) ==> r is Ok && same_content(
                r->Ok_0@,
                saved,
            ),
{
    let ghost all = parts_view(parts@);
    let mut store = Cheatsheets::new();
    let mut i: usize = 0;
    while i < parts.len()
        invariant
            i <= parts.len(),
            all == parts_view(parts@),
            loaded_sheets(all.take(i as int)) == Some(store@),
            store@.wm_classes =~= Seq::<TagsView>::empty(),
            forall|j: int| 0 <= j < i ==> metadata_reads_back(#[trigger] all[j].metadata),
            forall|j: int| 0 <= j < i ==> (#[trigger] all[j]).sheet.len() <= usize::MAX,
        decreases parts.len() - i,
    {
        let part = &parts[i];
        let ghost size = part.sheet.len();
        let image = decode_image(&part.sheet);
        let tags = decode_metadata(&part.metadata);
        proof {
            assert(all.take(i as int + 1).drop_last() =~= all.take(i as int));
            assert(all.take(i as int + 1).last() == all[i as int]);
            assert(all[i as int] == part@);
        }
        match (image, tags) {
            (Ok(image), Ok(tags)) => {
                store.insert_sheet(Cheatsheet { image }, part.name.clone(), tags);
            },
            _ => {
                proof {
                    assert(sheet_of_part(all[i as int]) is None);
                    if loaded_sheets(all) is Some {
                        lemma_loaded_prefix(all, i as int + 1);
                    }
                    assert forall|saved: StoreView| #[trigger]
                        saved_as(saved, all, wm_class_tags@) implies false by {
                        let sheet = saved.sheets[i as int];
                        assert(all[i as int] == saved_parts(saved.sheets)[i as int]);
                        assert(all[i as int].sheet == image_bytes(sheet.image));
                        assert(sheet.image.data.len() <= u64::MAX);
                        lemma_saved_part_reads_back(sheet);
                        assert(saved_parts(seq![sheet])[0] =~= all[i as int]);
                    }
                }
                return Err(Failure::LoadFailure);
            },
        }
        i += 1;
    }
    assert(all.take(i as int) =~= all);
    let ghost loaded = store@;
    let members = match decode_wm_class_tags(wm_class_tags) {
        Ok(members) => members,
        Err(e) => {
            proof {
                assert forall|saved: StoreView| #[trigger]
                    saved_as(saved, all, wm_class_tags@) implies false by {
                    assert(json_object_parsed(wm_class_tags@) == Some(tag_map(saved.wm_classes)));
                }
            }
            return Err(Failure::LoadFailure);
        },
    };
    let ghost listed = tag_lists_view(members@);
    put_wm_class_tags(&mut store, &members);
    proof {
        lemma_with_members_of_different_keys(loaded, listed);
        let parsed = json_object_parsed(wm_class_tags@)->0;
        assert(parsed == tag_map(listed));
        lemma_distinct_members_map(listed);
        assert forall|saved: StoreView| #[trigger]
            saved_as(saved, all, wm_class_tags@) implies same_content(store@, saved) by {
            assert forall|j: int| 0 <= j < saved.sheets.len() implies (
            #[trigger] saved.sheets[j]).image.data.len() <= u64::MAX by {
                assert(all[j] == saved_parts(saved.sheets)[j]);
                assert(all[j].sheet == image_bytes(saved.sheets[j].image));
            }
            assert forall|j: int| 0 <= j < saved.sheets.len() implies metadata_reads_back(
                metadata_bytes((#[trigger] saved.sheets[j]).tags),
            ) by {
                assert(all[j] == saved_parts(saved.sheets)[j]);
                assert(all[j].metadata == metadata_bytes(saved.sheets[j].tags));
            }
            lemma_saved_parts_load(saved.sheets);
            assert(json_object_parsed(wm_class_tags@) == Some(tag_map(saved.wm_classes)));
            lemma_no_duplicate_lists_map(saved.wm_classes);
        }
    }
    Ok(store)
}

/// Keeping each string of each list once leaves the keys as they are, and
/// does to the map of the members what it does to the members.
pub proof fn lemma_distinct_members_map(v: Seq<TagsView>)
    ensures
        tag_map(distinct_members(v)) == distinct_lists(tag_map(v)),
{
    assert(tag_keys(distinct_members(v)) =~= tag_keys(v));
    assert(tag_map(distinct_members(v)) =~= distinct_lists(tag_map(v)));
}

/// Where no list holds a string twice, keeping each string once changes
/// nothing.
pub proof fn lemma_no_duplicate_lists_map(v: Seq<TagsView>)
    requires
        forall|i: int| 0 <= i < v.len() ==> (#[trigger] v[i]).tags.no_duplicates(),
    ensures
        distinct_lists(tag_map(v)) == tag_map(v),
{
    assert forall|k: Seq<char>| tag_map(v).contains_key(k) implies #[trigger] distinct_lists(
        tag_map(v),
    )[k] == tag_map(v)[k] by {
        let i = tag_keys(v).index_of(k);
        assert(0 <= i < v.len() && tag_keys(v)[i] == k);
        lemma_distinct_of_no_duplicates(v[i].tags);
    }
    assert(distinct_lists(tag_map(v)) =~= tag_map(v));
}

impl UiState {
    /// The state at start, around the store that the files hold: `files` are
    /// the files of the entries and the file of the window classes as they
    /// were read, or `None` where they could not be read. Where the store
    /// cannot be had from them, the state starts around an empty store.
    pub fn with_loaded_cheatsheets(files: Option<(Vec<LoadedEntry>, Vec<u8>)>) -> (r: Self)
        ensures
            match files {
                Some(read) => {
                    let parts = parts_view(read.0@);
                    if loaded_sheets(parts) is Some && json_object_parsed(read.1@) is Some {
                        &&& r@ == UiView::initial(r@.store)
                        &&& r@.store.sheets == loaded_sheets(parts)->0.sheets
                        &&& tag_map(r@.store.wm_classes) == distinct_lists(
                            json_object_parsed(read.1@)->0,
                        )
                    } else {
                        r@ == UiView::initial(StoreView::empty())
                    }
                },
                None => r@ == UiView::initial(StoreView::empty()),
            },
    {
        let loaded = match files {
            Some(read) => {
                let (parts, wm_class_tags) = read;
                load_from_parts(parts, &wm_class_tags)
            },
            None => Err(Failure::LoadFailure),
        };
        match loaded {
            Ok(store) => UiState::new(store),
            Err(_) => UiState::new(Cheatsheets::new()),
        }
    }
}

} // verus!
