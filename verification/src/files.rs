//! The names of the files that hold a store, and which files of a directory
//! are read back.

use vstd::prelude::*;
use vstd::string::StrSliceExecFns;
use vstd::string::StringExecFns;
use crate::error::Failure;
use crate::load::saved_parts;
use crate::load::PartView;
use crate::persist::wm_class_tags_bytes;
use crate::persist::metadata_file_name;
use crate::persist::save_plan;
use crate::persist::sheet_file_name;
use crate::persist::sheet_jobs;
use crate::persist::sheets_plan;
use crate::persist::wm_class_tags_file_name;
use crate::persist::JobView;
use crate::store::SheetView;
use crate::store::StoreView;

verus! {

/// Where the last dot of `s` stands; -1 where it has none.
pub open spec fn last_dot(s: Seq<char>) -> int
    decreases s.len(),
{
    if s.len() == 0 {
        -1
    } else if s.last() == '.' {
        s.len() - 1
    } else {
        last_dot(s.drop_last())
    }
}

/// Whether the file name `file` has an extension: it has a dot that is not
/// its first character, and it is not `..`.
pub open spec fn has_extension(file: Seq<char>) -> bool {
    file != ".."@ && last_dot(file) > 0
}

/// The extension of the file name `file`: what follows its last dot.
pub open spec fn extension_spec(file: Seq<char>) -> Option<Seq<char>> {
    if has_extension(file) {
        Some(file.subrange(last_dot(file) + 1, file.len() as int))
    } else {
        None
    }
}

/// The stem of the file name `file`: what stands before its last dot, or
/// all of it where it has no extension.
pub open spec fn file_stem_spec(file: Seq<char>) -> Seq<char> {
    if has_extension(file) {
        file.subrange(0, last_dot(file))
    } else {
        file
    }
}

/// The last dot of `s` stands at `at` if a dot stands there and none
/// behind it; `s` has none if `at` is -1 and no dot stands anywhere.
pub proof fn lemma_last_dot(s: Seq<char>, at: int)
    requires
        -1 <= at < s.len(),
        at >= 0 ==> s[at] == '.',
        forall|j: int| at < j < s.len() ==> s[j] != '.',
    ensures
        last_dot(s) == at,
    decreases s.len(),
{
    if s.len() > 0 && at < s.len() - 1 {
        lemma_last_dot(s.drop_last(), at);
    }
}

/// Splits a file name into its stem and its extension; `None` where it has
/// no extension.
pub fn split_file_name(file: &str) -> (r: Option<(String, String)>)
    ensures
        match r {
            Some(parts) => has_extension(file@) && parts.0@ == file_stem_spec(file@)
                && extension_spec(file@) == Some(parts.1@),
            None => !has_extension(file@),
        },
{
    let n = file.unicode_len();
    let mut i: usize = n;
    while i > 0 && file.get_char(i - 1) != '.'
        invariant
            i <= n,
            n == file@.len(),
            forall|j: int| i <= j < n ==> file@[j] != '.',
        decreases i,
    {
        i -= 1;
    }
    proof {
        lemma_last_dot(file@, i as int - 1);
    }
    if i <= 1 || String::from_str(file) == String::from_str("..") {
        None
    } else {
        let stem = String::from_str(file.substring_char(0, i - 1));
        let extension = String::from_str(file.substring_char(i, n));
        Some((stem, extension))
    }
}

/// A file as the store's directory lists it.
#[derive(Debug)]
pub struct ListedFile {
    /// The name of the file; where the name is no valid text, what can be
    /// shown of it.
    pub name: String,
    /// Whether the name is valid text.
    pub utf8: bool,
}

/// A `ListedFile` as plain values.
pub struct ListedView {
    pub name: Seq<char>,
    pub utf8: bool,
}

impl View for ListedFile {
    type V = ListedView;

    open spec fn view(&self) -> ListedView {
        ListedView { name: self.name@, utf8: self.utf8 }
    }
}

/// The files of `v` as plain values.
pub open spec fn listing_view(v: Seq<ListedFile>) -> Seq<ListedView> {
    v.map_values(|f: ListedFile| f@)
}

/// An entry to read: its name, and the names of its two files.
#[derive(Debug)]
pub struct WantedEntry {
    pub name: String,
    pub sheet_file: String,
    pub metadata_file: String,
}

/// A `WantedEntry` as plain values.
#[verifier::ext_equal]
pub struct WantedView {
    pub name: Seq<char>,
    pub sheet_file: Seq<char>,
    pub metadata_file: Seq<char>,
}

impl View for WantedEntry {
    type V = WantedView;

    open spec fn view(&self) -> WantedView {
        WantedView {
            name: self.name@,
            sheet_file: self.sheet_file@,
            metadata_file: self.metadata_file@,
        }
    }
}

/// The entries of `v` as plain values.
pub open spec fn wanted_view(v: Seq<WantedEntry>) -> Seq<WantedView> {
    v.map_values(|w: WantedEntry| w@)
}

/// Whether the file named `file` holds the image of an entry: its extension
/// is `cs`.
pub open spec fn is_sheet_file(file: Seq<char>) -> bool {
    extension_spec(file) == Some("cs"@)
}

/// The entry that the image file named `file` belongs to: it is named by the
/// file's stem, and its metadata file is named after it.
pub open spec fn wanted_for(file: Seq<char>) -> WantedView {
    WantedView {
        name: file_stem_spec(file),
        sheet_file: file,
        metadata_file: metadata_file_name(file_stem_spec(file)),
    }
}

/// The entries to read from a directory that lists `listing`: one for each
/// image file, in the order of the listing; `None` where the name of an
/// image file is no valid text.
pub open spec fn load_plan_spec(listing: Seq<ListedView>) -> Option<Seq<WantedView>>
    decreases listing.len(),
{
    if listing.len() == 0 {
        Some(Seq::empty())
    } else {
        match load_plan_spec(listing.drop_last()) {
            Some(wanted) => if !is_sheet_file(listing.last().name) {
                Some(wanted)
            } else if listing.last().utf8 {
                Some(wanted.push(wanted_for(listing.last().name)))
            } else {
                None
            },
            None => None,
        }
    }
}

/// Where the plan for a listing fails, so does the plan for a longer one.
pub proof fn lemma_load_plan_prefix(listing: Seq<ListedView>, n: int)
    requires
        0 <= n <= listing.len(),
        load_plan_spec(listing.take(n)) is None,
    ensures
        load_plan_spec(listing) is None,
    decreases listing.len(),
{
    if n == listing.len() {
        assert(listing.take(n) =~= listing);
    } else {
        assert(listing.drop_last().take(n) =~= listing.take(n));
        lemma_load_plan_prefix(listing.drop_last(), n);
    }
}

/// Says which entries are to be read from the store's directory, given the
/// files that it lists: one entry for each file with the extension `cs`.
/// All other files are passed over. Fails where the name of such a file is
/// no valid text.
pub fn load_plan(listing: &Vec<ListedFile>) -> (r: Result<Vec<WantedEntry>, Failure>)
    ensures
        match r {
            Ok(wanted) => load_plan_spec(listing_view(listing@)) == Some(wanted_view(wanted@)),
            Err(e) => e == Failure::LoadFailure && load_plan_spec(listing_view(listing@)) is None,
        },
{
    let ghost all = listing_view(listing@);
    let mut wanted: Vec<WantedEntry> = Vec::new();
    let mut i: usize = 0;
    assert(wanted_view(wanted@) =~= Seq::empty());
    while i < listing.len()
        invariant
            i <= listing.len(),
            all == listing_view(listing@),
            load_plan_spec(all.take(i as int)) == Some(wanted_view(wanted@)),
        decreases listing.len() - i,
    {
        let file = &listing[i];
        proof {
            assert(all.take(i as int + 1).drop_last() =~= all.take(i as int));
            assert(all.take(i as int + 1).last() == file@);
        }
        if let Some(parts) = split_file_name(file.name.as_str()) {
            let (stem, extension) = parts;
            if extension == String::from_str("cs") {
                if !file.utf8 {
                    proof {
                        lemma_load_plan_prefix(all, i as int + 1);
                    }
                    return Err(Failure::LoadFailure);
                }
                let entry = WantedEntry {
                    metadata_file: stem.clone().concat("-metadata.json"),
                    name: stem,
                    sheet_file: file.name.clone(),
                };
                let ghost before = wanted_view(wanted@);
                wanted.push(entry);
                proof {
                    assert(entry@ =~= wanted_for(file@.name));
                    assert(wanted_view(wanted@) =~= before.push(entry@));
                }
            }
        }
        i += 1;
    }
    assert(all.take(i as int) =~= all);
    Ok(wanted)
}

/// The files of `plan` as a directory lists them, all under names that are
/// valid text.
pub open spec fn listing_of(plan: Seq<JobView>) -> Seq<ListedView> {
    plan.map_values(|j: JobView| ListedView { name: j.path, utf8: true })
}

/// The entries to read for the entries `sheets` of a store.
pub open spec fn wanted_of(sheets: Seq<SheetView>) -> Seq<WantedView> {
    sheets.map_values(
        |s: SheetView|
            WantedView {
                name: s.name,
                sheet_file: sheet_file_name(s.name),
                metadata_file: metadata_file_name(s.name),
            },
    )
}

/// The image file of an entry whose name is not empty is found again: its
/// extension is `cs`, and its stem is the name of the entry.
pub proof fn law_sheet_file_is_found(name: Seq<char>)
    requires
        name.len() > 0,
    ensures
        is_sheet_file(sheet_file_name(name)),
        file_stem_spec(sheet_file_name(name)) == name,
{
    reveal_strlit(".cs");
    reveal_strlit("cs");
    reveal_strlit("..");
    let file = sheet_file_name(name);
    assert(file.len() == name.len() + 3);
    lemma_last_dot(file, name.len() as int);
    assert(file.subrange(name.len() as int + 1, file.len() as int) =~= "cs"@);
    assert(file.subrange(0, name.len() as int) =~= name);
}

/// Neither the metadata file of an entry nor the file of the window classes
/// is taken for the image file of an entry.
pub proof fn law_other_files_are_no_sheet_files(name: Seq<char>)
    ensures
        !is_sheet_file(metadata_file_name(name)),
        !is_sheet_file(wm_class_tags_file_name()),
{
    reveal_strlit("-metadata.json");
    reveal_strlit("wm_class_tags.json");
    reveal_strlit("cs");
    let file = metadata_file_name(name);
    assert(file.len() == name.len() + 14);
    lemma_last_dot(file, name.len() as int + 9);
    assert(file.subrange(name.len() as int + 10, file.len() as int).len() == 4);
    let other = wm_class_tags_file_name();
    lemma_last_dot(other, 13);
    assert(other.subrange(14, other.len() as int).len() == 4);
    assert("cs"@.len() == 2);
}

/// For the files that are written for entries with names that are not
/// empty, the plan asks for exactly these entries, in their order.
proof fn lemma_sheets_plan_is_wanted(sheets: Seq<SheetView>)
    requires
        forall|i: int| 0 <= i < sheets.len() ==> (#[trigger] sheets[i]).name.len() > 0,
    ensures
        load_plan_spec(listing_of(sheets_plan(sheets))) == Some(wanted_of(sheets)),
    decreases sheets.len(),
{
    if sheets.len() == 0 {
        assert(listing_of(sheets_plan(sheets)) =~= Seq::empty());
        assert(wanted_of(sheets) =~= Seq::empty());
    } else {
        let rest = sheets.drop_last();
        let last = sheets.last();
        assert forall|i: int| 0 <= i < rest.len() implies (#[trigger] rest[i]).name.len() > 0 by {
            assert(rest[i] == sheets[i]);
        }
        lemma_sheets_plan_is_wanted(rest);
        assert(sheets[sheets.len() - 1] == last);
        law_sheet_file_is_found(last.name);
        law_other_files_are_no_sheet_files(last.name);
        let first = listing_of(sheets_plan(rest));
        let image = ListedView { name: sheet_file_name(last.name), utf8: true };
        let metadata = ListedView { name: metadata_file_name(last.name), utf8: true };
        let all = listing_of(sheets_plan(sheets));
        assert(sheets_plan(sheets) =~= sheets_plan(rest) + sheet_jobs(last));
        assert(all =~= first.push(image).push(metadata));
        assert(all.drop_last() =~= first.push(image));
        assert(all.last() == metadata);
        assert(load_plan_spec(all) == load_plan_spec(first.push(image)));
        assert(first.push(image).drop_last() =~= first);
        assert(first.push(image).last() == image);
        assert(load_plan_spec(first.push(image)) == Some(
            wanted_of(rest).push(wanted_for(image.name)),
        ));
        assert(wanted_for(image.name) =~= WantedView {
            name: last.name,
            sheet_file: sheet_file_name(last.name),
            metadata_file: metadata_file_name(last.name),
        });
        assert(wanted_of(sheets) =~= wanted_of(rest).push(wanted_for(image.name)));
    }
}

/// What is written for a store whose entries all have names that are not
/// empty is found again in the directory: the plan for the written files
/// asks for exactly the entries of the store, in store order, each with its
/// two files.
pub proof fn law_saved_files_are_wanted(store: StoreView)
    requires
        forall|i: int| 0 <= i < store.sheets.len() ==> (#[trigger] store.sheets[i]).name.len() > 0,
    ensures
        load_plan_spec(listing_of(save_plan(store))) == Some(wanted_of(store.sheets)),
{
    lemma_sheets_plan_is_wanted(store.sheets);
    law_other_files_are_no_sheet_files(Seq::empty());
    let all = listing_of(save_plan(store));
    assert(all.drop_last() =~= listing_of(sheets_plan(store.sheets)));
}

/// The names of the files of `plan`, in order.
pub open spec fn job_paths(plan: Seq<JobView>) -> Seq<Seq<char>> {
    plan.map_values(|j: JobView| j.path)
}

/// The files that are written for `sheets` come in pairs: for the entry at
/// `i`, its image file and then its metadata file.
proof fn lemma_sheets_plan_pairs(sheets: Seq<SheetView>, i: int)
    requires
        0 <= i < sheets.len(),
    ensures
        sheets_plan(sheets).len() == 2 * sheets.len(),
        sheets_plan(sheets)[2 * i].path == sheet_file_name(sheets[i].name),
        sheets_plan(sheets)[2 * i + 1].path == metadata_file_name(sheets[i].name),
    decreases sheets.len(),
{
    lemma_sheets_plan_len(sheets.drop_last());
    if i < sheets.len() - 1 {
        lemma_sheets_plan_pairs(sheets.drop_last(), i);
    }
}

/// Two files are written for each entry.
proof fn lemma_sheets_plan_len(sheets: Seq<SheetView>)
    ensures
        sheets_plan(sheets).len() == 2 * sheets.len(),
    decreases sheets.len(),
{
    if sheets.len() > 0 {
        lemma_sheets_plan_len(sheets.drop_last());
    }
}

/// What is written for a store with some number of entries is twice that
/// many files and one more: for the entry at `i`, its image file and right
/// behind it its metadata file, and behind all of them the file of the
/// window classes.
pub proof fn law_save_plan_is_paired(store: StoreView, i: int)
    requires
        0 <= i < store.sheets.len(),
    ensures
        save_plan(store).len() == 2 * store.sheets.len() + 1,
        save_plan(store)[2 * i] == sheet_jobs(store.sheets[i])[0],
        save_plan(store)[2 * i + 1] == sheet_jobs(store.sheets[i])[1],
        save_plan(store).last() == (JobView {
            path: wm_class_tags_file_name(),
            data: wm_class_tags_bytes(store.wm_classes),
        }),
{
    lemma_sheets_plan_pairs(store.sheets, i);
    lemma_sheets_plan_data(store.sheets, i);
}

/// What is written for a store without entries is the file of the window
/// classes alone.
pub proof fn law_save_plan_of_no_entries(store: StoreView)
    requires
        store.sheets.len() == 0,
    ensures
        save_plan(store) == seq![
            JobView {
                path: wm_class_tags_file_name(),
                data: wm_class_tags_bytes(store.wm_classes),
            },
        ],
{
    assert(save_plan(store) =~= seq![
        JobView {
            path: wm_class_tags_file_name(),
            data: wm_class_tags_bytes(store.wm_classes),
        },
    ]);
}

/// Two strings that are equal after the same ending was put behind each
/// are equal.
proof fn lemma_same_ending(a: Seq<char>, b: Seq<char>, ending: Seq<char>)
    requires
        a + ending == b + ending,
    ensures
        a == b,
{
    assert((a + ending).len() == (b + ending).len());
    assert((a + ending).subrange(0, a.len() as int) =~= a);
    assert((b + ending).subrange(0, b.len() as int) =~= b);
}

/// No two files that are written for a store have the same name: nothing
/// that is written in one round is written over in that round.
pub proof fn law_saved_paths_are_distinct(store: StoreView)
    requires
        store.wf(),
    ensures
        job_paths(save_plan(store)).no_duplicates(),
{
    reveal_strlit(".cs");
    reveal_strlit("-metadata.json");
    reveal_strlit("wm_class_tags.json");
    let sheets = store.sheets;
    let n = sheets.len() as int;
    let paths = job_paths(save_plan(store));
    lemma_sheets_plan_len(sheets);
    assert forall|a: int, b: int| 0 <= a < b < paths.len() implies paths[a] != paths[b] by {
        let i = a / 2;
        let name = sheets[i].name;
        lemma_sheets_plan_pairs(sheets, i);
        assert(store.names()[i] == name);
        let first = if a % 2 == 0 {
            sheet_file_name(name)
        } else {
            metadata_file_name(name)
        };
        assert(paths[a] == first);
        if b == 2 * n {
            let last = wm_class_tags_file_name();
            assert(paths[b] == last);
            if first == last {
                if a % 2 == 0 {
                    assert(first[first.len() - 1] == 's');
                    assert(last[last.len() - 1] == 'n');
                } else {
                    assert(name.len() == 4);
                    assert(first[4] == '-');
                    assert(last[4] == 'l');
                }
            }
        } else {
            let k = b / 2;
            let other = sheets[k].name;
            lemma_sheets_plan_pairs(sheets, k);
            assert(store.names()[k] == other);
            let second = if b % 2 == 0 {
                sheet_file_name(other)
            } else {
                metadata_file_name(other)
            };
            assert(paths[b] == second);
            if first == second {
                if a % 2 == b % 2 {
                    assert(i != k);
                    if a % 2 == 0 {
                        lemma_same_ending(name, other, ".cs"@);
                    } else {
                        lemma_same_ending(name, other, "-metadata.json"@);
                    }
                } else {
                    assert(first[first.len() - 1] != second[second.len() - 1]);
                }
            }
        }
    }
}

/// What a directory holds after the files of `plan` were written into it,
/// one after the other: for each name, what was written last under it.
pub open spec fn written(plan: Seq<JobView>) -> Map<Seq<char>, Seq<u8>>
    decreases plan.len(),
{
    if plan.len() == 0 {
        Map::empty()
    } else {
        written(plan.drop_last()).insert(plan.last().path, plan.last().data)
    }
}

/// The files of the entries `wanted` as they are read from the directory
/// `dir`.
pub open spec fn read_parts(wanted: Seq<WantedView>, dir: Map<Seq<char>, Seq<u8>>) -> Seq<
    PartView,
> {
    wanted.map_values(
        |w: WantedView|
            PartView { name: w.name, sheet: dir[w.sheet_file], metadata: dir[w.metadata_file] },
    )
}

/// Where no two files of `plan` have the same name, the directory holds
/// each of them as it was written.
proof fn lemma_written_holds_each_file(plan: Seq<JobView>, i: int)
    requires
        job_paths(plan).no_duplicates(),
        0 <= i < plan.len(),
    ensures
        written(plan).contains_key(plan[i].path),
        written(plan)[plan[i].path] == plan[i].data,
    decreases plan.len(),
{
    let rest = plan.drop_last();
    if i < plan.len() - 1 {
        assert(job_paths(rest) =~= job_paths(plan).drop_last());
        lemma_written_holds_each_file(rest, i);
        assert(job_paths(plan)[i] != job_paths(plan)[plan.len() - 1]);
    }
}

/// After the files of a store were written into a directory, the files that
/// are read for its entries, and the file of the window classes, are those
/// that were written for the store.
pub proof fn law_written_files_are_read_back(store: StoreView)
    requires
        store.wf(),
    ensures
        read_parts(wanted_of(store.sheets), written(save_plan(store))) == saved_parts(
            store.sheets,
        ),
        written(save_plan(store))[wm_class_tags_file_name()] == wm_class_tags_bytes(
            store.wm_classes,
        ),
{
    let plan = save_plan(store);
    let dir = written(plan);
    let sheets = store.sheets;
    law_saved_paths_are_distinct(store);
    lemma_sheets_plan_len(sheets);
    lemma_written_holds_each_file(plan, plan.len() - 1);
    assert forall|i: int| 0 <= i < sheets.len() implies #[trigger] read_parts(
        wanted_of(sheets),
        dir,
    )[i] == saved_parts(sheets)[i] by {
        lemma_sheets_plan_pairs(sheets, i);
        lemma_sheets_plan_data(sheets, i);
        lemma_written_holds_each_file(plan, 2 * i);
        lemma_written_holds_each_file(plan, 2 * i + 1);
    }
    assert(read_parts(wanted_of(sheets), dir) =~= saved_parts(sheets));
}

/// The files that are written for the entry at `i` hold its image and its
/// tags.
proof fn lemma_sheets_plan_data(sheets: Seq<SheetView>, i: int)
    requires
        0 <= i < sheets.len(),
    ensures
        sheets_plan(sheets).len() == 2 * sheets.len(),
        sheets_plan(sheets)[2 * i].data == crate::persist::image_bytes(sheets[i].image),
        sheets_plan(sheets)[2 * i + 1].data == crate::persist::metadata_bytes(sheets[i].tags),
    decreases sheets.len(),
{
    lemma_sheets_plan_len(sheets.drop_last());
    if i < sheets.len() - 1 {
        lemma_sheets_plan_data(sheets.drop_last(), i);
    }
}

} // verus!
