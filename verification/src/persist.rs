//! Turning a store into the files that hold it.

use vstd::prelude::*;
use vstd::string::StringExecFns;
use crate::codec::bincode_image_record;
use crate::codec::image_record;
use crate::codec::json_object_bytes;
use crate::codec::json_object_to_vec;
use crate::codec::tag_keys;
use crate::codec::tag_lists_view;
use crate::codec::tag_map;
use crate::codec::TagList;
use crate::error::Failure;
use crate::model::CheatsheetImage;
use crate::model::ImageView;
use crate::model::TagsView;
use crate::store::Cheatsheets;
use crate::store::SheetView;
use crate::store::StoreView;

verus! {

/// A file to write: its name inside the store's directory, and its
/// contents.
#[derive(Debug)]
pub struct SaveJob {
    pub path: String,
    pub data: Vec<u8>,
}

/// A `SaveJob` as plain values.
#[verifier::ext_equal]
pub struct JobView {
    pub path: Seq<char>,
    pub data: Seq<u8>,
}

impl View for SaveJob {
    type V = JobView;

    open spec fn view(&self) -> JobView {
        JobView { path: self.path@, data: self.data@ }
    }
}

/// The jobs of `v` as plain values.
pub open spec fn jobs_view(v: Seq<SaveJob>) -> Seq<JobView> {
    v.map_values(|j: SaveJob| j@)
}

/// The name of the file that holds the image of the entry named `name`.
pub open spec fn sheet_file_name(name: Seq<char>) -> Seq<char> {
    name + ".cs"@
}

/// The name of the file that holds the tags of the entry named `name`.
pub open spec fn metadata_file_name(name: Seq<char>) -> Seq<char> {
    name + "-metadata.json"@
}

/// The name of the file that holds the tags of all window classes.
pub open spec fn wm_class_tags_file_name() -> Seq<char> {
    "wm_class_tags.json"@
}

/// The contents of the file that holds `image`.
pub open spec fn image_bytes(image: ImageView) -> Seq<u8> {
    image_record(
        image.format.code() as u32,
        image.order.code() as u32,
        image.width,
        image.height,
        image.data,
    )
}

/// The contents of the file that holds the tags `tags` of an entry: a JSON
/// object with the one member `tags`.
pub open spec fn metadata_bytes(tags: Seq<Seq<char>>) -> Seq<u8> {
    json_object_bytes(map!["tags"@ => tags])
}

/// The contents of the file that holds the tags of the window classes: a
/// JSON object with one member for each window class.
pub open spec fn wm_class_tags_bytes(wm_classes: Seq<TagsView>) -> Seq<u8> {
    json_object_bytes(tag_map(wm_classes))
}

/// The two files of an entry: first its image, then its tags.
pub open spec fn sheet_jobs(sheet: SheetView) -> Seq<JobView> {
    seq![
        JobView { path: sheet_file_name(sheet.name), data: image_bytes(sheet.image) },
        JobView { path: metadata_file_name(sheet.name), data: metadata_bytes(sheet.tags) },
    ]
}

/// The files of the entries `sheets`, entry by entry in their order.
pub open spec fn sheets_plan(sheets: Seq<SheetView>) -> Seq<JobView>
    decreases sheets.len(),
{
    if sheets.len() == 0 {
        Seq::empty()
    } else {
        sheets_plan(sheets.drop_last()) + sheet_jobs(sheets.last())
    }
}

/// All files that hold `store`, in the order in which they are written: the
/// two files of each entry in store order, then the file of the window
/// classes.
pub open spec fn save_plan(store: StoreView) -> Seq<JobView> {
    sheets_plan(store.sheets).push(
        JobView {
            path: wm_class_tags_file_name(),
            data: wm_class_tags_bytes(store.wm_classes),
        },
    )
}

/// The contents of the file that holds `image`.
fn encode_image(image: &CheatsheetImage) -> (r: Result<Vec<u8>, Failure>)
    ensures
        r matches Ok(bytes) && bytes@ == image_bytes(image@),
{
    let format: u32 = image.format.to_i32() as u32;
    let order: u32 = image.order.to_i32() as u32;
    match bincode_image_record(format, order, image.width, image.height, &image.data) {
        Ok(bytes) => Ok(bytes),
        Err(_) => Err(Failure::PersistenceFailure),
    }
}

/// The contents of the file that holds the tags `tags` of an entry.
fn encode_metadata(tags: Vec<String>) -> (r: Result<Vec<u8>, Failure>)
    ensures
        r matches Ok(bytes) && bytes@ == metadata_bytes(crate::tags::strings_view(tags@)),
{
    let ghost list = crate::tags::strings_view(tags@);
    let mut members: Vec<TagList> = Vec::new();
    members.push(TagList { key: String::from_str("tags"), tags });
    proof {
        let views = tag_lists_view(members@);
        assert(views =~= seq![TagsView { key: "tags"@, tags: list }]);
        assert(tag_keys(views) =~= seq!["tags"@]);
        assert(tag_keys(views)[0] == "tags"@);
        assert forall|k: Seq<char>| #[trigger] tag_map(views).contains_key(k) implies k == "tags"@ by {
            let i = tag_keys(views).index_of(k);
            assert(0 <= i < 1 && tag_keys(views)[i] == k);
        }
        assert(tag_map(views).contains_key("tags"@));
        assert(tag_map(views) =~= map!["tags"@ => list]);
    }
    match json_object_to_vec(&members) {
        Ok(bytes) => Ok(bytes),
        Err(_) => Err(Failure::PersistenceFailure),
    }
}

/// The contents of the file that holds the tags of the window classes of
/// `store`.
fn encode_wm_class_tags(store: &Cheatsheets) -> (r: Result<Vec<u8>, Failure>)
    ensures
        r matches Ok(bytes) && bytes@ == wm_class_tags_bytes(store@.wm_classes),
{
    proof {
        use_type_invariant(store);
    }
    let mut members: Vec<TagList> = Vec::new();
    let mut i: usize = 0;
    while i < store.wm_class_count()
        invariant
            i <= store@.wm_classes.len(),
            tag_lists_view(members@) =~= store@.wm_classes.take(i as int),
        decreases store@.wm_classes.len() - i,
    {
        if let Some(entry) = store.wm_class_at(i) {
            let member = TagList { key: entry.wm_class.clone(), tags: entry.tags.to_vec() };
            let ghost before = tag_lists_view(members@);
            members.push(member);
            proof {
                let all = store@.wm_classes;
                assert(member@ =~= all[i as int]);
                assert(tag_lists_view(members@) =~= before.push(member@));
                assert(all.take(i as int + 1) =~= all.take(i as int).push(all[i as int]));
            }
        }
        i += 1;
    }
    proof {
        assert(store@.wm_classes.take(i as int) =~= store@.wm_classes);
        assert(tag_keys(store@.wm_classes) =~= store@.wm_keys());
    }
    match json_object_to_vec(&members) {
        Ok(bytes) => Ok(bytes),
        Err(_) => Err(Failure::PersistenceFailure),
    }
}

/// Turns the store into the files that hold it, in the order in which they
/// are to be written: the two files of each entry in store order, then the
/// file of the window classes. It succeeds for every store.
pub fn save_jobs(store: &Cheatsheets) -> (r: Result<Vec<SaveJob>, Failure>)
    ensures
        r matches Ok(jobs) && jobs_view(jobs@) == save_plan(store@),
{
    let mut jobs: Vec<SaveJob> = Vec::new();
    let mut i: usize = 0;
    while i < store.len()
        invariant
            i <= store@.sheets.len(),
            jobs_view(jobs@) =~= sheets_plan(store@.sheets.take(i as int)),
        decreases store@.sheets.len() - i,
    {
        if let Some(entry) = store.sheet_at(i) {
            let image = encode_image(&entry.sheet.image)?;
            let metadata = encode_metadata(entry.metadata.tags.to_vec())?;
            let sheet_job = SaveJob { path: entry.name.clone().concat(".cs"), data: image };
            let metadata_job = SaveJob {
                path: entry.name.clone().concat("-metadata.json"),
                data: metadata,
            };
            let ghost before = jobs_view(jobs@);
            jobs.push(sheet_job);
            jobs.push(metadata_job);
            proof {
                let all = store@.sheets;
                let upto = all.take(i as int + 1);
                assert(upto.drop_last() =~= all.take(i as int));
                assert(upto.last() == all[i as int]);
                assert(sheet_job@ =~= sheet_jobs(all[i as int])[0]);
                assert(metadata_job@ =~= sheet_jobs(all[i as int])[1]);
                assert(jobs_view(jobs@) =~= before + sheet_jobs(all[i as int]));
            }
        }
        i += 1;
    }
    let wm_class_tags = encode_wm_class_tags(store)?;
    let ghost before = jobs_view(jobs@);
    let last = SaveJob { path: String::from_str("wm_class_tags.json"), data: wm_class_tags };
    jobs.push(last);
    proof {
        assert(store@.sheets.take(i as int) =~= store@.sheets);
        assert(jobs_view(jobs@) =~= before.push(last@));
    }
    Ok(jobs)
}

} // verus!
