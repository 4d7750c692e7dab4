use pb_cheatsheet::error::Failure;
use pb_cheatsheet::load::decode_image;
use pb_cheatsheet::load::decode_metadata;
use pb_cheatsheet::load::decode_wm_class_tags;
use pb_cheatsheet::codec::TagList;
use pb_cheatsheet::load::load_from_parts;
use pb_cheatsheet::load::metadata_tags;
use pb_cheatsheet::load::put_wm_class_tags;
use pb_cheatsheet::load::LoadedEntry;
use pb_cheatsheet::model::ByteOrder;
use pb_cheatsheet::model::CheatsheetImage;
use pb_cheatsheet::model::ImageFormat;
use pb_cheatsheet::persist::save_jobs;
use pb_cheatsheet::persist::SaveJob;
use pb_cheatsheet::store::Cheatsheet;
use pb_cheatsheet::store::Cheatsheets;
use pb_cheatsheet::tags::TagSet;
use pb_cheatsheet::ui::UiMode;
use pb_cheatsheet::ui::UiState;

fn image(order: ByteOrder, width: u32, height: u32, data: Vec<u8>) -> CheatsheetImage {
    CheatsheetImage { format: ImageFormat::Gray8, order, width, height, data }
}

fn tags(items: &[&str]) -> TagSet {
    TagSet::from_vec(items.iter().map(|s| s.to_string()).collect())
}

fn parts_of(jobs: &[SaveJob]) -> (Vec<LoadedEntry>, Vec<u8>) {
    let mut parts = Vec::new();
    let mut i = 0;
    while i + 1 < jobs.len() {
        let name = jobs[i].path.strip_suffix(".cs").unwrap().to_string();
        assert_eq!(jobs[i + 1].path, format!("{name}-metadata.json"));
        parts.push(LoadedEntry {
            name,
            sheet: jobs[i].data.clone(),
            metadata: jobs[i + 1].data.clone(),
        });
        i += 2;
    }
    (parts, jobs[jobs.len() - 1].data.clone())
}

fn content(store: &Cheatsheets) -> (Vec<(String, Vec<String>, u32, Vec<u8>)>, Vec<(String, Vec<String>)>) {
    let mut sheets = Vec::new();
    let mut i = 0;
    while let Some(e) = store.sheet_at(i) {
        sheets.push((e.name.clone(), e.metadata.tags.to_vec(), e.sheet.image.width, e.sheet.image.data.clone()));
        i += 1;
    }
    let mut classes: Vec<(String, Vec<String>)> =
        store.get_wm_classes_tags().into_iter().map(|w| (w.wm_class, w.tags)).collect();
    classes.sort();
    (sheets, classes)
}

fn round_trip(store: &Cheatsheets) -> Cheatsheets {
    let jobs = save_jobs(store).unwrap();
    let (parts, wm) = parts_of(&jobs);
    load_from_parts(parts, &wm).unwrap()
}

#[test]
fn save_of_empty_store_is_one_file() {
    let jobs = save_jobs(&Cheatsheets::new()).unwrap();
    assert_eq!(jobs.len(), 1);
    assert_eq!(jobs[0].path, "wm_class_tags.json");
    assert_eq!(jobs[0].data, b"{}".to_vec());
}

#[test]
fn save_writes_image_then_metadata_then_classes() {
    let mut store = Cheatsheets::new();
    store.insert_sheet(
        Cheatsheet { image: image(ByteOrder::BE, 2, 3, vec![9, 8, 7, 6, 5, 4]) },
        "vim".to_string(),
        tags(&["editor", "term\"inal"]),
    );
    store.add_wm_class_tag("kitty", "term\"inal".to_string());
    store.add_wm_class_tag("Alacritty", "editor".to_string());
    let jobs = save_jobs(&store).unwrap();
    assert_eq!(jobs.len(), 3);
    assert_eq!(jobs[0].path, "vim.cs");
    assert_eq!(
        jobs[0].data,
        vec![
            0, 0, 0, 0, 1, 0, 0, 0, 2, 0, 0, 0, 3, 0, 0, 0, 6, 0, 0, 0, 0, 0, 0, 0, 9, 8, 7, 6, 5,
            4
        ]
    );
    assert_eq!(jobs[1].path, "vim-metadata.json");
    assert_eq!(jobs[1].data, br#"{"tags":["editor","term\"inal"]}"#.to_vec());
    assert_eq!(jobs[2].path, "wm_class_tags.json");
    assert_eq!(
        jobs[2].data,
        br#"{"Alacritty":["editor"],"kitty":["term\"inal"]}"#.to_vec()
    );
}

#[test]
fn round_trip_of_empty_store() {
    let store = Cheatsheets::new();
    assert_eq!(content(&round_trip(&store)), content(&store));
}

#[test]
fn round_trip_of_one_entry_without_tags() {
    let mut store = Cheatsheets::new();
    store.insert_sheet(
        Cheatsheet { image: image(ByteOrder::LE, 0, 0, vec![]) },
        "bare".to_string(),
        tags(&[]),
    );
    let back = round_trip(&store);
    assert_eq!(content(&back), content(&store));
    assert_eq!(back.len(), 1);
    assert!(back.sheet_at(0).unwrap().metadata.tags.is_empty());
}

#[test]
fn round_trip_of_many_entries() {
    let mut store = Cheatsheets::new();
    for (i, name) in ["a", "b.v2", "c d", "\u{e9}t\u{e9}", "x-metadata"].iter().enumerate() {
        store.insert_sheet(
            Cheatsheet { image: image(ByteOrder::BE, i as u32, 1, vec![i as u8; i]) },
            name.to_string(),
            tags(&["t", name, "line\nbreak", "\u{1F600}"]),
        );
    }
    store.add_wm_class_tag("One", "t".to_string());
    store.add_wm_class_tag("One", "u".to_string());
    store.add_wm_class_tag("Two", "b.v2".to_string());
    store.add_wm_class_tag("Empty", "gone".to_string());
    assert_eq!(store.remove_wm_class_tag("Empty", "gone"), Ok(true));
    let back = round_trip(&store);
    assert_eq!(content(&back), content(&store));
    let mut back = back;
    assert_eq!(back.remove_wm_class_tag("Empty", "gone"), Ok(false));
    assert_eq!(back.remove_wm_class_tag("Never", "gone"), Err(Failure::NotFound));
}

#[test]
fn image_with_bytes_after_the_record_is_read() {
    let bytes = vec![0, 0, 0, 0, 0, 0, 0, 0, 1, 0, 0, 0, 1, 0, 0, 0, 1, 0, 0, 0, 0, 0, 0, 0, 42, 1, 2];
    let image = decode_image(&bytes).unwrap();
    assert_eq!(image.order, ByteOrder::LE);
    assert_eq!((image.width, image.height), (1, 1));
    assert_eq!(image.data, vec![42]);
}

#[test]
fn image_that_is_cut_short_is_refused() {
    let whole = vec![0, 0, 0, 0, 1, 0, 0, 0, 1, 0, 0, 0, 1, 0, 0, 0, 2, 0, 0, 0, 0, 0, 0, 0, 42, 43];
    assert!(decode_image(&whole).is_ok());
    for n in 0..whole.len() {
        assert_eq!(decode_image(&whole[..n].to_vec()).err(), Some(Failure::LoadFailure));
    }
}

#[test]
fn image_of_unknown_format_or_order_is_refused() {
    let mut bytes = vec![0u8; 24];
    assert!(decode_image(&bytes).is_ok());
    bytes[0] = 1;
    assert_eq!(decode_image(&bytes).err(), Some(Failure::LoadFailure));
    bytes[0] = 0;
    bytes[4] = 2;
    assert_eq!(decode_image(&bytes).err(), Some(Failure::LoadFailure));
    bytes[4] = 1;
    assert_eq!(decode_image(&bytes).unwrap().order, ByteOrder::BE);
    bytes[7] = 0x80;
    assert_eq!(decode_image(&bytes).err(), Some(Failure::LoadFailure));
}

#[test]
fn metadata_keeps_each_tag_once() {
    let tags = decode_metadata(&br#" { "tags" : ["a", "b", "a"] } "#.to_vec()).unwrap();
    assert_eq!(tags.to_vec(), vec!["a".to_string(), "b".to_string()]);
}

#[test]
fn metadata_without_tags_is_refused() {
    assert_eq!(decode_metadata(&b"{}".to_vec()).err(), Some(Failure::LoadFailure));
    assert_eq!(decode_metadata(&b"not json".to_vec()).err(), Some(Failure::LoadFailure));
    assert_eq!(decode_metadata(&br#"{"tags":"a"}"#.to_vec()).err(), Some(Failure::LoadFailure));
    assert_eq!(decode_metadata(&br#"{"tags":[]} x"#.to_vec()).err(), Some(Failure::LoadFailure));
}

#[test]
fn window_classes_are_read_by_key() {
    let members = decode_wm_class_tags(&br#"{"b":["x"],"a":[],"b":["y","z"]}"#.to_vec()).unwrap();
    let got: Vec<(String, Vec<String>)> = members.into_iter().map(|m| (m.key, m.tags)).collect();
    assert_eq!(
        got,
        vec![
            ("a".to_string(), vec![]),
            ("b".to_string(), vec!["y".to_string(), "z".to_string()])
        ]
    );
}

#[test]
fn load_fails_as_a_whole() {
    let mut store = Cheatsheets::new();
    store.insert_sheet(Cheatsheet { image: image(ByteOrder::LE, 1, 1, vec![1]) }, "a".to_string(), tags(&["t"]));
    store.insert_sheet(Cheatsheet { image: image(ByteOrder::LE, 1, 1, vec![2]) }, "b".to_string(), tags(&["t"]));
    let jobs = save_jobs(&store).unwrap();
    let (mut parts, wm) = parts_of(&jobs);
    assert!(load_from_parts(parts_of(&jobs).0, &b"[]".to_vec()).is_err());
    parts[1].metadata = b"{".to_vec();
    assert_eq!(load_from_parts(parts, &wm).err(), Some(Failure::LoadFailure));
}

#[test]
fn later_file_of_a_name_takes_the_place_of_the_earlier() {
    let a1 = LoadedEntry { name: "a".to_string(), sheet: vec![0; 24], metadata: br#"{"tags":["one"]}"#.to_vec() };
    let b = LoadedEntry { name: "b".to_string(), sheet: vec![0; 24], metadata: br#"{"tags":[]}"#.to_vec() };
    let a2 = LoadedEntry { name: "a".to_string(), sheet: vec![0; 24], metadata: br#"{"tags":["two"]}"#.to_vec() };
    let store = load_from_parts(vec![a1, b, a2], &b"{}".to_vec()).unwrap();
    assert_eq!(store.len(), 2);
    assert_eq!(store.sheet_at(0).unwrap().name, "a");
    assert_eq!(store.sheet_at(0).unwrap().metadata.tags.to_vec(), vec!["two".to_string()]);
    assert_eq!(store.sheet_at(1).unwrap().name, "b");
}

#[test]
fn state_starts_around_the_loaded_store_or_an_empty_one() {
    let mut store = Cheatsheets::new();
    store.insert_sheet(Cheatsheet { image: image(ByteOrder::LE, 1, 1, vec![1]) }, "a".to_string(), tags(&["t"]));
    let jobs = save_jobs(&store).unwrap();
    let (parts, wm) = parts_of(&jobs);
    let state = UiState::with_loaded_cheatsheets(Some((parts, wm)));
    assert_eq!(state.cheatsheets.len(), 1);
    assert_eq!(state.mode, UiMode::AutomaticWmClass);
    assert_eq!(state.manual_mode_current_page, 0);
    let (parts, _) = parts_of(&jobs);
    let state = UiState::with_loaded_cheatsheets(Some((parts, b"broken".to_vec())));
    assert_eq!(state.cheatsheets.len(), 0);
    let state = UiState::with_loaded_cheatsheets(None);
    assert_eq!(state.cheatsheets.len(), 0);
    assert!(state.screenshot.is_none() && !state.show_stats);
}

fn member(key: &str, items: &[&str]) -> TagList {
    TagList { key: key.to_string(), tags: items.iter().map(|s| s.to_string()).collect() }
}

#[test]
fn metadata_tags_are_the_first_list_named_tags() {
    let members = vec![member("other", &["x"]), member("tags", &["b", "a", "b"]), member("tags", &["z"])];
    assert_eq!(metadata_tags(&members).unwrap().to_vec(), vec!["b".to_string(), "a".to_string()]);
    assert!(metadata_tags(&vec![member("tags", &[])]).unwrap().is_empty());
    assert_eq!(metadata_tags(&vec![member("Tags", &["a"])]).err(), Some(Failure::LoadFailure));
    assert_eq!(metadata_tags(&Vec::new()).err(), Some(Failure::LoadFailure));
}

#[test]
fn window_classes_are_put_into_the_store_one_by_one() {
    let mut store = Cheatsheets::new();
    store.add_wm_class_tag("B", "old".to_string());
    let members = vec![member("A", &["x", "x", "y"]), member("B", &["new"]), member("C", &[]), member("A", &["z"])];
    put_wm_class_tags(&mut store, &members);
    let got: Vec<(String, Vec<String>)> =
        store.get_wm_classes_tags().into_iter().map(|w| (w.wm_class, w.tags)).collect();
    assert_eq!(
        got,
        vec![
            ("B".to_string(), vec!["new".to_string()]),
            ("A".to_string(), vec!["z".to_string()]),
            ("C".to_string(), vec![]),
        ]
    );
}

#[test]
fn image_that_announces_more_than_it_holds_is_refused() {
    let mut bytes = vec![0u8; 24];
    for b in bytes[16..24].iter_mut() {
        *b = 0xff;
    }
    bytes.extend_from_slice(&[1, 2, 3]);
    assert_eq!(decode_image(&bytes).err(), Some(Failure::LoadFailure));
    bytes[16..24].copy_from_slice(&[4, 0, 0, 0, 0, 0, 0, 0]);
    assert_eq!(decode_image(&bytes).err(), Some(Failure::LoadFailure));
    bytes[16] = 3;
    assert_eq!(decode_image(&bytes).unwrap().data, vec![1, 2, 3]);
}
