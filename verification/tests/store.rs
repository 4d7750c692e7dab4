use pb_cheatsheet::error::Failure;
use pb_cheatsheet::model::ByteOrder;
use pb_cheatsheet::model::CheatsheetImage;
use pb_cheatsheet::model::ImageFormat;
use pb_cheatsheet::model::TagsEither;
use pb_cheatsheet::store::Cheatsheet;
use pb_cheatsheet::store::Cheatsheets;
use pb_cheatsheet::tags::TagSet;

fn image(width: u32) -> CheatsheetImage {
    CheatsheetImage {
        format: ImageFormat::Gray8,
        order: ByteOrder::LE,
        width,
        height: 1,
        data: vec![7; width as usize],
    }
}

fn sheet(width: u32) -> Cheatsheet {
    Cheatsheet { image: image(width) }
}

fn strings(items: &[&str]) -> Vec<String> {
    items.iter().map(|s| s.to_string()).collect()
}

fn tags(items: &[&str]) -> TagSet {
    TagSet::from_vec(strings(items))
}

fn put(store: &mut Cheatsheets, name: &str, items: &[&str]) {
    store.insert_sheet(sheet(name.len() as u32), name.to_string(), tags(items));
}

fn resolved_names(store: &Cheatsheets, wm_class: &str) -> Vec<String> {
    store.sheets_for_wm_class(wm_class).iter().map(|e| e.name.clone()).collect()
}

fn names(store: &Cheatsheets) -> Vec<String> {
    store.get_sheet_tags().into_iter().map(|t| t.name).collect()
}

#[test]
fn resolve_follows_tag_changes() {
    let mut store = Cheatsheets::new();
    store.insert_sheet(sheet(3), "alarm".to_string(), tags(&["clock"]));
    store.add_wm_class_tag("ClockApp", "clock".to_string());
    assert_eq!(resolved_names(&store, "ClockApp"), strings(&["alarm"]));
    assert_eq!(store.remove_sheet_tag("alarm", "clock"), Ok(true));
    assert_eq!(resolved_names(&store, "ClockApp"), Vec::<String>::new());
}

#[test]
fn removed_entry_is_resolved_by_no_window_class() {
    let mut store = Cheatsheets::new();
    put(&mut store, "keep", &["a", "b"]);
    put(&mut store, "drop", &["a", "c"]);
    store.add_wm_class_tag("A", "a".to_string());
    store.add_wm_class_tag("C", "c".to_string());
    assert_eq!(resolved_names(&store, "A"), strings(&["keep", "drop"]));
    assert_eq!(resolved_names(&store, "C"), strings(&["drop"]));
    let removed = store.remove_sheet("drop").unwrap();
    assert_eq!(removed.0.tags.to_vec(), strings(&["a", "c"]));
    assert_eq!(removed.1.image.width, 4);
    assert_eq!(resolved_names(&store, "A"), strings(&["keep"]));
    assert_eq!(resolved_names(&store, "C"), Vec::<String>::new());
    assert_eq!(resolved_names(&store, "unknown"), Vec::<String>::new());
    assert!(store.remove_sheet("drop").is_none());
    assert_eq!(store.len(), 1);
}

#[test]
fn resolve_takes_exactly_the_entries_that_share_a_tag() {
    let mut store = Cheatsheets::new();
    put(&mut store, "one", &["x"]);
    put(&mut store, "two", &["y", "z"]);
    put(&mut store, "three", &[]);
    put(&mut store, "four", &["z", "x"]);
    put(&mut store, "five", &["X"]);
    store.add_wm_class_tag("App", "x".to_string());
    store.add_wm_class_tag("App", "q".to_string());
    assert_eq!(resolved_names(&store, "App"), strings(&["one", "four"]));
    assert_eq!(resolved_names(&store, "App"), strings(&["one", "four"]));
    assert_eq!(store.wm_class_n_sheets("App"), 2);
    assert_eq!(store.wm_class_n_sheets("app"), 0);
    store.add_wm_class_tag("App", "z".to_string());
    assert_eq!(resolved_names(&store, "App"), strings(&["one", "two", "four"]));
    assert_eq!(store.wm_class_n_sheets("App"), 3);
}

#[test]
fn window_class_without_tags_resolves_to_nothing() {
    let mut store = Cheatsheets::new();
    put(&mut store, "one", &["x"]);
    store.add_wm_class_tag("App", "x".to_string());
    assert_eq!(store.remove_wm_class_tag("App", "x"), Ok(true));
    assert_eq!(resolved_names(&store, "App"), Vec::<String>::new());
    assert_eq!(store.wm_class_count(), 1);
}

#[test]
fn insert_replaces_the_entry_of_the_same_name_in_its_place() {
    let mut store = Cheatsheets::new();
    assert!(store.insert_sheet(sheet(1), "a".to_string(), tags(&["old"])).is_none());
    assert!(store.insert_sheet(sheet(2), "b".to_string(), tags(&[])).is_none());
    let prev = store.insert_sheet(sheet(9), "a".to_string(), tags(&["new"])).unwrap();
    assert_eq!(prev.0.tags.to_vec(), strings(&["old"]));
    assert_eq!(prev.1.image.width, 1);
    assert_eq!(names(&store), strings(&["a", "b"]));
    assert_eq!(store.sheet_at(0).unwrap().sheet.image.width, 9);
    assert_eq!(store.sheet_at(0).unwrap().metadata.tags.to_vec(), strings(&["new"]));
    assert!(store.sheet_at(2).is_none());
}

#[test]
fn tag_of_unknown_entry_is_not_found() {
    let mut store = Cheatsheets::new();
    put(&mut store, "a", &["t"]);
    assert_eq!(store.add_sheet_tag("b", "t".to_string()), Err(Failure::NotFound));
    assert_eq!(store.remove_sheet_tag("b", "t"), Err(Failure::NotFound));
    assert_eq!(store.add_sheet_tag("a", "t".to_string()), Ok(false));
    assert_eq!(store.add_sheet_tag("a", "u".to_string()), Ok(true));
    assert_eq!(store.remove_sheet_tag("a", "nope"), Ok(false));
    assert_eq!(store.remove_sheet_tag("a", "t"), Ok(true));
    assert_eq!(store.sheet_at(0).unwrap().metadata.tags.to_vec(), strings(&["u"]));
}

#[test]
fn window_class_gets_its_tag_set_with_its_first_tag() {
    let mut store = Cheatsheets::new();
    assert_eq!(store.remove_wm_class_tag("App", "t"), Err(Failure::NotFound));
    assert!(!store.add_wm_class_tag("App", "t".to_string()));
    assert!(store.add_wm_class_tag("App", "u".to_string()));
    assert!(!store.add_wm_class_tag("App", "t".to_string()));
    assert_eq!(store.remove_wm_class_tag("App", "nope"), Ok(false));
    assert_eq!(store.remove_wm_class_tag("App", "t"), Ok(true));
    let classes = store.get_wm_classes_tags();
    assert_eq!(classes.len(), 1);
    assert_eq!(classes[0].wm_class, "App");
    assert_eq!(classes[0].tags, strings(&["u"]));
    assert_eq!(store.wm_class_at(0).unwrap().wm_class, "App");
    assert!(store.wm_class_at(1).is_none());
}

#[test]
fn set_wm_class_tags_replaces_the_tags() {
    let mut store = Cheatsheets::new();
    store.set_wm_class_tags("A", tags(&["x", "y"]));
    store.set_wm_class_tags("B", tags(&[]));
    store.set_wm_class_tags("A", tags(&["z"]));
    let classes = store.get_wm_classes_tags();
    assert_eq!(classes.len(), 2);
    assert_eq!((classes[0].wm_class.as_str(), &classes[0].tags), ("A", &strings(&["z"])));
    assert_eq!((classes[1].wm_class.as_str(), &classes[1].tags), ("B", &strings(&[])));
}

#[test]
fn sheets_for_tag_takes_the_entries_with_that_tag() {
    let mut store = Cheatsheets::new();
    put(&mut store, "one", &["x"]);
    put(&mut store, "two", &["y"]);
    put(&mut store, "three", &["y", "x"]);
    let found: Vec<String> = store.sheets_for_tag("x").iter().map(|e| e.name.clone()).collect();
    assert_eq!(found, strings(&["one", "three"]));
    assert!(store.sheets_for_tag("none").is_empty());
}

#[test]
fn info_lists_entries_and_window_classes_with_their_tags() {
    let mut store = Cheatsheets::new();
    put(&mut store, "one", &["x", "y"]);
    put(&mut store, "two", &[]);
    store.add_wm_class_tag("App", "x".to_string());
    let info = store.get_info();
    assert_eq!(info.cheatsheets.len(), 2);
    assert_eq!(info.cheatsheets[0].name, "one");
    assert_eq!(info.cheatsheets[0].tags, strings(&["x", "y"]));
    assert_eq!(info.cheatsheets[1].name, "two");
    assert!(info.cheatsheets[1].tags.is_empty());
    assert_eq!(info.wm_classes.len(), 1);
    assert_eq!(info.wm_classes[0].wm_class, "App");
    assert_eq!(info.wm_classes[0].tags, strings(&["x"]));
    let empty = Cheatsheets::new().get_info();
    assert!(empty.cheatsheets.is_empty() && empty.wm_classes.is_empty());
}

#[test]
fn many_tags_are_added_and_removed_one_by_one() {
    let mut store = Cheatsheets::new();
    put(&mut store, "a", &["t"]);
    assert_eq!(store.add_sheet_tags("a", &tags(&["u", "t", "v"])), Ok(()));
    assert_eq!(store.sheet_at(0).unwrap().metadata.tags.to_vec(), strings(&["t", "u", "v"]));
    assert_eq!(store.add_sheet_tags("b", &tags(&["u"])), Err(Failure::NotFound));
    assert_eq!(store.remove_sheet_tags("a", &TagsEither::Tags(tags(&["v", "zz", "t"]))), Ok(()));
    assert_eq!(store.sheet_at(0).unwrap().metadata.tags.to_vec(), strings(&["u"]));
    assert_eq!(store.remove_sheet_tags("b", &TagsEither::All), Err(Failure::NotFound));
    assert_eq!(store.remove_sheet_tags("a", &TagsEither::All), Ok(()));
    assert!(store.sheet_at(0).unwrap().metadata.tags.is_empty());
    assert_eq!(store.len(), 1);
}

#[test]
fn many_window_class_tags_are_added_and_removed_one_by_one() {
    let mut store = Cheatsheets::new();
    store.add_wm_class_tags("App", &tags(&[]));
    assert_eq!(store.wm_class_count(), 0);
    store.add_wm_class_tags("App", &tags(&["a", "b", "c"]));
    assert_eq!(store.get_wm_classes_tags()[0].tags, strings(&["a", "b", "c"]));
    assert_eq!(store.remove_wm_class_tags("Other", &TagsEither::All), Err(Failure::NotFound));
    assert_eq!(store.remove_wm_class_tags("Other", &TagsEither::Tags(tags(&["a"]))), Err(Failure::NotFound));
    assert_eq!(store.remove_wm_class_tags("App", &TagsEither::Tags(tags(&["b", "x"]))), Ok(()));
    assert_eq!(store.get_wm_classes_tags()[0].tags, strings(&["a", "c"]));
    assert_eq!(store.remove_wm_class_tags("App", &TagsEither::All), Ok(()));
    assert_eq!(store.wm_class_count(), 1);
    assert!(store.get_wm_classes_tags()[0].tags.is_empty());
}

#[test]
fn resolved_index_points_into_the_store() {
    let mut store = Cheatsheets::new();
    put(&mut store, "zero", &["n"]);
    put(&mut store, "one", &["y"]);
    put(&mut store, "two", &["n"]);
    put(&mut store, "three", &["y"]);
    store.add_wm_class_tag("App", "y".to_string());
    assert_eq!(store.resolved_index("App", 0), Some(1));
    assert_eq!(store.resolved_index("App", 1), Some(3));
    assert_eq!(store.resolved_index("App", 2), None);
    assert_eq!(store.resolved_index("Other", 0), None);
}

#[test]
fn clone_of_a_store_holds_the_same() {
    let mut store = Cheatsheets::default();
    assert_eq!(store.len(), 0);
    put(&mut store, "one", &["x"]);
    store.add_wm_class_tag("App", "x".to_string());
    let copy = store.clone();
    store.remove_sheet("one");
    assert_eq!(names(&copy), strings(&["one"]));
    assert_eq!(resolved_names(&copy, "App"), strings(&["one"]));
    assert_eq!(copy.sheet_at(0).unwrap().clone().sheet.image.data, vec![7, 7, 7]);
    assert_eq!(store.len(), 0);
}
