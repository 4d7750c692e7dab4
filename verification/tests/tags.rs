use pb_cheatsheet::tags::clone_strings;
use pb_cheatsheet::tags::TagSet;

fn strings(items: &[&str]) -> Vec<String> {
    items.iter().map(|s| s.to_string()).collect()
}

#[test]
fn new_tag_set_is_empty() {
    let set = TagSet::new();
    assert!(set.is_empty());
    assert_eq!(set.len(), 0);
    assert!(!set.contains("a"));
    assert_eq!(set.to_vec(), Vec::<String>::new());
}

#[test]
fn insert_says_whether_the_tag_is_new() {
    let mut set = TagSet::new();
    assert!(set.insert("a".to_string()));
    assert!(set.insert("b".to_string()));
    assert!(!set.insert("a".to_string()));
    assert_eq!(set.to_vec(), strings(&["a", "b"]));
    assert_eq!(set.len(), 2);
    assert!(!set.is_empty());
}

#[test]
fn tags_are_compared_exactly() {
    let mut set = TagSet::new();
    set.insert("Clock".to_string());
    assert!(set.contains("Clock"));
    assert!(!set.contains("clock"));
    assert!(!set.contains("Clock "));
    assert!(set.insert("clock".to_string()));
    assert_eq!(set.len(), 2);
}

#[test]
fn remove_says_whether_the_tag_was_there() {
    let mut set = TagSet::from_vec(strings(&["a", "b", "c"]));
    assert!(set.remove("b"));
    assert!(!set.remove("b"));
    assert!(!set.remove("z"));
    assert_eq!(set.to_vec(), strings(&["a", "c"]));
    assert!(set.remove("a"));
    assert!(set.remove("c"));
    assert!(set.is_empty());
}

#[test]
fn from_vec_keeps_first_occurrences() {
    let set = TagSet::from_vec(strings(&["b", "a", "b", "c", "a", ""]));
    assert_eq!(set.to_vec(), strings(&["b", "a", "c", ""]));
}

#[test]
fn intersects_needs_a_common_tag() {
    let a = TagSet::from_vec(strings(&["x", "y"]));
    let b = TagSet::from_vec(strings(&["z", "y"]));
    let c = TagSet::from_vec(strings(&["z", "X"]));
    let none = TagSet::new();
    assert!(a.intersects(&b));
    assert!(b.intersects(&a));
    assert!(!a.intersects(&c));
    assert!(!a.intersects(&none));
    assert!(!none.intersects(&a));
    assert!(!none.intersects(&none));
}

#[test]
fn clone_of_tag_set_holds_the_same_tags() {
    let a = TagSet::from_vec(strings(&["x", "y"]));
    let mut b = a.clone();
    assert_eq!(a.to_vec(), b.to_vec());
    b.insert("z".to_string());
    assert_eq!(a.len(), 2);
    assert_eq!(b.len(), 3);
}

#[test]
fn clone_strings_copies_each_string() {
    let v = strings(&["one", "", "three"]);
    assert_eq!(clone_strings(&v), v);
    assert_eq!(clone_strings(&Vec::new()), Vec::<String>::new());
}
