use pb_cheatsheet::model::CheatsheetTags;
use pb_cheatsheet::model::CheatsheetsInfo;
use pb_cheatsheet::model::WmClassTags;
use pb_cheatsheet::text::format_cheatsheets_info;
use pb_cheatsheet::text::push_bool;
use pb_cheatsheet::text::push_decimal;
use pb_cheatsheet::text::push_joined;

fn strings(items: &[&str]) -> Vec<String> {
    items.iter().map(|s| s.to_string()).collect()
}

#[test]
fn decimal_digits_are_those_of_std() {
    for n in [0u64, 1, 9, 10, 11, 99, 100, 101, 1000, 4096, 65535, 1234567890, u64::MAX - 1, u64::MAX] {
        let mut out = String::from("n=");
        push_decimal(&mut out, n);
        assert_eq!(out, format!("n={n}"));
    }
}

#[test]
fn bool_is_written_as_a_word() {
    let mut out = String::new();
    push_bool(&mut out, true);
    out.push(' ');
    push_bool(&mut out, false);
    assert_eq!(out, "true false");
}

#[test]
fn joined_puts_the_separator_between_items() {
    for items in [strings(&[]), strings(&["a"]), strings(&["a", "b"]), strings(&["", "", "c"])] {
        let mut out = String::from("[");
        push_joined(&mut out, &items, ", ");
        assert_eq!(out, format!("[{}", items.join(", ")));
    }
}

#[test]
fn report_of_an_empty_store() {
    let info = CheatsheetsInfo::default();
    assert_eq!(format_cheatsheets_info(&info), "\ncheatsheets tags:\n\nwm classes tags:\n\n");
}

#[test]
fn report_lists_each_name_with_its_tags() {
    let info = CheatsheetsInfo {
        cheatsheets: vec![
            CheatsheetTags { name: "vim".to_string(), tags: strings(&["editor", "term"]) },
            CheatsheetTags { name: "bare".to_string(), tags: strings(&[]) },
        ],
        wm_classes: vec![WmClassTags { wm_class: "kitty".to_string(), tags: strings(&["term"]) }],
    };
    assert_eq!(
        format_cheatsheets_info(&info),
        "\ncheatsheets tags:\n  vim : [editor, term]\n  bare : []\n\nwm classes tags:\n  kitty : [term]\n\n"
    );
}
