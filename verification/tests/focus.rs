use pb_cheatsheet::focus::get_focused_window_info;
use pb_cheatsheet::focus::is_space;
use pb_cheatsheet::focus::FocusError;
use pb_cheatsheet::focus::FocusWatch;
use pb_cheatsheet::model::FocusedWindowInfo;
use pb_cheatsheet::focus::trim_parentheses;

#[test]
fn trim_strips_space_then_quotes() {
    assert_eq!(trim_parentheses("  \"Firefox\" \n".to_string()), "Firefox");
    assert_eq!(trim_parentheses("'x'".to_string()), "x");
    assert_eq!(trim_parentheses("\"\"'a b'\"".to_string()), "a b");
    assert_eq!(trim_parentheses("plain".to_string()), "plain");
    assert_eq!(trim_parentheses("".to_string()), "");
    assert_eq!(trim_parentheses(" \t ".to_string()), "");
    assert_eq!(trim_parentheses("\"\"".to_string()), "");
}

#[test]
fn trim_keeps_space_inside_quotes() {
    assert_eq!(trim_parentheses("\" padded \"".to_string()), " padded ");
    assert_eq!(trim_parentheses("\"in\"ner\"".to_string()), "in\"ner");
    assert_eq!(trim_parentheses("\u{3000}\"wide\u{e9}\"\u{2003}".to_string()), "wide\u{e9}");
}

#[test]
fn trim_agrees_with_std() {
    let quotes: [char; 2] = ['"', '\''];
    for s in ["  \"a\" ", "'\"mixed'\" ", "\u{a0}x\u{a0}", "null", "\"t i t l e\""] {
        let want = s.trim().trim_start_matches(quotes).trim_end_matches(quotes).to_string();
        assert_eq!(trim_parentheses(s.to_string()), want);
    }
}

#[test]
fn white_space_is_what_std_calls_white_space() {
    let mut n: u32 = 0;
    while n <= 0x10ffff {
        if let Some(c) = char::from_u32(n) {
            assert_eq!(is_space(c), c.is_whitespace());
        }
        n += 1;
    }
}

#[test]
fn report_of_the_desktop_is_read() {
    let text = r#"{"title":"notes — vim","wm_class":"kitty","wm_class_instance":"kitty","pid":4242,"focus":true}"#;
    let info = get_focused_window_info(text).unwrap();
    assert_eq!(info.title, "notes — vim");
    assert_eq!(info.wm_class, "kitty");
    assert_eq!(info.wm_class_instance, "kitty");
    assert_eq!(info.pid, 4242);
    assert!(info.focus);
}

#[test]
fn report_keeps_what_json_writes_inside_the_quotes() {
    let text = r#" {"title":"say \"hi\"","wm_class":7,"pid":0,"focus":false,"extra":[1]} "#;
    let info = get_focused_window_info(text).unwrap();
    assert_eq!(info.title, "say \\\"hi\\");
    assert_eq!(info.wm_class, "7");
    assert_eq!(info.wm_class_instance, "null");
    assert_eq!(info.pid, 0);
    assert!(!info.focus);
}

#[test]
fn report_without_pid_or_focus_is_refused() {
    assert_eq!(get_focused_window_info("not json").err(), Some(FocusError::NotJson));
    assert_eq!(get_focused_window_info("").err(), Some(FocusError::NotJson));
    assert_eq!(get_focused_window_info(r#"{"focus":true}"#).err(), Some(FocusError::NoPid));
    assert_eq!(get_focused_window_info(r#"{"pid":-1,"focus":true}"#).err(), Some(FocusError::NoPid));
    assert_eq!(get_focused_window_info(r#"{"pid":1.5,"focus":true}"#).err(), Some(FocusError::NoPid));
    assert_eq!(get_focused_window_info(r#"{"pid":"1","focus":true}"#).err(), Some(FocusError::NoPid));
    assert_eq!(get_focused_window_info(r#"{"pid":1}"#).err(), Some(FocusError::NoFocus));
    assert_eq!(get_focused_window_info(r#"{"pid":1,"focus":"true"}"#).err(), Some(FocusError::NoFocus));
    assert_eq!(get_focused_window_info(r#"{}"#).err(), Some(FocusError::NoPid));
    assert_eq!(get_focused_window_info(r#"[1]"#).err(), Some(FocusError::NoPid));
    assert_eq!(get_focused_window_info(r#"{"pid":18446744073709551615,"focus":true}"#).unwrap().pid, u64::MAX);
}

#[test]
fn watch_reports_only_changes() {
    let window = |title: &str, pid: u64| FocusedWindowInfo {
        title: title.to_string(),
        wm_class: "c".to_string(),
        wm_class_instance: "i".to_string(),
        pid,
        focus: true,
    };
    let mut watch = FocusWatch::new(window("a", 1));
    assert!(watch.observe(window("a", 1)).is_none());
    let report = watch.observe(window("b", 1)).unwrap();
    assert_eq!(report.title, "b");
    assert_eq!(watch.last.title, "b");
    assert!(watch.observe(window("b", 1)).is_none());
    assert_eq!(watch.observe(window("b", 2)).unwrap().pid, 2);
    let mut other = window("b", 2);
    other.focus = false;
    assert!(!watch.observe(other).unwrap().focus);
    let default = FocusedWindowInfo::default();
    assert_eq!((default.title.as_str(), default.pid, default.focus), ("", u64::MAX, false));
    assert!(default == FocusedWindowInfo::default());
    assert!(default != window("", u64::MAX));
    assert!(window("a", 1) == window("a", 1).clone());
    assert!(window("a", 1) != window("A", 1));
}
