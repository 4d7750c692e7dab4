use pb_cheatsheet::frame::format_stats;
use pb_cheatsheet::frame::format_ui_info;
use pb_cheatsheet::frame::Shown;
use pb_cheatsheet::model::ByteOrder;
use pb_cheatsheet::model::CheatsheetImage;
use pb_cheatsheet::model::FocusedWindowInfo;
use pb_cheatsheet::model::ImageFormat;
use pb_cheatsheet::model::ScreenInfo;
use pb_cheatsheet::model::ScreenOrientation;
use pb_cheatsheet::store::Cheatsheet;
use pb_cheatsheet::store::Cheatsheets;
use pb_cheatsheet::tags::TagSet;
use pb_cheatsheet::ui::UiMode;
use pb_cheatsheet::ui::UiState;

fn sheet() -> Cheatsheet {
    Cheatsheet {
        image: CheatsheetImage {
            format: ImageFormat::Gray8,
            order: ByteOrder::LE,
            width: 1,
            height: 1,
            data: vec![0],
        },
    }
}

fn state_with(entries: &[(&str, &str)]) -> UiState {
    let mut store = Cheatsheets::new();
    for (name, tag) in entries {
        store.insert_sheet(sheet(), name.to_string(), TagSet::from_vec(vec![tag.to_string()]));
    }
    store.add_wm_class_tag("App", "y".to_string());
    let mut state = UiState::new(store);
    state.focused_window_info.wm_class = "App".to_string();
    state
}

#[test]
fn ui_info_is_mode_and_page() {
    assert_eq!(format_ui_info(UiMode::Manual, 0), "M:0");
    assert_eq!(format_ui_info(UiMode::AutomaticWmClass, 12), "A-WMC:12");
    assert_eq!(format_ui_info(UiMode::Screenshot, 305), "SCR:305");
}

#[test]
fn stats_text_is_laid_out_in_columns() {
    let screen = ScreenInfo { width: 758, height: 1024, orientation: ScreenOrientation::Landscape270Deg };
    let focused = FocusedWindowInfo {
        title: "not shown".to_string(),
        wm_class: "kitty".to_string(),
        wm_class_instance: "kitty-1".to_string(),
        pid: 4242,
        focus: true,
    };
    let want = format!(
        "
### Screen Info ###
    width:              {}
    height:             {}
    orientation:        {}

### Focused Window Info ###
    wm_class:           {}
    wm_class_instance:  {}
    pid:                {}
    focus:              {}
",
        758, 1024, "Landscape270Deg", "kitty", "kitty-1", 4242, true,
    );
    assert_eq!(format_stats(&screen, &focused), want);
    let text = format_stats(&ScreenInfo::default(), &FocusedWindowInfo::default());
    assert!(text.contains("    orientation:        Portrait0Deg\n"));
    assert!(text.contains("    pid:                18446744073709551615\n"));
    assert!(text.contains("    wm_class:           \n"));
    assert!(text.ends_with("    focus:              false\n"));
}

#[test]
fn placeholders_say_what_is_missing() {
    assert_eq!(Shown::NoCheatsheet.placeholder(), Some("NO CHEATSHEET FOUND"));
    assert_eq!(Shown::NoScreenshot.placeholder(), Some("NO SCREENSHOT FOUND"));
    assert_eq!(Shown::Screenshot.placeholder(), None);
    assert_eq!((Shown::Entry { index: 0 }).placeholder(), None);
}

#[test]
fn manual_mode_shows_the_entry_at_its_page_with_its_name() {
    let mut state = state_with(&[("a", "n"), ("b", "y")]);
    state.mode = UiMode::Manual;
    state.manual_mode_current_page = 1;
    let frame = state.draw_to_display();
    assert_eq!(frame.shown, Shown::Entry { index: 1 });
    assert_eq!(frame.caption.as_deref(), Some("b"));
    assert_eq!(frame.ui_info, "M:1");
    assert_eq!(frame.stats, None);
    assert_eq!(state.current_page.get("App"), None);
    state.manual_mode_current_page = 2;
    let frame = state.draw_to_display();
    assert_eq!(frame.shown, Shown::NoCheatsheet);
    assert_eq!(frame.caption, None);
    assert_eq!(frame.ui_info, "M:2");
}

#[test]
fn manual_mode_of_an_empty_store_shows_the_placeholder() {
    let mut state = UiState::new(Cheatsheets::new());
    state.mode = UiMode::Manual;
    let frame = state.draw_to_display();
    assert_eq!(frame.shown, Shown::NoCheatsheet);
    assert_eq!(frame.shown.placeholder(), Some("NO CHEATSHEET FOUND"));
    assert_eq!(frame.caption, None);
    assert_eq!(frame.ui_info, "M:0");
}

#[test]
fn automatic_mode_shows_the_resolved_entry_at_its_page() {
    let mut state = state_with(&[("a", "n"), ("b", "y"), ("c", "n"), ("d", "y")]);
    let frame = state.draw_to_display();
    assert_eq!(frame.shown, Shown::Entry { index: 1 });
    assert_eq!(frame.caption, None);
    assert_eq!(frame.ui_info, "A-WMC:0");
    assert_eq!(state.current_page.get("App"), Some(0));
    state.next_page();
    let frame = state.draw_to_display();
    assert_eq!(frame.shown, Shown::Entry { index: 3 });
    assert_eq!(frame.ui_info, "A-WMC:1");
    state.cheatsheets.remove_sheet("d");
    let frame = state.draw_to_display();
    assert_eq!(frame.shown, Shown::NoCheatsheet);
    assert_eq!(frame.ui_info, "A-WMC:1");
}

#[test]
fn automatic_mode_without_match_shows_the_placeholder() {
    let mut state = state_with(&[("a", "n")]);
    assert_eq!(state.draw_to_display().shown, Shown::NoCheatsheet);
    state.focused_window_info.wm_class = "Unknown".to_string();
    let frame = state.draw_to_display();
    assert_eq!(frame.shown, Shown::NoCheatsheet);
    assert_eq!(state.current_page.get("Unknown"), Some(0));
}

#[test]
fn screenshot_mode_shows_the_transient_image() {
    let mut state = state_with(&[("a", "y")]);
    state.mode = UiMode::Screenshot;
    let frame = state.draw_to_display();
    assert_eq!(frame.shown, Shown::NoScreenshot);
    assert_eq!(frame.ui_info, "SCR:0");
    state.screenshot = Some((sheet(), "shot".to_string()));
    state.show_stats = true;
    let frame = state.draw_to_display();
    assert_eq!(frame.shown, Shown::Screenshot);
    assert_eq!(frame.caption, None);
    assert_eq!(frame.stats, Some(format_stats(&state.screen_info, &state.focused_window_info)));
}
