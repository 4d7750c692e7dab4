//! What the screen shows for a state: the content and the texts over it.

use vstd::prelude::*;
use vstd::string::StringExecFns;
use crate::model::FocusedWindowInfo;
use crate::model::FocusedWindowView;
use crate::model::ScreenInfo;
use crate::text::bool_text;
use crate::text::decimal;
use crate::text::push_bool;
use crate::text::push_decimal;
use crate::ui::UiMode;
use crate::ui::UiState;
use crate::ui::UiView;

verus! {

/// What fills the screen.
#[derive(Debug, Clone, Copy, PartialEq, Eq, Structural)]
pub enum Shown {
    /// The image of the entry that stands at `index` in the store.
    Entry { index: usize },
    /// The words that say that there is no entry to show.
    NoCheatsheet,
    /// The transient image.
    Screenshot,
    /// The words that say that no transient image is held.
    NoScreenshot,
}

impl Shown {
    /// The words that are shown in place of an image, if any.
    pub fn placeholder(self) -> (r: Option<&'static str>)
        ensures
            r is Some <==> self == Shown::NoCheatsheet || self == Shown::NoScreenshot,
            self == Shown::NoCheatsheet ==> r->0@ == "NO CHEATSHEET FOUND"@,
            self == Shown::NoScreenshot ==> r->0@ == "NO SCREENSHOT FOUND"@,
    {
        match self {
            Shown::NoCheatsheet => Some("NO CHEATSHEET FOUND"),
            Shown::NoScreenshot => Some("NO SCREENSHOT FOUND"),
            _ => None,
        }
    }
}

/// What is to be drawn: the content, and the texts over it.
#[derive(Debug)]
pub struct Frame {
    pub shown: Shown,
    /// The name of the entry, which the manual mode shows.
    pub caption: Option<String>,
    /// The mode and the page.
    pub ui_info: String,
    /// The diagnostics, where they are switched on.
    pub stats: Option<String>,
}

/// A `Frame` as plain values.
#[verifier::ext_equal]
pub struct FrameView {
    pub shown: Shown,
    pub caption: Option<Seq<char>>,
    pub ui_info: Seq<char>,
    pub stats: Option<Seq<char>>,
}

impl View for Frame {
    type V = FrameView;

    open spec fn view(&self) -> FrameView {
        FrameView {
            shown: self.shown,
            caption: match self.caption {
                Some(s) => Some(s@),
                None => None,
            },
            ui_info: self.ui_info@,
            stats: match self.stats {
                Some(s) => Some(s@),
                None => None,
            },
        }
    }
}

/// The mode and the page as the screen shows them: the short name of the
/// mode, a colon, the page.
pub open spec fn ui_info_text(mode: UiMode, page: usize) -> Seq<char> {
    mode.label_spec() + ":"@ + decimal(page as nat)
}

/// The diagnostics as the screen shows them.
pub open spec fn stats_text(screen: ScreenInfo, focused: FocusedWindowView) -> Seq<char> {
    "\n### Screen Info ###\n    width:              "@ + decimal(screen.width as nat)
        + "\n    height:             "@ + decimal(screen.height as nat)
        + "\n    orientation:        "@ + screen.orientation.name_spec()
        + "\n\n### Focused Window Info ###\n    wm_class:           "@ + focused.wm_class
        + "\n    wm_class_instance:  "@ + focused.wm_class_instance
        + "\n    pid:                "@ + decimal(focused.pid as nat)
        + "\n    focus:              "@ + bool_text(focused.focus) + "\n"@
}

/// The mode and the page as text.
pub fn format_ui_info(mode: UiMode, page: usize) -> (r: String)
    ensures
        r@ == ui_info_text(mode, page),
{
    let mut out = String::from_str(mode.label());
    out.append(":");
    push_decimal(&mut out, page as u64);
    out
}

/// The diagnostics as text.
pub fn format_stats(screen: &ScreenInfo, focused: &FocusedWindowInfo) -> (r: String)
    ensures
        r@ == stats_text(*screen, focused@),
{
    let mut out = String::from_str("\n### Screen Info ###\n    width:              ");
    push_decimal(&mut out, screen.width as u64);
    out.append("\n    height:             ");
    push_decimal(&mut out, screen.height as u64);
    out.append("\n    orientation:        ");
    out.append(screen.orientation.name());
    out.append("\n\n### Focused Window Info ###\n    wm_class:           ");
    out.append(focused.wm_class.as_str());
    out.append("\n    wm_class_instance:  ");
    out.append(focused.wm_class_instance.as_str());
    out.append("\n    pid:                ");
    push_decimal(&mut out, focused.pid);
    out.append("\n    focus:              ");
    push_bool(&mut out, focused.focus);
    out.append("\n");
    out
}

impl UiView {
    /// The state after the screen was drawn: in the automatic mode the
    /// focused window's class has a page, page 0 if it had none.
    pub open spec fn drawn(self) -> UiView {
        if self.mode == UiMode::AutomaticWmClass {
            self.with_auto_page(self.auto_page())
        } else {
            self
        }
    }

    /// Whether `shown` is what fills the screen: in the manual mode the
    /// entry at the manual page, or the words that say that there is none,
    /// as when the store is empty; in the automatic mode the entry at the
    /// page of the focused window's class among those that it resolves to,
    /// or the words that say that there is none; else the transient image,
    /// or the words that say that none is held.
    pub open spec fn shows(self, shown: Shown) -> bool {
        match self.mode {
            UiMode::Manual => if self.manual_page < self.store.sheets.len() {
                shown == (Shown::Entry { index: self.manual_page })
            } else {
                shown == Shown::NoCheatsheet
            },
            UiMode::AutomaticWmClass => {
                let found = self.store.resolve(self.focused.wm_class);
                if self.auto_page() < found.len() {
                    &&& shown matches Shown::Entry { index }
                    &&& index < self.store.sheets.len()
                    &&& self.store.sheets[index as int] == found[self.auto_page() as int]
                } else {
                    shown == Shown::NoCheatsheet
                }
            },
            UiMode::Screenshot => if self.screenshot is Some {
                shown == Shown::Screenshot
            } else {
                shown == Shown::NoScreenshot
            },
        }
    }

    /// The name that is shown over the content: that of the entry, in the
    /// manual mode.
    pub open spec fn caption(self) -> Option<Seq<char>> {
        if self.mode == UiMode::Manual && self.manual_page < self.store.sheets.len() {
            Some(self.store.sheets[self.manual_page as int].name)
        } else {
            None
        }
    }

    /// The diagnostics, where they are switched on.
    pub open spec fn stats(self) -> Option<Seq<char>> {
        if self.show_stats {
            Some(stats_text(self.screen_info, self.focused))
        } else {
            None
        }
    }
}

/// Where the mode has no entry at its page, as with an empty store, the
/// screen shows words in place of an image; it shows an image exactly where
/// there is an entry, or a transient image, to show.
pub proof fn law_nothing_to_show_is_said(s: UiView, shown: Shown)
    requires
        s.shows(shown),
    ensures
        s.mode == UiMode::Manual && s.store.sheets.len() == 0 ==> shown == Shown::NoCheatsheet,
        s.mode != UiMode::Screenshot && s.active_page() >= s.active_count() ==> shown
            == Shown::NoCheatsheet,
        s.mode == UiMode::Screenshot && s.screenshot is None ==> shown == Shown::NoScreenshot,
        shown is Entry <==> s.mode != UiMode::Screenshot && s.active_page() < s.active_count(),
        shown == Shown::Screenshot <==> s.mode == UiMode::Screenshot && s.screenshot is Some,
{
}

impl UiState {
    /// Says what is to be drawn for the state as it is. In the automatic
    /// mode the focused window's class gets page 0 if it had no page.
    pub fn draw_to_display(&mut self) -> (frame: Frame)
        ensures
            final(self)@ == old(self)@.drawn(),
            old(self)@.shows(frame.shown),
            frame@.caption == old(self)@.caption(),
            frame@.ui_info == ui_info_text(old(self)@.mode, old(self)@.active_page()),
            frame@.stats == old(self)@.stats(),
    {
        let mut caption: Option<String> = None;
        let page: usize;
        let shown: Shown;
        match self.mode {
            UiMode::Manual => {
                page = self.manual_mode_current_page;
                match self.cheatsheets.sheet_at(page) {
                    Some(entry) => {
                        caption = Some(entry.name.clone());
                        shown = Shown::Entry { index: page };
                    },
                    None => {
                        shown = Shown::NoCheatsheet;
                    },
                }
            },
            UiMode::AutomaticWmClass => {
                let wm_class = self.focused_window_info.wm_class.as_str();
                page = match self.current_page.get(wm_class) {
                    Some(page) => {
                        assert(self@.pages =~= self@.pages.insert(self@.focused.wm_class, page));
                        page
                    },
                    None => {
                        self.current_page.set(wm_class, 0);
                        0
                    },
                };
                shown = match self.cheatsheets.resolved_index(wm_class, page) {
                    Some(index) => Shown::Entry { index },
                    None => Shown::NoCheatsheet,
                };
            },
            UiMode::Screenshot => {
                page = 0;
                shown = if self.screenshot.is_some() {
                    Shown::Screenshot
                } else {
                    Shown::NoScreenshot
                };
            },
        }
        let stats = if self.show_stats {
            Some(format_stats(&self.screen_info, &self.focused_window_info))
        } else {
            None
        };
        Frame { shown, caption, ui_info: format_ui_info(self.mode, page), stats }
    }
}

} // verus!
