//! The modes and pages of the user interface.

use vstd::prelude::*;
use crate::model::FocusedWindowInfo;
use crate::model::FocusedWindowView;
use crate::model::ImageView;
use crate::model::ScreenInfo;
use crate::pages::PageTable;
use crate::store::Cheatsheet;
use crate::store::Cheatsheets;
use crate::store::StoreView;

verus! {

/// How long a navigation key must be held, in milliseconds, to change the
/// mode instead of the page.
pub const CYCLE_TIME_MS: u64 = 1000;

/// What the device shows. The modes are ordered: manual, automatic,
/// screenshot.
#[derive(Debug, Clone, Copy, PartialEq, Eq, PartialOrd, Ord, Structural)]
pub enum UiMode {
    /// The user pages through all entries.
    Manual,
    /// The entries that the focused window's class resolves to.
    AutomaticWmClass,
    /// The transient image.
    Screenshot,
}

impl Default for UiMode {
    fn default() -> (r: Self)
        ensures
            r == UiMode::AutomaticWmClass,
    {
        UiMode::AutomaticWmClass
    }
}

impl UiMode {
    /// The place of the mode in the order of the modes.
    pub open spec fn rank(self) -> int {
        match self {
            UiMode::Manual => 0,
            UiMode::AutomaticWmClass => 1,
            UiMode::Screenshot => 2,
        }
    }

    /// The mode before this one; the first mode stays.
    pub open spec fn prev_spec(self) -> UiMode {
        match self {
            UiMode::Manual => UiMode::Manual,
            UiMode::AutomaticWmClass => UiMode::Manual,
            UiMode::Screenshot => UiMode::AutomaticWmClass,
        }
    }

    /// The mode after this one; the last mode stays.
    pub open spec fn next_spec(self) -> UiMode {
        match self {
            UiMode::Manual => UiMode::AutomaticWmClass,
            UiMode::AutomaticWmClass => UiMode::Screenshot,
            UiMode::Screenshot => UiMode::Screenshot,
        }
    }

    /// Steps back one mode, and stays at the first.
    pub fn prev(&mut self)
        ensures
            *final(self) == old(self).prev_spec(),
            final(self).rank() == (if old(self).rank() == 0 {
                0
            } else {
                old(self).rank() - 1
            }),
    {
        *self = match *self {
            UiMode::Manual => UiMode::Manual,
            UiMode::AutomaticWmClass => UiMode::Manual,
            UiMode::Screenshot => UiMode::AutomaticWmClass,
        };
    }

    /// Steps forward one mode, and stays at the last.
    pub fn next(&mut self)
        ensures
            *final(self) == old(self).next_spec(),
            final(self).rank() == (if old(self).rank() == 2 {
                2
            } else {
                old(self).rank() + 1
            }),
    {
        *self = match *self {
            UiMode::Manual => UiMode::AutomaticWmClass,
            UiMode::AutomaticWmClass => UiMode::Screenshot,
            UiMode::Screenshot => UiMode::Screenshot,
        };
    }

    /// The short name of the mode, as the screen shows it.
    pub open spec fn label_spec(self) -> Seq<char> {
        match self {
            UiMode::Manual => "M"@,
            UiMode::AutomaticWmClass => "A-WMC"@,
            UiMode::Screenshot => "SCR"@,
        }
    }

    /// The short name of the mode.
    pub fn label(self) -> (r: &'static str)
        ensures
            r@ == self.label_spec(),
    {
        match self {
            UiMode::Manual => "M",
            UiMode::AutomaticWmClass => "A-WMC",
            UiMode::Screenshot => "SCR",
        }
    }
}

/// The page after `page` where there are `count` pages: one further, but
/// not past the last page, and 0 where there is none.
pub open spec fn page_up(page: usize, count: nat) -> usize {
    let up = if page == usize::MAX {
        page as int
    } else {
        page + 1
    };
    let top = if count == 0 {
        0
    } else {
        count - 1
    };
    if up <= top {
        up as usize
    } else {
        top as usize
    }
}

/// The page before `page` where there are `count` pages: one back, but not
/// before page 0 and not past the last page, and 0 where there is none.
pub open spec fn page_down(page: usize, count: nat) -> usize {
    let down = if page == 0 {
        0
    } else {
        page - 1
    };
    let top = if count == 0 {
        0
    } else {
        count - 1
    };
    if down <= top {
        down as usize
    } else {
        top as usize
    }
}

/// Whether `page` is a page where there are `count`: at most the last one,
/// and 0 where there is none.
pub open spec fn page_in_range(page: usize, count: nat) -> bool {
    count == 0 && page == 0 || page < count
}

/// The page before `page` where there are `count` pages.
pub fn step_down(page: usize, count: usize) -> (r: usize)
    ensures
        r == page_down(page, count as nat),
{
    let down = page.saturating_sub(1);
    let top = count.saturating_sub(1);
    if down <= top {
        down
    } else {
        top
    }
}

/// The page after `page` where there are `count` pages.
pub fn step_up(page: usize, count: usize) -> (r: usize)
    ensures
        r == page_up(page, count as nat),
{
    let up = page.saturating_add(1);
    let top = count.saturating_sub(1);
    if up <= top {
        up
    } else {
        top
    }
}

/// The state of the user interface.
#[derive(Debug)]
pub struct UiState {
    pub mode: UiMode,
    pub focused_window_info: FocusedWindowInfo,
    pub screen_info: ScreenInfo,
    pub cheatsheets: Cheatsheets,
    /// The page of each window class, for the automatic mode.
    pub current_page: PageTable,
    pub manual_mode_current_page: usize,
    /// The transient image and its name.
    pub screenshot: Option<(Cheatsheet, String)>,
    pub show_stats: bool,
    /// When the key for the previous page went down, in milliseconds.
    pub button_prev_pressed_time: Option<u64>,
    /// When the key for the next page went down, in milliseconds.
    pub button_next_pressed_time: Option<u64>,
}

/// The state of the user interface as plain values.
#[verifier::ext_equal]
pub struct UiView {
    pub mode: UiMode,
    pub focused: FocusedWindowView,
    pub screen_info: ScreenInfo,
    pub store: StoreView,
    pub pages: Map<Seq<char>, usize>,
    pub manual_page: usize,
    pub screenshot: Option<(ImageView, Seq<char>)>,
    pub show_stats: bool,
    pub prev_pressed: Option<u64>,
    pub next_pressed: Option<u64>,
}

impl View for UiState {
    type V = UiView;

    open spec fn view(&self) -> UiView {
        UiView {
            mode: self.mode,
            focused: self.focused_window_info@,
            screen_info: self.screen_info,
            store: self.cheatsheets@,
            pages: self.current_page@,
            manual_page: self.manual_mode_current_page,
            screenshot: match self.screenshot {
                Some(s) => Some((s.0.image@, s.1@)),
                None => None,
            },
            show_stats: self.show_stats,
            prev_pressed: self.button_prev_pressed_time,
            next_pressed: self.button_next_pressed_time,
        }
    }
}

/// A step of navigation: a change of mode or of page.
pub enum NavStep {
    Advance,
    Retreat,
    NextPage,
    PrevPage,
}

impl UiView {
    /// The state at start, around the store `store`.
    pub open spec fn initial(store: StoreView) -> UiView {
        UiView {
            mode: UiMode::AutomaticWmClass,
            focused: FocusedWindowView {
                title: Seq::empty(),
                wm_class: Seq::empty(),
                wm_class_instance: Seq::empty(),
                pid: u64::MAX,
                focus: false,
            },
            screen_info: ScreenInfo {
                width: 0,
                height: 0,
                orientation: crate::model::ScreenOrientation::Portrait0Deg,
            },
            store: store,
            pages: Map::empty(),
            manual_page: 0,
            screenshot: None,
            show_stats: false,
            prev_pressed: None,
            next_pressed: None,
        }
    }

    /// The page of the focused window's class; 0 where it has none yet.
    pub open spec fn auto_page(self) -> usize {
        if self.pages.contains_key(self.focused.wm_class) {
            self.pages[self.focused.wm_class]
        } else {
            0
        }
    }

    /// How many entries the focused window's class resolves to.
    pub open spec fn auto_count(self) -> nat {
        self.store.resolve(self.focused.wm_class).len()
    }

    /// The page that the mode shows.
    pub open spec fn active_page(self) -> usize {
        match self.mode {
            UiMode::Manual => self.manual_page,
            UiMode::AutomaticWmClass => self.auto_page(),
            UiMode::Screenshot => 0,
        }
    }

    /// How many pages the mode has.
    pub open spec fn active_count(self) -> nat {
        match self.mode {
            UiMode::Manual => self.store.sheets.len(),
            UiMode::AutomaticWmClass => self.auto_count(),
            UiMode::Screenshot => 0,
        }
    }

    /// The state with the focused window's class at `page`.
    pub open spec fn with_auto_page(self, page: usize) -> UiView {
        UiView { pages: self.pages.insert(self.focused.wm_class, page), ..self }
    }

    /// The state one page further.
    pub open spec fn next_page(self) -> UiView {
        match self.mode {
            UiMode::Manual => UiView {
                manual_page: page_up(self.manual_page, self.store.sheets.len()),
                ..self
            },
            UiMode::AutomaticWmClass => self.with_auto_page(
                page_up(self.auto_page(), self.auto_count()),
            ),
            UiMode::Screenshot => self,
        }
    }

    /// The state one page back.
    pub open spec fn prev_page(self) -> UiView {
        match self.mode {
            UiMode::Manual => UiView {
                manual_page: page_down(self.manual_page, self.store.sheets.len()),
                ..self
            },
            UiMode::AutomaticWmClass => self.with_auto_page(
                page_down(self.auto_page(), self.auto_count()),
            ),
            UiMode::Screenshot => self,
        }
    }

    /// The state one mode further.
    pub open spec fn advance(self) -> UiView {
        UiView { mode: self.mode.next_spec(), ..self }
    }

    /// The state one mode back.
    pub open spec fn retreat(self) -> UiView {
        UiView { mode: self.mode.prev_spec(), ..self }
    }

    /// The state after one step of navigation.
    pub open spec fn step(self, step: NavStep) -> UiView {
        match step {
            NavStep::Advance => self.advance(),
            NavStep::Retreat => self.retreat(),
            NavStep::NextPage => self.next_page(),
            NavStep::PrevPage => self.prev_page(),
        }
    }

    /// The state after the steps of `steps`, one after the other.
    pub open spec fn run(self, steps: Seq<NavStep>) -> UiView
        decreases steps.len(),
    {
        if steps.len() == 0 {
            self
        } else {
            self.run(steps.drop_last()).step(steps.last())
        }
    }

    /// Whether the manual page, and the page of the focused window's class,
    /// are pages that exist.
    pub open spec fn pages_in_range(self) -> bool {
        &&& page_in_range(self.manual_page, self.store.sheets.len())
        &&& page_in_range(self.auto_page(), self.auto_count())
    }
}

/// One step of navigation keeps the pages in range, and leaves the store and
/// the focused window as they are.
pub proof fn lemma_step_keeps_pages_in_range(s: UiView, step: NavStep)
    requires
        s.pages_in_range(),
    ensures
        s.step(step).pages_in_range(),
        s.step(step).store == s.store,
        s.step(step).focused == s.focused,
{
}

/// Whatever steps of navigation are taken, from a state whose pages are in
/// range, the page that is shown lies between 0 and the last page of its
/// mode, and is 0 where the mode has no page.
pub proof fn law_navigation_keeps_page_in_range(s: UiView, steps: Seq<NavStep>)
    requires
        s.pages_in_range(),
    ensures
        s.run(steps).pages_in_range(),
        page_in_range(s.run(steps).active_page(), s.run(steps).active_count()),
        s.run(steps).store == s.store,
        s.run(steps).focused == s.focused,
    decreases steps.len(),
{
    if steps.len() > 0 {
        law_navigation_keeps_page_in_range(s, steps.drop_last());
        lemma_step_keeps_pages_in_range(s.run(steps.drop_last()), steps.last());
    }
}

/// Going one page further or one page back brings the page that is shown
/// into range, wherever it stood before: a page that was left behind by
/// removals lasts until the next change of page at most.
pub proof fn law_page_navigation_clamps(s: UiView)
    ensures
        page_in_range(s.next_page().active_page(), s.next_page().active_count()),
        page_in_range(s.prev_page().active_page(), s.prev_page().active_count()),
        s.next_page().store == s.store && s.prev_page().store == s.store,
        s.next_page().mode == s.mode && s.prev_page().mode == s.mode,
{
}

/// At start every page is in range, whatever the store holds.
pub proof fn law_initial_pages_in_range(store: StoreView)
    ensures
        UiView::initial(store).pages_in_range(),
{
}

impl Default for UiState {
    fn default() -> (r: Self)
        ensures
            r@ == UiView::initial(StoreView::empty()),
    {
        UiState::new(Cheatsheets::new())
    }
}

impl UiState {
    /// The state at start, around the store `cheatsheets`.
    pub fn new(cheatsheets: Cheatsheets) -> (r: Self)
        ensures
            r@ == UiView::initial(cheatsheets@),
    {
        UiState {
            mode: UiMode::AutomaticWmClass,
            focused_window_info: FocusedWindowInfo::default(),
            screen_info: ScreenInfo::default(),
            cheatsheets,
            current_page: PageTable::new(),
            manual_mode_current_page: 0,
            screenshot: None,
            show_stats: false,
            button_prev_pressed_time: None,
            button_next_pressed_time: None,
        }
    }

    /// Takes over the geometry that the display reports.
    pub fn update(&mut self, screen_info: ScreenInfo)
        ensures
            final(self)@ == (UiView { screen_info: screen_info, ..old(self)@ }),
    {
        self.screen_info = screen_info;
    }

    /// The page of the focused window's class, which gets page 0 if it had
    /// none.
    fn touch_auto_page(&mut self) -> (page: usize)
        ensures
            page == old(self)@.auto_page(),
            final(self)@ == old(self)@.with_auto_page(page),
    {
        match self.current_page.get(self.focused_window_info.wm_class.as_str()) {
            Some(page) => {
                assert(self@.pages =~= self@.pages.insert(self@.focused.wm_class, page));
                page
            },
            None => {
                self.current_page.set(self.focused_window_info.wm_class.as_str(), 0);
                0
            },
        }
    }

    /// Goes one page back in the mode that is on, but not before the first
    /// page, and from a page that is no more there to the last page at most.
    /// Says whether the page changed.
    pub fn prev_page(&mut self) -> (changed: bool)
        ensures
            final(self)@ == old(self)@.prev_page(),
            changed == (final(self)@.active_page() != old(self)@.active_page()),
    {
        match self.mode {
            UiMode::Manual => {
                let pages = self.cheatsheets.len();
                let current_page = self.manual_mode_current_page;
                let prev_page = step_down(current_page, pages);
                if prev_page != current_page {
                    self.manual_mode_current_page = prev_page;
                    true
                } else {
                    false
                }
            },
            UiMode::AutomaticWmClass => {
                let n_sheets = self.cheatsheets.wm_class_n_sheets(
                    self.focused_window_info.wm_class.as_str(),
                );
                let current_page = self.touch_auto_page();
                let prev_page = step_down(current_page, n_sheets);
                if prev_page != current_page {
                    self.current_page.set(self.focused_window_info.wm_class.as_str(), prev_page);
                    assert(self@.pages =~= old(self)@.pages.insert(
                        self@.focused.wm_class,
                        prev_page,
                    ));
                    true
                } else {
                    false
                }
            },
            UiMode::Screenshot => false,
        }
    }

    /// Goes one page further in the mode that is on, but not past the last
    /// page. Says whether the page changed.
    pub fn next_page(&mut self) -> (changed: bool)
        ensures
            final(self)@ == old(self)@.next_page(),
            changed == (final(self)@.active_page() != old(self)@.active_page()),
    {
        match self.mode {
            UiMode::Manual => {
                let pages = self.cheatsheets.len();
                let current_page = self.manual_mode_current_page;
                let next_page = step_up(current_page, pages);
                if next_page != current_page {
                    self.manual_mode_current_page = next_page;
                    true
                } else {
                    false
                }
            },
            UiMode::AutomaticWmClass => {
                let n_sheets = self.cheatsheets.wm_class_n_sheets(
                    self.focused_window_info.wm_class.as_str(),
                );
                let current_page = self.touch_auto_page();
                let next_page = step_up(current_page, n_sheets);
                if next_page != current_page {
                    self.current_page.set(self.focused_window_info.wm_class.as_str(), next_page);
                    assert(self@.pages =~= old(self)@.pages.insert(
                        self@.focused.wm_class,
                        next_page,
                    ));
                    true
                } else {
                    false
                }
            },
            UiMode::Screenshot => false,
        }
    }
}

} // verus!
