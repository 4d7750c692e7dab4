//! The rules of the dispatch loop: what each message does to the state, and
//! what the loop has to do after it.

use vstd::prelude::*;
use crate::error::Failure;
use crate::model::CheatsheetImage;
use crate::model::CheatsheetsInfo;
use crate::model::FocusedWindowInfo;
use crate::model::FocusedWindowView;
use crate::model::ImageView;
use crate::model::ScreenInfo;
use crate::model::TagsEither;
use crate::model::TagsView;
use crate::persist::jobs_view;
use crate::persist::save_jobs;
use crate::persist::save_plan;
use crate::persist::SaveJob;
use crate::store::sheet_tags_of;
use crate::store::Cheatsheet;
use crate::store::SheetView;
use crate::tags::TagSet;
use crate::ui::page_up;
use crate::ui::step_up;
use crate::ui::UiMode;
use crate::ui::UiState;
use crate::ui::UiView;
use crate::ui::CYCLE_TIME_MS;

verus! {

/// A key of the device.
#[derive(Debug, Clone, Copy, PartialEq, Eq, Structural)]
pub enum Key {
    Prev,
    Next,
    Menu,
    Other,
}

/// What the device reports.
#[derive(Debug, Clone, Copy, PartialEq, Eq, Structural)]
pub enum DeviceEvent {
    Init,
    Show,
    Repaint,
    KeyDown { key: Key },
    KeyUp { key: Key },
    Exit,
    Other,
}

/// A message to the dispatch loop.
#[derive(Debug)]
#[allow(inconsistent_fields)]
pub enum Msg {
    DeviceEvent(DeviceEvent),
    FocusedWindow(FocusedWindowInfo),
    GetScreenInfo,
    GetCheatsheetsInfo,
    UploadCheatsheet { image: CheatsheetImage, name: String, tags: TagSet },
    RemoveCheatsheet { name: String },
    UploadScreenshot { screenshot: CheatsheetImage, name: String },
    ClearScreenshot,
    AddCheatsheetTags { name: String, tags: TagSet },
    RemoveCheatsheetTags { name: String, tags: TagsEither },
    AddWmClassTags { wm_class: String, tags: TagSet },
    RemoveWmClassTags { wm_class: String, tags: TagsEither },
    Shutdown,
}

/// A message as plain values. Tags to remove are `None` where all are meant.
#[allow(inconsistent_fields)]
pub enum MsgView {
    DeviceEvent(DeviceEvent),
    FocusedWindow(FocusedWindowView),
    GetScreenInfo,
    GetCheatsheetsInfo,
    UploadCheatsheet { image: ImageView, name: Seq<char>, tags: Seq<Seq<char>> },
    RemoveCheatsheet { name: Seq<char> },
    UploadScreenshot { screenshot: ImageView, name: Seq<char> },
    ClearScreenshot,
    AddCheatsheetTags { name: Seq<char>, tags: Seq<Seq<char>> },
    RemoveCheatsheetTags { name: Seq<char>, tags: Option<Seq<Seq<char>>> },
    AddWmClassTags { wm_class: Seq<char>, tags: Seq<Seq<char>> },
    RemoveWmClassTags { wm_class: Seq<char>, tags: Option<Seq<Seq<char>>> },
    Shutdown,
}

impl View for Msg {
    type V = MsgView;

    open spec fn view(&self) -> MsgView {
        match self {
            Msg::DeviceEvent(event) => MsgView::DeviceEvent(*event),
            Msg::FocusedWindow(info) => MsgView::FocusedWindow(info@),
            Msg::GetScreenInfo => MsgView::GetScreenInfo,
            Msg::GetCheatsheetsInfo => MsgView::GetCheatsheetsInfo,
            Msg::UploadCheatsheet { image, name, tags } => MsgView::UploadCheatsheet {
                image: image@,
                name: name@,
                tags: tags@,
            },
            Msg::RemoveCheatsheet { name } => MsgView::RemoveCheatsheet { name: name@ },
            Msg::UploadScreenshot { screenshot, name } => MsgView::UploadScreenshot {
                screenshot: screenshot@,
                name: name@,
            },
            Msg::ClearScreenshot => MsgView::ClearScreenshot,
            Msg::AddCheatsheetTags { name, tags } => MsgView::AddCheatsheetTags {
                name: name@,
                tags: tags@,
            },
            Msg::RemoveCheatsheetTags { name, tags } => MsgView::RemoveCheatsheetTags {
                name: name@,
                tags: tags@,
            },
            Msg::AddWmClassTags { wm_class, tags } => MsgView::AddWmClassTags {
                wm_class: wm_class@,
                tags: tags@,
            },
            Msg::RemoveWmClassTags { wm_class, tags } => MsgView::RemoveWmClassTags {
                wm_class: wm_class@,
                tags: tags@,
            },
            Msg::Shutdown => MsgView::Shutdown,
        }
    }
}

/// The answer to a query, to be handed to whoever asked.
#[derive(Debug)]
pub enum Reply {
    /// The message was no query.
    Nothing,
    /// The geometry of the screen.
    ScreenInfo(ScreenInfo),
    /// The geometry was asked for before the display was there: the one who
    /// asked gets no answer.
    ScreenUnknown,
    /// The report of the store.
    CheatsheetsInfo(CheatsheetsInfo),
}

/// A `Reply` as plain values.
pub enum ReplyView {
    Nothing,
    ScreenInfo(ScreenInfo),
    ScreenUnknown,
    CheatsheetsInfo { cheatsheets: Seq<TagsView>, wm_classes: Seq<TagsView> },
}

impl View for Reply {
    type V = ReplyView;

    open spec fn view(&self) -> ReplyView {
        match self {
            Reply::Nothing => ReplyView::Nothing,
            Reply::ScreenInfo(info) => ReplyView::ScreenInfo(*info),
            Reply::ScreenUnknown => ReplyView::ScreenUnknown,
            Reply::CheatsheetsInfo(info) => ReplyView::CheatsheetsInfo {
                cheatsheets: info@.cheatsheets,
                wm_classes: info@.wm_classes,
            },
        }
    }
}

/// What is to be written after a turn.
#[derive(Debug)]
pub enum Persist {
    /// Nothing: the message changes no content.
    Nothing,
    /// The files that hold the store as the turn left it, in the order in
    /// which they are to be written.
    Jobs(Vec<SaveJob>),
    /// The store could not be put into bytes. No turn ends so: the store is
    /// put into bytes whatever it holds.
    Failed,
}

/// What the loop has to do after a message was handled.
#[derive(Debug)]
pub struct Turn {
    /// Whether the screen is to be drawn again.
    pub render: bool,
    pub persist: Persist,
    pub reply: Reply,
    /// What the message asked for in vain, if anything. The loop goes on.
    pub failure: Option<Failure>,
    /// Whether the loop ends after this turn.
    pub exit: bool,
}

/// How long a key was held that went down at `since` and up at `now`.
pub open spec fn held_for(since: u64, now: u64) -> int {
    if now >= since {
        now - since
    } else {
        0
    }
}

/// Whether `msg` is one of the messages that change the content of the
/// store, or ends the loop: after these the store is written.
pub open spec fn persists(msg: MsgView) -> bool {
    match msg {
        MsgView::UploadCheatsheet { .. } => true,
        MsgView::RemoveCheatsheet { .. } => true,
        MsgView::AddCheatsheetTags { .. } => true,
        MsgView::RemoveCheatsheetTags { .. } => true,
        MsgView::AddWmClassTags { .. } => true,
        MsgView::RemoveWmClassTags { .. } => true,
        MsgView::DeviceEvent(DeviceEvent::Exit) => true,
        MsgView::Shutdown => true,
        _ => false,
    }
}

/// Whether the loop ends after `msg`.
pub open spec fn exits(msg: MsgView) -> bool {
    msg == MsgView::Shutdown || msg == MsgView::DeviceEvent(DeviceEvent::Exit)
}

impl UiView {
    /// The state after the key for the previous page (`back`) or for the
    /// next page went up at `now`: nothing where it was not down; held long,
    /// it changes the mode, else the page.
    pub open spec fn released(self, back: bool, now: u64) -> UiView {
        let pressed = if back {
            self.prev_pressed
        } else {
            self.next_pressed
        };
        match pressed {
            None => self,
            Some(since) => {
                let idle = if back {
                    UiView { prev_pressed: None, ..self }
                } else {
                    UiView { next_pressed: None, ..self }
                };
                if held_for(since, now) >= CYCLE_TIME_MS {
                    if back {
                        idle.retreat()
                    } else {
                        idle.advance()
                    }
                } else {
                    if back {
                        idle.prev_page()
                    } else {
                        idle.next_page()
                    }
                }
            },
        }
    }

    /// The state after an entry was uploaded: the entry is in the store, and
    /// the focused window's class stands one page further, at most at its
    /// last page, or at page 0 if it had no page.
    pub open spec fn uploaded(self, sheet: SheetView) -> UiView {
        let store = self.store.insert(sheet);
        let wm_class = self.focused.wm_class;
        let page = if self.pages.contains_key(wm_class) {
            page_up(self.pages[wm_class], store.resolve(wm_class).len())
        } else {
            0
        };
        UiView { store: store, pages: self.pages.insert(wm_class, page), ..self }
    }

    /// The state after `msg` was handled at `now`, but for the geometry of
    /// the screen.
    pub open spec fn applied(self, msg: MsgView, now: u64) -> UiView {
        match msg {
            MsgView::DeviceEvent(DeviceEvent::KeyDown { key: Key::Prev }) => UiView {
                prev_pressed: Some(now),
                ..self
            },
            MsgView::DeviceEvent(DeviceEvent::KeyDown { key: Key::Next }) => UiView {
                next_pressed: Some(now),
                ..self
            },
            MsgView::DeviceEvent(DeviceEvent::KeyDown { key: Key::Menu }) => UiView {
                show_stats: !self.show_stats,
                ..self
            },
            MsgView::DeviceEvent(DeviceEvent::KeyUp { key: Key::Prev }) => self.released(true, now),
            MsgView::DeviceEvent(DeviceEvent::KeyUp { key: Key::Next }) => self.released(
                false,
                now,
            ),
            MsgView::DeviceEvent(_) => self,
            MsgView::FocusedWindow(info) => UiView { focused: info, ..self },
            MsgView::GetScreenInfo => self,
            MsgView::GetCheatsheetsInfo => self,
            MsgView::UploadCheatsheet { image, name, tags } => self.uploaded(
                SheetView { name: name, tags: tags, image: image },
            ),
            MsgView::RemoveCheatsheet { name } => UiView { store: self.store.remove(name), ..self },
            MsgView::UploadScreenshot { screenshot, name } => UiView {
                screenshot: Some((screenshot, name)),
                mode: UiMode::Screenshot,
                ..self
            },
            MsgView::ClearScreenshot => UiView { screenshot: None, ..self },
            MsgView::AddCheatsheetTags { name, tags } => UiView {
                store: self.store.add_tags(name, tags),
                ..self
            },
            MsgView::RemoveCheatsheetTags { name, tags } => UiView {
                store: match tags {
                    Some(list) => self.store.remove_tags(name, list),
                    None => self.store.clear_tags(name),
                },
                ..self
            },
            MsgView::AddWmClassTags { wm_class, tags } => UiView {
                store: self.store.add_wm_class_tags(wm_class, tags),
                ..self
            },
            MsgView::RemoveWmClassTags { wm_class, tags } => UiView {
                store: match tags {
                    Some(list) => self.store.remove_wm_class_tags(wm_class, list),
                    None => self.store.clear_wm_class_tags(wm_class),
                },
                ..self
            },
            MsgView::Shutdown => self,
        }
    }

    /// Whether the screen is to be drawn again after `msg` was handled at
    /// `now`: where what it shows has changed, or the device asks for it;
    /// never after a query or a message that changes nothing.
    pub open spec fn wants_render(self, msg: MsgView, now: u64) -> bool {
        match msg {
            MsgView::DeviceEvent(DeviceEvent::Init) => true,
            MsgView::DeviceEvent(DeviceEvent::Show) => true,
            MsgView::DeviceEvent(DeviceEvent::Repaint) => true,
            MsgView::DeviceEvent(DeviceEvent::KeyDown { key: Key::Menu }) => true,
            MsgView::DeviceEvent(DeviceEvent::KeyUp { key: Key::Prev }) => {
                let after = self.released(true, now);
                after.mode != self.mode || after.active_page() != self.active_page()
            },
            MsgView::DeviceEvent(DeviceEvent::KeyUp { key: Key::Next }) => {
                let after = self.released(false, now);
                after.mode != self.mode || after.active_page() != self.active_page()
            },
            MsgView::FocusedWindow(info) => info.wm_class != self.focused.wm_class && self.mode
                == UiMode::AutomaticWmClass,
            MsgView::UploadCheatsheet { .. } => true,
            MsgView::UploadScreenshot { .. } => true,
            MsgView::ClearScreenshot => self.screenshot is Some,
            _ => false,
        }
    }

    /// The state after `msg` was handled at `now`, while the display
    /// reported the geometry `display`, if it was there: where the screen is
    /// to be drawn again, the state takes that geometry over.
    pub open spec fn after(self, msg: MsgView, now: u64, display: Option<ScreenInfo>) -> UiView {
        let next = self.applied(msg, now);
        match display {
            Some(screen_info) => if self.wants_render(msg, now) {
                UiView { screen_info: screen_info, ..next }
            } else {
                next
            },
            None => next,
        }
    }

    /// What `msg` asks for in vain: tags of an entry or of a window class
    /// that the store does not hold.
    pub open spec fn failure_of(self, msg: MsgView) -> Option<Failure> {
        match msg {
            MsgView::AddCheatsheetTags { name, tags } => if self.store.has_sheet(name) {
                None
            } else {
                Some(Failure::NotFound)
            },
            MsgView::RemoveCheatsheetTags { name, tags } => if self.store.has_sheet(name) {
                None
            } else {
                Some(Failure::NotFound)
            },
            MsgView::RemoveWmClassTags { wm_class, tags } => if self.store.has_wm_class(
                wm_class,
            ) {
                None
            } else {
                Some(Failure::NotFound)
            },
            _ => None,
        }
    }

    /// The answer to `msg`.
    pub open spec fn reply_to(self, msg: MsgView, display: Option<ScreenInfo>) -> ReplyView {
        match msg {
            MsgView::GetScreenInfo => match display {
                Some(screen_info) => ReplyView::ScreenInfo(screen_info),
                None => ReplyView::ScreenUnknown,
            },
            MsgView::GetCheatsheetsInfo => ReplyView::CheatsheetsInfo {
                cheatsheets: sheet_tags_of(self.store.sheets),
                wm_classes: self.store.wm_classes,
            },
            _ => ReplyView::Nothing,
        }
    }
}

/// After an entry was uploaded, the page of the focused window's class is a
/// page that exists, wherever it stood before.
pub proof fn law_upload_puts_page_in_range(s: UiView, sheet: SheetView)
    ensures
        crate::ui::page_in_range(s.uploaded(sheet).auto_page(), s.uploaded(sheet).auto_count()),
{
}

/// A query leaves the state as it was, and asks neither for the screen to be
/// drawn nor for the store to be written nor for the loop to end.
pub proof fn law_queries_change_nothing(s: UiView, now: u64, display: Option<ScreenInfo>)
    ensures
        s.after(MsgView::GetScreenInfo, now, display) == s,
        s.after(MsgView::GetCheatsheetsInfo, now, display) == s,
        !s.wants_render(MsgView::GetScreenInfo, now),
        !s.wants_render(MsgView::GetCheatsheetsInfo, now),
        !persists(MsgView::GetScreenInfo) && !exits(MsgView::GetScreenInfo),
        !persists(MsgView::GetCheatsheetsInfo) && !exits(MsgView::GetCheatsheetsInfo),
{
}

/// Whenever a message changes what the store holds, the store is written in
/// the same turn; and the loop never ends without the store being written.
pub proof fn law_changes_are_written(
    s: UiView,
    msg: MsgView,
    now: u64,
    display: Option<ScreenInfo>,
)
    ensures
        s.after(msg, now, display).store != s.store ==> persists(msg),
        exits(msg) ==> persists(msg),
{
}

/// A message that leaves the mode, the pages, the transient image, the
/// diagnostics, the focused window's class and the store as they were asks
/// for the screen to be drawn only if it uploads an entry or the device
/// itself asks for the screen.
pub proof fn law_nothing_new_is_not_drawn(s: UiView, msg: MsgView, now: u64)
    requires
        s.applied(msg, now).mode == s.mode,
        s.applied(msg, now).pages == s.pages,
        s.applied(msg, now).manual_page == s.manual_page,
        s.applied(msg, now).screenshot == s.screenshot,
        s.applied(msg, now).show_stats == s.show_stats,
        s.applied(msg, now).focused.wm_class == s.focused.wm_class,
        s.applied(msg, now).store == s.store,
        !(msg is UploadCheatsheet),
        !(msg is UploadScreenshot),
        msg != MsgView::DeviceEvent(DeviceEvent::Init),
        msg != MsgView::DeviceEvent(DeviceEvent::Show),
        msg != MsgView::DeviceEvent(DeviceEvent::Repaint),
    ensures
        !s.wants_render(msg, now),
{
}

impl UiState {
    /// Handles the release of the key for the previous page (`back`) or for
    /// the next page at `now`. Says whether the mode or the page changed.
    fn release(&mut self, back: bool, now: u64) -> (changed: bool)
        ensures
            final(self)@ == old(self)@.released(back, now),
            changed == (final(self)@.mode != old(self)@.mode || final(self)@.active_page() != old(
                self,
            )@.active_page()),
    {
        let pressed = if back {
            self.button_prev_pressed_time.take()
        } else {
            self.button_next_pressed_time.take()
        };
        match pressed {
            None => false,
            Some(since) => {
                let held = now.saturating_sub(since);
                if held >= CYCLE_TIME_MS {
                    let before = self.mode;
                    if back {
                        self.mode.prev();
                    } else {
                        self.mode.next();
                    }
                    self.mode != before
                } else {
                    if back {
                        self.prev_page()
                    } else {
                        self.next_page()
                    }
                }
            },
        }
    }

    /// Handles one message: changes the state as the message asks, and says
    /// what the loop has to do next. `now` is the time in milliseconds;
    /// `display` is the geometry that the display reports, if it is there.
    pub fn handle(&mut self, msg: Msg, now: u64, display: Option<ScreenInfo>) -> (turn: Turn)
        ensures
            final(self)@ == old(self)@.after(msg@, now, display),
            turn.render == old(self)@.wants_render(msg@, now),
            turn.exit == exits(msg@),
            turn.reply@ == old(self)@.reply_to(msg@, display),
            turn.failure == old(self)@.failure_of(msg@),
            persists(msg@) ==> (turn.persist matches Persist::Jobs(jobs) && jobs_view(jobs@)
                == save_plan(final(self)@.store)),
            !persists(msg@) ==> turn.persist is Nothing,
    {
        let mut render = false;
        let mut persist = false;
        let mut exit = false;
        let mut reply = Reply::Nothing;
        let mut failure: Option<Failure> = None;
        match msg {
            Msg::DeviceEvent(event) => match event {
                DeviceEvent::Init | DeviceEvent::Show | DeviceEvent::Repaint => {
                    render = true;
                },
                DeviceEvent::KeyDown { key } => match key {
                    Key::Prev => {
                        self.button_prev_pressed_time = Some(now);
                    },
                    Key::Next => {
                        self.button_next_pressed_time = Some(now);
                    },
                    Key::Menu => {
                        self.show_stats = !self.show_stats;
                        render = true;
                    },
                    Key::Other => {},
                },
                DeviceEvent::KeyUp { key } => match key {
                    Key::Prev => {
                        render = self.release(true, now);
                    },
                    Key::Next => {
                        render = self.release(false, now);
                    },
                    _ => {},
                },
                DeviceEvent::Exit => {
                    persist = true;
                    exit = true;
                },
                DeviceEvent::Other => {},
            },
            Msg::FocusedWindow(info) => {
                if info.wm_class != self.focused_window_info.wm_class && self.mode
                    == UiMode::AutomaticWmClass {
                    render = true;
                }
                self.focused_window_info = info;
            },
            Msg::GetScreenInfo => {
                reply = match display {
                    Some(screen_info) => Reply::ScreenInfo(screen_info),
                    None => Reply::ScreenUnknown,
                };
            },
            Msg::GetCheatsheetsInfo => {
                reply = Reply::CheatsheetsInfo(self.cheatsheets.get_info());
            },
            Msg::UploadCheatsheet { image, name, tags } => {
                self.cheatsheets.insert_sheet(Cheatsheet { image }, name, tags);
                let wm_class = self.focused_window_info.wm_class.as_str();
                let n_sheets = self.cheatsheets.wm_class_n_sheets(wm_class);
                let page = match self.current_page.get(wm_class) {
                    Some(page) => step_up(page, n_sheets),
                    None => 0,
                };
                self.current_page.set(wm_class, page);
                persist = true;
                render = true;
            },
            Msg::RemoveCheatsheet { name } => {
                self.cheatsheets.remove_sheet(name.as_str());
                persist = true;
            },
            Msg::UploadScreenshot { screenshot, name } => {
                self.screenshot = Some((Cheatsheet { image: screenshot }, name));
                self.mode = UiMode::Screenshot;
                render = true;
            },
            Msg::ClearScreenshot => {
                render = self.screenshot.is_some();
                self.screenshot = None;
            },
            Msg::AddCheatsheetTags { name, tags } => {
                failure = self.cheatsheets.add_sheet_tags(name.as_str(), &tags).err();
                persist = true;
            },
            Msg::RemoveCheatsheetTags { name, tags } => {
                failure = self.cheatsheets.remove_sheet_tags(name.as_str(), &tags).err();
                persist = true;
            },
            Msg::AddWmClassTags { wm_class, tags } => {
                self.cheatsheets.add_wm_class_tags(wm_class.as_str(), &tags);
                persist = true;
            },
            Msg::RemoveWmClassTags { wm_class, tags } => {
                failure = self.cheatsheets.remove_wm_class_tags(wm_class.as_str(), &tags).err();
                persist = true;
            },
            Msg::Shutdown => {
                persist = true;
                exit = true;
            },
        }
        if render {
            if let Some(screen_info) = display {
                self.update(screen_info);
            }
        }
        let persist = if persist {
            match save_jobs(&self.cheatsheets) {
                Ok(jobs) => Persist::Jobs(jobs),
                Err(_) => Persist::Failed,
            }
        } else {
            Persist::Nothing
        };
        Turn { render, persist, reply, failure, exit }
    }
}

} // verus!
