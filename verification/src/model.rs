//! The values that the host and the device exchange.

use vstd::prelude::*;
use vstd::std_specs::cmp::PartialEqSpecImpl;
use crate::tags::strings_view;
use crate::tags::clone_strings;
use crate::tags::TagSet;

verus! {

/// The port on which the device listens for remote calls.
pub const PB_GRPC_PORT: u16 = 51151;

/// How the pixels of an image are laid out.
#[derive(Debug, Clone, Copy, PartialEq, Eq, PartialOrd, Ord, Structural)]
#[non_exhaustive]
pub enum ImageFormat {
    Gray8,
}

impl ImageFormat {
    /// The number that stands for `value` on the wire and on disk.
    pub open spec fn code(self) -> int {
        0
    }

    /// The format that `value` stands for, if any.
    pub fn from_i32(value: i32) -> (r: Option<ImageFormat>)
        ensures
            r == (if value == 0 {
                Some(ImageFormat::Gray8)
            } else {
                None
            }),
            r matches Some(f) ==> f.code() == value,
    {
        if value == 0 {
            Some(ImageFormat::Gray8)
        } else {
            None
        }
    }

    /// The number that stands for this format.
    pub fn to_i32(self) -> (r: i32)
        ensures
            r == self.code(),
    {
        0
    }
}

/// The order of the bytes of a pixel.
#[derive(Debug, Clone, Copy, PartialEq, Eq, PartialOrd, Ord, Structural)]
#[non_exhaustive]
pub enum ByteOrder {
    LE,
    BE,
}

impl ByteOrder {
    /// The number that stands for this byte order on the wire and on disk.
    pub open spec fn code(self) -> int {
        match self {
            ByteOrder::LE => 0,
            ByteOrder::BE => 1,
        }
    }

    /// The byte order that `value` stands for, if any.
    pub fn from_i32(value: i32) -> (r: Option<ByteOrder>)
        ensures
            r == (if value == 0 {
                Some(ByteOrder::LE)
            } else if value == 1 {
                Some(ByteOrder::BE)
            } else {
                None
            }),
            r matches Some(o) ==> o.code() == value,
    {
        if value == 0 {
            Some(ByteOrder::LE)
        } else if value == 1 {
            Some(ByteOrder::BE)
        } else {
            None
        }
    }

    /// The number that stands for this byte order.
    pub fn to_i32(self) -> (r: i32)
        ensures
            r == self.code(),
    {
        match self {
            ByteOrder::LE => 0,
            ByteOrder::BE => 1,
        }
    }
}

/// How the device's screen is turned.
#[derive(Debug, Clone, Copy, PartialEq, Eq, PartialOrd, Structural)]
pub enum ScreenOrientation {
    Portrait0Deg,
    Landscape90Deg,
    Portrait180Deg,
    Landscape270Deg,
}

impl ScreenOrientation {
    /// The number that stands for this orientation on the wire.
    pub open spec fn code(self) -> int {
        match self {
            ScreenOrientation::Portrait0Deg => 0,
            ScreenOrientation::Landscape90Deg => 1,
            ScreenOrientation::Portrait180Deg => 2,
            ScreenOrientation::Landscape270Deg => 3,
        }
    }

    /// The orientation that `value` stands for, if any.
    pub fn from_i32(value: i32) -> (r: Option<ScreenOrientation>)
        ensures
            r is Some <==> 0 <= value <= 3,
            r matches Some(o) ==> o.code() == value,
    {
        if value == 0 {
            Some(ScreenOrientation::Portrait0Deg)
        } else if value == 1 {
            Some(ScreenOrientation::Landscape90Deg)
        } else if value == 2 {
            Some(ScreenOrientation::Portrait180Deg)
        } else if value == 3 {
            Some(ScreenOrientation::Landscape270Deg)
        } else {
            None
        }
    }

    /// The number that stands for this orientation.
    pub fn to_i32(self) -> (r: i32)
        ensures
            r == self.code(),
    {
        match self {
            ScreenOrientation::Portrait0Deg => 0,
            ScreenOrientation::Landscape90Deg => 1,
            ScreenOrientation::Portrait180Deg => 2,
            ScreenOrientation::Landscape270Deg => 3,
        }
    }

    /// The name of this orientation, as it is shown to the user.
    pub open spec fn name_spec(self) -> Seq<char> {
        match self {
            ScreenOrientation::Portrait0Deg => "Portrait0Deg"@,
            ScreenOrientation::Landscape90Deg => "Landscape90Deg"@,
            ScreenOrientation::Portrait180Deg => "Portrait180Deg"@,
            ScreenOrientation::Landscape270Deg => "Landscape270Deg"@,
        }
    }

    /// The name of this orientation.
    pub fn name(self) -> (r: &'static str)
        ensures
            r@ == self.name_spec(),
    {
        match self {
            ScreenOrientation::Portrait0Deg => "Portrait0Deg",
            ScreenOrientation::Landscape90Deg => "Landscape90Deg",
            ScreenOrientation::Portrait180Deg => "Portrait180Deg",
            ScreenOrientation::Landscape270Deg => "Landscape270Deg",
        }
    }
}

impl Default for ScreenOrientation {
    fn default() -> (r: Self)
        ensures
            r == ScreenOrientation::Portrait0Deg,
    {
        ScreenOrientation::Portrait0Deg
    }
}

/// The geometry of the device's screen.
#[derive(Debug, Clone, Copy, PartialEq, Eq, PartialOrd, Structural)]
pub struct ScreenInfo {
    pub width: u32,
    pub height: u32,
    pub orientation: ScreenOrientation,
}

impl Default for ScreenInfo {
    fn default() -> (r: Self)
        ensures
            r == (ScreenInfo { width: 0, height: 0, orientation: ScreenOrientation::Portrait0Deg }),
    {
        ScreenInfo { width: 0, height: 0, orientation: ScreenOrientation::Portrait0Deg }
    }
}

/// What is known of the window that has the focus on the host.
#[derive(Debug, PartialOrd)]
pub struct FocusedWindowInfo {
    pub title: String,
    pub wm_class: String,
    pub wm_class_instance: String,
    pub pid: u64,
    pub focus: bool,
}

/// A `FocusedWindowInfo` as plain values.
pub struct FocusedWindowView {
    pub title: Seq<char>,
    pub wm_class: Seq<char>,
    pub wm_class_instance: Seq<char>,
    pub pid: u64,
    pub focus: bool,
}

impl View for FocusedWindowInfo {
    type V = FocusedWindowView;

    open spec fn view(&self) -> FocusedWindowView {
        FocusedWindowView {
            title: self.title@,
            wm_class: self.wm_class@,
            wm_class_instance: self.wm_class_instance@,
            pid: self.pid,
            focus: self.focus,
        }
    }
}

impl PartialEq for FocusedWindowInfo {
    fn eq(&self, other: &Self) -> (r: bool) {
        self.title == other.title && self.wm_class == other.wm_class && self.wm_class_instance
            == other.wm_class_instance && self.pid == other.pid && self.focus == other.focus
    }
}

impl PartialEqSpecImpl for FocusedWindowInfo {
    open spec fn obeys_eq_spec() -> bool {
        true
    }

    /// Two are equal where they hold the same values.
    open spec fn eq_spec(&self, other: &Self) -> bool {
        self.title@ == other.title@ && self.wm_class@ == other.wm_class@
            && self.wm_class_instance@ == other.wm_class_instance@ && self.pid == other.pid
            && self.focus == other.focus
    }
}

impl Clone for FocusedWindowInfo {
    fn clone(&self) -> (r: Self)
        ensures
            r@ == self@,
    {
        FocusedWindowInfo {
            title: self.title.clone(),
            wm_class: self.wm_class.clone(),
            wm_class_instance: self.wm_class_instance.clone(),
            pid: self.pid,
            focus: self.focus,
        }
    }
}

impl Default for FocusedWindowInfo {
    fn default() -> (r: Self)
        ensures
            r@ == (FocusedWindowView {
                title: Seq::empty(),
                wm_class: Seq::empty(),
                wm_class_instance: Seq::empty(),
                pid: u64::MAX,
                focus: false,
            }),
    {
        FocusedWindowInfo {
            title: String::new(),
            wm_class: String::new(),
            wm_class_instance: String::new(),
            pid: u64::MAX,
            focus: false,
        }
    }
}

/// An image as the device holds it: a blob of fixed geometry.
#[derive(Debug)]
pub struct CheatsheetImage {
    pub format: ImageFormat,
    pub order: ByteOrder,
    pub width: u32,
    pub height: u32,
    pub data: Vec<u8>,
}

/// A `CheatsheetImage` as plain values.
pub struct ImageView {
    pub format: ImageFormat,
    pub order: ByteOrder,
    pub width: u32,
    pub height: u32,
    pub data: Seq<u8>,
}

impl View for CheatsheetImage {
    type V = ImageView;

    open spec fn view(&self) -> ImageView {
        ImageView {
            format: self.format,
            order: self.order,
            width: self.width,
            height: self.height,
            data: self.data@,
        }
    }
}

impl Clone for CheatsheetImage {
    fn clone(&self) -> (r: Self)
        ensures
            r@ == self@,
    {
        CheatsheetImage {
            format: self.format,
            order: self.order,
            width: self.width,
            height: self.height,
            data: self.data.clone(),
        }
    }
}

impl Default for CheatsheetImage {
    fn default() -> (r: Self)
        ensures
            r@ == (ImageView {
                format: ImageFormat::Gray8,
                order: ByteOrder::LE,
                width: 0,
                height: 0,
                data: Seq::empty(),
            }),
    {
        CheatsheetImage {
            format: ImageFormat::Gray8,
            order: ByteOrder::LE,
            width: 0,
            height: 0,
            data: Vec::new(),
        }
    }
}

/// The tags of one entry, for reporting.
#[derive(Debug)]
pub struct CheatsheetTags {
    pub name: String,
    pub tags: Vec<String>,
}

/// The tags of one window class, for reporting.
#[derive(Debug)]
pub struct WmClassTags {
    pub wm_class: String,
    pub tags: Vec<String>,
}

/// A name or window class with its tags, as plain values.
#[verifier::ext_equal]
pub struct TagsView {
    pub key: Seq<char>,
    pub tags: Seq<Seq<char>>,
}

impl View for CheatsheetTags {
    type V = TagsView;

    open spec fn view(&self) -> TagsView {
        TagsView { key: self.name@, tags: strings_view(self.tags@) }
    }
}

impl View for WmClassTags {
    type V = TagsView;

    open spec fn view(&self) -> TagsView {
        TagsView { key: self.wm_class@, tags: strings_view(self.tags@) }
    }
}

impl Default for CheatsheetTags {
    fn default() -> (r: Self)
        ensures
            r@ == (TagsView { key: Seq::empty(), tags: Seq::empty() }),
    {
        let r = CheatsheetTags { name: String::new(), tags: Vec::new() };
        assert(r@.tags =~= Seq::empty());
        r
    }
}

impl Default for WmClassTags {
    fn default() -> (r: Self)
        ensures
            r@ == (TagsView { key: Seq::empty(), tags: Seq::empty() }),
    {
        let r = WmClassTags { wm_class: String::new(), tags: Vec::new() };
        assert(r@.tags =~= Seq::empty());
        r
    }
}

impl Clone for CheatsheetTags {
    fn clone(&self) -> (r: Self)
        ensures
            r@ == self@,
    {
        CheatsheetTags { name: self.name.clone(), tags: clone_strings(&self.tags) }
    }
}

impl Clone for WmClassTags {
    fn clone(&self) -> (r: Self)
        ensures
            r@ == self@,
    {
        WmClassTags { wm_class: self.wm_class.clone(), tags: clone_strings(&self.tags) }
    }
}

/// A report of what the store holds: every entry and every window class with
/// its tags.
#[derive(Debug)]
pub struct CheatsheetsInfo {
    pub cheatsheets: Vec<CheatsheetTags>,
    pub wm_classes: Vec<WmClassTags>,
}

/// A `CheatsheetsInfo` as plain values.
#[verifier::ext_equal]
pub struct InfoView {
    pub cheatsheets: Seq<TagsView>,
    pub wm_classes: Seq<TagsView>,
}

impl View for CheatsheetsInfo {
    type V = InfoView;

    open spec fn view(&self) -> InfoView {
        InfoView {
            cheatsheets: self.cheatsheets@.map_values(|t: CheatsheetTags| t@),
            wm_classes: self.wm_classes@.map_values(|t: WmClassTags| t@),
        }
    }
}

impl Default for CheatsheetsInfo {
    fn default() -> (r: Self)
        ensures
            r@ == (InfoView { cheatsheets: Seq::empty(), wm_classes: Seq::empty() }),
    {
        let r = CheatsheetsInfo { cheatsheets: Vec::new(), wm_classes: Vec::new() };
        assert(r@.cheatsheets =~= Seq::empty());
        assert(r@.wm_classes =~= Seq::empty());
        r
    }
}

/// The tags that a removal names: some, or all that there are.
#[derive(Debug)]
pub enum TagsEither {
    Tags(TagSet),
    All,
}

impl View for TagsEither {
    type V = Option<Seq<Seq<char>>>;

    /// The tags that are named; `None` stands for all.
    open spec fn view(&self) -> Option<Seq<Seq<char>>> {
        match self {
            TagsEither::Tags(tags) => Some(tags@),
            TagsEither::All => None,
        }
    }
}

} // verus!
