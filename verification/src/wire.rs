//! Remote calls as they arrive, turned into messages for the loop.

use vstd::prelude::*;
use crate::dispatch::Msg;
use crate::dispatch::MsgView;
use crate::error::Failure;
use crate::model::ByteOrder;
use crate::model::CheatsheetImage;
use crate::model::ImageFormat;
use crate::model::ImageView;
use crate::model::ScreenInfo;
use crate::model::ScreenOrientation;
use crate::model::TagsEither;
use crate::tags::distinct;
use crate::tags::strings_view;
use crate::tags::TagSet;

verus! {

/// An image as a remote call carries it: format and byte order as numbers.
#[derive(Debug)]
pub struct WireImage {
    pub format: i32,
    pub order: i32,
    pub width: u32,
    pub height: u32,
    pub data: Vec<u8>,
}

/// The geometry of the screen as a remote call carries it.
#[derive(Debug, Clone, Copy, PartialEq, Eq, Structural)]
pub struct WireScreenInfo {
    pub width: u32,
    pub height: u32,
    pub orientation: i32,
}

/// The tags to remove as a remote call carries them.
#[derive(Debug)]
pub enum WireEither {
    Tags(Vec<String>),
    All,
}

/// Whether a remote call can carry `format` and `order`: they stand for a
/// format and a byte order that there are.
pub open spec fn wire_image_ok(format: i32, order: i32) -> bool {
    format == 0 && 0 <= order <= 1
}

/// The tags that a remote call carries, each once; none where it carries no
/// list.
pub open spec fn wire_tags(tags: Option<Vec<String>>) -> Seq<Seq<char>> {
    match tags {
        Some(list) => distinct(strings_view(list@)),
        None => Seq::empty(),
    }
}

/// The tags to remove that a remote call carries: a list, each tag once, or
/// all; no tag where it says neither.
pub open spec fn wire_either(tags: Option<WireEither>) -> Option<Seq<Seq<char>>> {
    match tags {
        Some(WireEither::Tags(list)) => Some(distinct(strings_view(list@))),
        Some(WireEither::All) => None,
        None => Some(Seq::empty()),
    }
}

/// The image that a remote call carries. Fails where the call names a
/// format or a byte order that there is not.
pub fn image_from_wire(image: WireImage) -> (r: Result<CheatsheetImage, Failure>)
    ensures
        match r {
            Ok(got) => wire_image_ok(image.format, image.order) && got@ == (ImageView {
                format: ImageFormat::Gray8,
                order: if image.order == 0 {
                    ByteOrder::LE
                } else {
                    ByteOrder::BE
                },
                width: image.width,
                height: image.height,
                data: image.data@,
            }),
            Err(e) => e == Failure::InternalProtocol && !wire_image_ok(image.format, image.order),
        },
{
    let Some(format) = ImageFormat::from_i32(image.format) else {
        return Err(Failure::InternalProtocol);
    };
    let Some(order) = ByteOrder::from_i32(image.order) else {
        return Err(Failure::InternalProtocol);
    };
    Ok(CheatsheetImage { format, order, width: image.width, height: image.height, data: image.data })
}

/// The image `image` as a remote call carries it.
pub fn image_to_wire(image: CheatsheetImage) -> (r: WireImage)
    ensures
        r.format == image.format.code(),
        r.order == image.order.code(),
        r.width == image.width,
        r.height == image.height,
        r.data@ == image.data@,
{
    WireImage {
        format: image.format.to_i32(),
        order: image.order.to_i32(),
        width: image.width,
        height: image.height,
        data: image.data,
    }
}

/// The geometry that a remote call carries. Fails where the call names an
/// orientation that there is not.
pub fn screen_info_from_wire(info: WireScreenInfo) -> (r: Result<ScreenInfo, Failure>)
    ensures
        match r {
            Ok(got) => got.width == info.width && got.height == info.height
                && got.orientation.code() == info.orientation,
            Err(e) => e == Failure::InternalProtocol && !(0 <= info.orientation <= 3),
        },
{
    match ScreenOrientation::from_i32(info.orientation) {
        Some(orientation) => Ok(ScreenInfo { width: info.width, height: info.height, orientation }),
        None => Err(Failure::InternalProtocol),
    }
}

/// The geometry `info` as a remote call carries it.
pub fn screen_info_to_wire(info: ScreenInfo) -> (r: WireScreenInfo)
    ensures
        r.width == info.width,
        r.height == info.height,
        r.orientation == info.orientation.code(),
{
    WireScreenInfo { width: info.width, height: info.height, orientation: info.orientation.to_i32() }
}

/// The tags that a remote call carries, as a set.
pub fn tags_from_wire(tags: Option<Vec<String>>) -> (r: TagSet)
    ensures
        r@ == wire_tags(tags),
{
    match tags {
        Some(list) => TagSet::from_vec(list),
        None => TagSet::new(),
    }
}

/// The tags to remove that a remote call carries.
pub fn tags_either_from_wire(tags: Option<WireEither>) -> (r: TagsEither)
    ensures
        r@ == wire_either(tags),
{
    match tags {
        Some(WireEither::Tags(list)) => TagsEither::Tags(TagSet::from_vec(list)),
        Some(WireEither::All) => TagsEither::All,
        None => TagsEither::Tags(TagSet::new()),
    }
}

/// The tags to remove as a remote call carries them.
pub fn tags_either_to_wire(tags: TagsEither) -> (r: WireEither)
    ensures
        match r {
            WireEither::Tags(list) => tags@ == Some(strings_view(list@)),
            WireEither::All => tags@ is None,
        },
{
    match tags {
        TagsEither::Tags(set) => WireEither::Tags(set.to_vec()),
        TagsEither::All => WireEither::All,
    }
}

/// The message for a call that uploads an entry. The call is refused, and
/// nothing reaches the loop, where its image cannot be understood.
pub fn upload_cheatsheet_msg(image: WireImage, name: String, tags: Option<Vec<String>>) -> (r:
    Result<Msg, Failure>)
    ensures
        match r {
            Ok(msg) => wire_image_ok(image.format, image.order) && msg@ == (
            MsgView::UploadCheatsheet {
                image: ImageView {
                    format: ImageFormat::Gray8,
                    order: if image.order == 0 {
                        ByteOrder::LE
                    } else {
                        ByteOrder::BE
                    },
                    width: image.width,
                    height: image.height,
                    data: image.data@,
                },
                name: name@,
                tags: wire_tags(tags),
            }),
            Err(e) => e == Failure::InternalProtocol && !wire_image_ok(image.format, image.order),
        },
{
    let tags = tags_from_wire(tags);
    match image_from_wire(image) {
        Ok(image) => Ok(Msg::UploadCheatsheet { image, name, tags }),
        Err(e) => Err(e),
    }
}

/// The message for a call that uploads the transient image. The call is
/// refused, and nothing reaches the loop, where its image cannot be
/// understood.
pub fn upload_screenshot_msg(image: WireImage, name: String) -> (r: Result<Msg, Failure>)
    ensures
        match r {
            Ok(msg) => wire_image_ok(image.format, image.order) && msg@ == (
            MsgView::UploadScreenshot {
                screenshot: ImageView {
                    format: ImageFormat::Gray8,
                    order: if image.order == 0 {
                        ByteOrder::LE
                    } else {
                        ByteOrder::BE
                    },
                    width: image.width,
                    height: image.height,
                    data: image.data@,
                },
                name: name@,
            }),
            Err(e) => e == Failure::InternalProtocol && !wire_image_ok(image.format, image.order),
        },
{
    match image_from_wire(image) {
        Ok(screenshot) => Ok(Msg::UploadScreenshot { screenshot, name }),
        Err(e) => Err(e),
    }
}

/// The message for a call that adds tags to an entry.
pub fn add_cheatsheet_tags_msg(name: String, tags: Option<Vec<String>>) -> (msg: Msg)
    ensures
        msg@ == (MsgView::AddCheatsheetTags { name: name@, tags: wire_tags(tags) }),
{
    Msg::AddCheatsheetTags { name, tags: tags_from_wire(tags) }
}

/// The message for a call that removes tags from an entry.
pub fn remove_cheatsheet_tags_msg(name: String, tags: Option<WireEither>) -> (msg: Msg)
    ensures
        msg@ == (MsgView::RemoveCheatsheetTags { name: name@, tags: wire_either(tags) }),
{
    Msg::RemoveCheatsheetTags { name, tags: tags_either_from_wire(tags) }
}

/// The message for a call that adds tags to a window class.
pub fn add_wm_class_tags_msg(wm_class: String, tags: Option<Vec<String>>) -> (msg: Msg)
    ensures
        msg@ == (MsgView::AddWmClassTags { wm_class: wm_class@, tags: wire_tags(tags) }),
{
    Msg::AddWmClassTags { wm_class, tags: tags_from_wire(tags) }
}

/// The message for a call that removes tags from a window class.
pub fn remove_wm_class_tags_msg(wm_class: String, tags: Option<WireEither>) -> (msg: Msg)
    ensures
        msg@ == (MsgView::RemoveWmClassTags { wm_class: wm_class@, tags: wire_either(tags) }),
{
    Msg::RemoveWmClassTags { wm_class, tags: tags_either_from_wire(tags) }
}

} // verus!
