use pb_cheatsheet::dispatch::Msg;
use pb_cheatsheet::error::Failure;
use pb_cheatsheet::model::ByteOrder;
use pb_cheatsheet::model::CheatsheetImage;
use pb_cheatsheet::model::ImageFormat;
use pb_cheatsheet::model::ScreenInfo;
use pb_cheatsheet::model::ScreenOrientation;
use pb_cheatsheet::model::TagsEither;
use pb_cheatsheet::model::PB_GRPC_PORT;
use pb_cheatsheet::tags::TagSet;
use pb_cheatsheet::wire::add_cheatsheet_tags_msg;
use pb_cheatsheet::wire::add_wm_class_tags_msg;
use pb_cheatsheet::wire::image_from_wire;
use pb_cheatsheet::wire::image_to_wire;
use pb_cheatsheet::wire::remove_cheatsheet_tags_msg;
use pb_cheatsheet::wire::remove_wm_class_tags_msg;
use pb_cheatsheet::wire::screen_info_from_wire;
use pb_cheatsheet::wire::screen_info_to_wire;
use pb_cheatsheet::wire::tags_either_from_wire;
use pb_cheatsheet::wire::tags_either_to_wire;
use pb_cheatsheet::wire::tags_from_wire;
use pb_cheatsheet::wire::upload_cheatsheet_msg;
use pb_cheatsheet::wire::upload_screenshot_msg;
use pb_cheatsheet::wire::WireEither;
use pb_cheatsheet::wire::WireImage;
use pb_cheatsheet::wire::WireScreenInfo;

fn strings(items: &[&str]) -> Vec<String> {
    items.iter().map(|s| s.to_string()).collect()
}

fn wire_image(format: i32, order: i32) -> WireImage {
    WireImage { format, order, width: 2, height: 1, data: vec![1, 2] }
}

#[test]
fn port_is_fixed() {
    assert_eq!(PB_GRPC_PORT, 51151);
}

#[test]
fn numbers_stand_for_formats_and_orders() {
    assert_eq!(ImageFormat::from_i32(0), Some(ImageFormat::Gray8));
    assert_eq!(ImageFormat::from_i32(1), None);
    assert_eq!(ImageFormat::from_i32(-1), None);
    assert_eq!(ImageFormat::Gray8.to_i32(), 0);
    assert_eq!(ByteOrder::from_i32(0), Some(ByteOrder::LE));
    assert_eq!(ByteOrder::from_i32(1), Some(ByteOrder::BE));
    assert_eq!(ByteOrder::from_i32(2), None);
    assert_eq!(ByteOrder::from_i32(i32::MIN), None);
    assert_eq!(ByteOrder::LE.to_i32(), 0);
    assert_eq!(ByteOrder::BE.to_i32(), 1);
}

#[test]
fn numbers_stand_for_orientations() {
    let all = [
        ScreenOrientation::Portrait0Deg,
        ScreenOrientation::Landscape90Deg,
        ScreenOrientation::Portrait180Deg,
        ScreenOrientation::Landscape270Deg,
    ];
    for (n, orientation) in all.iter().enumerate() {
        assert_eq!(ScreenOrientation::from_i32(n as i32), Some(*orientation));
        assert_eq!(orientation.to_i32(), n as i32);
    }
    assert_eq!(ScreenOrientation::from_i32(4), None);
    assert_eq!(ScreenOrientation::from_i32(-1), None);
    assert_eq!(ScreenOrientation::default(), ScreenOrientation::Portrait0Deg);
    assert_eq!(ScreenOrientation::Portrait0Deg.name(), "Portrait0Deg");
    assert_eq!(ScreenOrientation::Landscape90Deg.name(), "Landscape90Deg");
    assert_eq!(ScreenOrientation::Portrait180Deg.name(), "Portrait180Deg");
    assert_eq!(ScreenOrientation::Landscape270Deg.name(), "Landscape270Deg");
}

#[test]
fn default_image_is_empty() {
    let image = CheatsheetImage::default();
    assert_eq!(image.format, ImageFormat::Gray8);
    assert_eq!(image.order, ByteOrder::LE);
    assert_eq!((image.width, image.height), (0, 0));
    assert!(image.data.is_empty());
    let copy = wire_image(0, 1);
    let image = image_from_wire(copy).unwrap();
    let twin = image.clone();
    assert_eq!((twin.order, twin.width, twin.height, twin.data), (ByteOrder::BE, 2, 1, vec![1, 2]));
}

#[test]
fn image_from_wire_refuses_unknown_numbers() {
    assert_eq!(image_from_wire(wire_image(1, 0)).err(), Some(Failure::InternalProtocol));
    assert_eq!(image_from_wire(wire_image(0, 2)).err(), Some(Failure::InternalProtocol));
    assert_eq!(image_from_wire(wire_image(-1, -1)).err(), Some(Failure::InternalProtocol));
    let image = image_from_wire(wire_image(0, 0)).unwrap();
    assert_eq!(image.order, ByteOrder::LE);
    let back = image_to_wire(image);
    assert_eq!((back.format, back.order, back.width, back.height, back.data), (0, 0, 2, 1, vec![1, 2]));
}

#[test]
fn screen_info_crosses_the_wire() {
    let info = ScreenInfo { width: 10, height: 20, orientation: ScreenOrientation::Portrait180Deg };
    let wire = screen_info_to_wire(info);
    assert_eq!(wire, WireScreenInfo { width: 10, height: 20, orientation: 2 });
    assert_eq!(screen_info_from_wire(wire), Ok(info));
    let bad = WireScreenInfo { width: 10, height: 20, orientation: 4 };
    assert_eq!(screen_info_from_wire(bad), Err(Failure::InternalProtocol));
}

#[test]
fn tags_from_wire_are_a_set() {
    assert!(tags_from_wire(None).is_empty());
    assert_eq!(tags_from_wire(Some(strings(&["a", "b", "a"]))).to_vec(), strings(&["a", "b"]));
}

#[test]
fn tags_to_remove_cross_the_wire() {
    assert!(matches!(tags_either_from_wire(Some(WireEither::All)), TagsEither::All));
    match tags_either_from_wire(Some(WireEither::Tags(strings(&["x", "x", "y"])))) {
        TagsEither::Tags(set) => assert_eq!(set.to_vec(), strings(&["x", "y"])),
        TagsEither::All => panic!("a list was sent"),
    }
    match tags_either_from_wire(None) {
        TagsEither::Tags(set) => assert!(set.is_empty()),
        TagsEither::All => panic!("nothing was sent"),
    }
    assert!(matches!(tags_either_to_wire(TagsEither::All), WireEither::All));
    match tags_either_to_wire(TagsEither::Tags(TagSet::from_vec(strings(&["p", "q"])))) {
        WireEither::Tags(list) => assert_eq!(list, strings(&["p", "q"])),
        WireEither::All => panic!("a list was given"),
    }
}

#[test]
fn upload_call_becomes_a_message() {
    match upload_cheatsheet_msg(wire_image(0, 1), "vim".to_string(), Some(strings(&["a", "a"]))).unwrap() {
        Msg::UploadCheatsheet { image, name, tags } => {
            assert_eq!(image.order, ByteOrder::BE);
            assert_eq!(image.data, vec![1, 2]);
            assert_eq!(name, "vim");
            assert_eq!(tags.to_vec(), strings(&["a"]));
        }
        other => panic!("{other:?}"),
    }
    assert_eq!(
        upload_cheatsheet_msg(wire_image(7, 0), "vim".to_string(), None).err(),
        Some(Failure::InternalProtocol)
    );
    match upload_screenshot_msg(wire_image(0, 0), "shot".to_string()).unwrap() {
        Msg::UploadScreenshot { screenshot, name } => {
            assert_eq!(screenshot.width, 2);
            assert_eq!(name, "shot");
        }
        other => panic!("{other:?}"),
    }
    assert_eq!(
        upload_screenshot_msg(wire_image(0, 9), "shot".to_string()).err(),
        Some(Failure::InternalProtocol)
    );
}

#[test]
fn tag_calls_become_messages() {
    match add_cheatsheet_tags_msg("n".to_string(), Some(strings(&["a"]))) {
        Msg::AddCheatsheetTags { name, tags } => assert_eq!((name.as_str(), tags.to_vec()), ("n", strings(&["a"]))),
        other => panic!("{other:?}"),
    }
    match remove_cheatsheet_tags_msg("n".to_string(), Some(WireEither::All)) {
        Msg::RemoveCheatsheetTags { name, tags } => {
            assert_eq!(name, "n");
            assert!(matches!(tags, TagsEither::All));
        }
        other => panic!("{other:?}"),
    }
    match add_wm_class_tags_msg("w".to_string(), None) {
        Msg::AddWmClassTags { wm_class, tags } => assert!(wm_class == "w" && tags.is_empty()),
        other => panic!("{other:?}"),
    }
    match remove_wm_class_tags_msg("w".to_string(), Some(WireEither::Tags(strings(&["t"])))) {
        Msg::RemoveWmClassTags { wm_class, tags: TagsEither::Tags(set) } => {
            assert_eq!((wm_class.as_str(), set.to_vec()), ("w", strings(&["t"])))
        }
        other => panic!("{other:?}"),
    }
}
