use editor_platform::capture::frames::RgbaImage;
use editor_platform::clipboard::image::{
    keep_decoded_frames, single_frame, DecodeError, Image, ImageData, ImageFormat, ImageFrame,
};
use editor_platform::clipboard::item::{
    ClipboardEntry, ClipboardItem, ClipboardString, ExternalPaths,
};
use std::hash::{Hash, Hasher};

const FORMATS: [(ImageFormat, &str); 9] = [
    (ImageFormat::Png, "image/png"),
    (ImageFormat::Jpeg, "image/jpeg"),
    (ImageFormat::Webp, "image/webp"),
    (ImageFormat::Gif, "image/gif"),
    (ImageFormat::Svg, "image/svg+xml"),
    (ImageFormat::Bmp, "image/bmp"),
    (ImageFormat::Tiff, "image/tiff"),
    (ImageFormat::Ico, "image/ico"),
    (ImageFormat::Pnm, "image/x-portable-anymap"),
];

fn two_pixels() -> image::RgbaImage {
    image::RgbaImage::from_raw(2, 1, vec![255, 10, 20, 255, 30, 40, 50, 255]).expect("eight bytes")
}

fn written(format: image::ImageFormat) -> Vec<u8> {
    let mut bytes = std::io::Cursor::new(Vec::new());
    two_pixels().write_to(&mut bytes, format).expect("the image is written");
    bytes.into_inner()
}

fn paths(names: &[&str]) -> ClipboardEntry {
    ClipboardEntry::ExternalPaths(ExternalPaths(
        names.iter().map(|name| name.to_string()).collect(),
    ))
}

fn text(text: &str) -> ClipboardEntry {
    ClipboardEntry::from(text.to_string())
}

#[test]
fn media_types_lead_back() {
    for (format, mime_type) in FORMATS {
        assert_eq!(format.mime_type(), mime_type);
        assert_eq!(ImageFormat::from_mime_type(mime_type), Some(format));
    }
    assert_eq!(ImageFormat::from_mime_type("image/jpg"), Some(ImageFormat::Jpeg));
    assert_eq!(ImageFormat::from_mime_type("image/tif"), Some(ImageFormat::Tiff));
    assert_eq!(ImageFormat::from_mime_type("image/x-png"), None);
    assert_eq!(ImageFormat::from_mime_type(""), None);
}

#[test]
fn copied_text_is_pasted() {
    let item = ClipboardItem::new_string("hello".to_string());
    assert_eq!(item.text(), Some("hello".to_string()));
    assert_eq!(item.metadata(), None);
    assert_eq!(ClipboardItem::from("hello".to_string()).text(), item.text());
    assert_eq!(item.entries().len(), 1);
    assert_eq!(item.into_entries().len(), 1);
}

#[test]
fn pieces_of_text_are_joined() {
    let item = ClipboardItem { entries: vec![text("a"), paths(&["/tmp/x"]), text("bc")] };
    assert_eq!(item.text(), Some("abc".to_string()));
}

#[test]
fn empty_text_is_text() {
    assert_eq!(ClipboardItem { entries: vec![text("")] }.text(), Some(String::new()));
    assert_eq!(
        ClipboardItem { entries: vec![text(""), paths(&["/tmp/x", "/tmp/y"])] }.text(),
        Some(String::new())
    );
}

#[test]
fn other_entries_are_no_text() {
    assert_eq!(ClipboardItem::new_image(Image::empty()).text(), None);
    assert_eq!(ClipboardItem { entries: vec![paths(&["/tmp/x"])] }.text(), None);
    assert_eq!(ClipboardItem { entries: vec![] }.text(), None);
}

#[test]
fn notes_belong_to_one_piece_of_text() {
    let noted =
        ClipboardItem::new_string_with_metadata("text".to_string(), "note".to_string());
    assert_eq!(noted.metadata().map(String::as_str), Some("note"));
    let json =
        ClipboardItem::new_string_with_json_metadata("text".to_string(), "{\"a\":1}".to_string());
    assert_eq!(json.metadata().map(String::as_str), Some("{\"a\":1}"));
    let mut entries = noted.into_entries();
    entries.push(text("more"));
    assert_eq!(ClipboardItem { entries }.metadata(), None);
}

#[test]
fn strings_keep_text_and_notes() {
    let string = ClipboardString::new("text".to_string());
    assert_eq!(string.text(), "text");
    assert_eq!(string.metadata_json(), None);
    let noted = string.with_json_metadata("[1]".to_string());
    assert_eq!(noted.metadata_json().map(String::as_str), Some("[1]"));
    assert_eq!(noted.into_text(), "text");
}

#[test]
fn text_is_hashed_alike_everywhere() {
    let mut hasher = seahash::SeaHasher::new();
    "some text".hash(&mut hasher);
    assert_eq!(ClipboardString::text_hash("some text"), hasher.finish());
    assert_ne!(
        ClipboardString::text_hash("some text"),
        ClipboardString::text_hash("other text")
    );
}

#[test]
fn equal_bytes_share_a_number() {
    let png = Image::from_bytes(ImageFormat::Png, vec![1, 2, 3]);
    let gif = Image::from_bytes(ImageFormat::Gif, vec![1, 2, 3]);
    assert_eq!(png.id(), gif.id());
    assert_eq!(png.id(), seahash::hash(&[1, 2, 3]));
    assert_ne!(png.id(), Image::empty().id());
    assert_eq!(png.format(), ImageFormat::Png);
    assert_eq!(png.bytes(), &vec![1, 2, 3]);
    assert_eq!(Image::empty().format(), ImageFormat::Png);
}

#[test]
fn images_are_decoded_with_blue_before_red() {
    let lossless = [
        (ImageFormat::Png, image::ImageFormat::Png),
        (ImageFormat::Webp, image::ImageFormat::WebP),
        (ImageFormat::Bmp, image::ImageFormat::Bmp),
        (ImageFormat::Tiff, image::ImageFormat::Tiff),
        (ImageFormat::Ico, image::ImageFormat::Ico),
    ];
    for (format, written_as) in lossless {
        let image = Image::from_bytes(format, written(written_as));
        match image.to_image_data() {
            Ok(ImageData::Frames(drawn)) => {
                assert_eq!(drawn.frames.len(), 1);
                let frame = &drawn.frames[0];
                assert_eq!((frame.image.width, frame.image.height), (2, 1));
                assert_eq!(frame.image.data, vec![20, 10, 255, 255, 50, 40, 30, 255]);
                assert_eq!((frame.delay_numerator, frame.delay_denominator), (0, 1));
            }
            _ => panic!("the image decodes"),
        }
    }
}

#[test]
fn frames_of_an_animation_are_kept() {
    let mut bytes = Vec::new();
    {
        let mut encoder = image::codecs::gif::GifEncoder::new(&mut bytes);
        for _ in 0..2 {
            let delay = image::Delay::from_numer_denom_ms(100, 1);
            let frame = image::Frame::from_parts(two_pixels(), 0, 0, delay);
            encoder.encode_frame(frame).expect("the frame is written");
        }
    }
    match Image::from_bytes(ImageFormat::Gif, bytes.clone()).to_image_data() {
        Ok(ImageData::Frames(drawn)) => {
            assert_eq!(drawn.frames.len(), 2);
            assert_eq!(drawn.frames[0].delay_numerator, 100);
            assert_eq!(drawn.frames[0].delay_denominator, 1);
            assert_eq!(drawn.frames[1].image.data.len(), 8);
        }
        _ => panic!("the animation decodes"),
    }
    let header_only = bytes[..13].to_vec();
    match Image::from_bytes(ImageFormat::Gif, header_only).to_image_data() {
        Err(error) => assert!(matches!(
            error,
            DecodeError::AllFramesFailed | DecodeError::Malformed
        )),
        Ok(_) => panic!("there is no frame"),
    }
}

#[test]
fn malformed_images_are_refused() {
    for (format, _) in FORMATS {
        let image = Image::from_bytes(format, vec![0, 1, 2]);
        match format {
            ImageFormat::Svg => assert!(matches!(image.to_image_data(), Ok(ImageData::Vector))),
            _ => assert_eq!(image.to_image_data().err(), Some(DecodeError::Malformed)),
        }
    }
}

#[test]
fn animations_without_frames_are_refused() {
    let error = keep_decoded_frames(vec![]).err().expect("nothing is kept");
    assert_eq!(error, DecodeError::AllFramesFailed);
    assert!(error.message().is_some());
    assert_eq!(DecodeError::Malformed.message(), None);
    let image = RgbaImage { width: 1, height: 1, data: vec![1, 2, 3, 4] };
    let failed = image::ImageError::IoError(std::io::Error::other("broken"));
    let frame = ImageFrame { image, delay_numerator: 7, delay_denominator: 2 };
    let kept = keep_decoded_frames(vec![Err(failed), Ok(frame)]).ok().expect("one frame is kept");
    assert_eq!(kept.frames.len(), 1);
    assert_eq!(kept.frames[0].image.data, vec![3, 2, 1, 4]);
    assert_eq!(kept.frames[0].delay_numerator, 7);
}

#[test]
fn a_single_image_is_one_frame() {
    let drawn = single_frame(RgbaImage { width: 1, height: 1, data: vec![9, 8, 7, 6] });
    assert_eq!(drawn.frames.len(), 1);
    assert_eq!(drawn.frames[0].image.data, vec![7, 8, 9, 6]);
}
