//! What comes out of the clipboard, told by what went in.

use crate::clipboard::image as images;
use crate::clipboard::image::{
    DecodeError, Image, ImageData, ImageFormat, ImageFrame, StillFormat,
};
use crate::clipboard::item;
use crate::clipboard::item::{ClipboardEntry, ClipboardString};
use crate::laws::render;
use crate::render::resources;
use vstd::prelude::*;
use vstd::std_specs::convert::FromSpec;

verus! {

/// Every format of single images has the decoder of its own name, which no other
/// format has; animations and vector drawings have none of them.
pub proof fn law_every_format_has_its_own_decoder(format: ImageFormat, other: ImageFormat)
    ensures
        Image::still_format(format) == match format {
            ImageFormat::Png => Some(StillFormat::Png),
            ImageFormat::Jpeg => Some(StillFormat::Jpeg),
            ImageFormat::Webp => Some(StillFormat::Webp),
            ImageFormat::Gif => None,
            ImageFormat::Svg => None,
            ImageFormat::Bmp => Some(StillFormat::Bmp),
            ImageFormat::Tiff => Some(StillFormat::Tiff),
            ImageFormat::Ico => Some(StillFormat::Ico),
            ImageFormat::Pnm => Some(StillFormat::Pnm),
        },
        Image::still_format(format) is Some && Image::still_format(format) == Image::still_format(
            other,
        ) ==> format == other,
        Image::still_format(format) is None <==> format is Gif || format is Svg,
{
}

/// An image was decoded by the decoder of a format, or that decoder refused it.
pub open spec fn is_decoded_as(
    bytes: Seq<u8>,
    format: StillFormat,
    result: Result<ImageData, DecodeError>,
) -> bool {
    match images::decoded_image(bytes, format) {
        None => result == Err::<ImageData, DecodeError>(DecodeError::Malformed),
        Some(content) => {
            &&& result matches Ok(ImageData::Frames(image))
            &&& image.frames@.len() == 1
            &&& image.frames@[0].image.width == content.0
            &&& image.frames@[0].image.height == content.1
            &&& image.frames@[0].image.data@.len() == content.2.len()
            &&& is_drawn_from(image.frames@[0].image.data@, content.2)
            &&& image.frames@[0].delay_numerator == 0
            &&& image.frames@[0].delay_denominator == 1
        },
    }
}

/// Every pixel has its first and its third byte in each other's place, and the others
/// in their own.
pub open spec fn is_drawn_from(drawn: Seq<u8>, pixels: Seq<u8>) -> bool {
    forall|pixel: int|
        #![trigger is_pixel(pixels, pixel)]
        is_pixel(pixels, pixel) ==> {
            &&& drawn[4 * pixel] == pixels[4 * pixel + 2]
            &&& drawn[4 * pixel + 1] == pixels[4 * pixel + 1]
            &&& drawn[4 * pixel + 2] == pixels[4 * pixel]
            &&& drawn[4 * pixel + 3] == pixels[4 * pixel + 3]
        }
}

/// There are four bytes for a pixel.
pub open spec fn is_pixel(pixels: Seq<u8>, pixel: int) -> bool {
    0 <= pixel && 4 * pixel + 3 < pixels.len()
}

/// What is drawn of pixels has each of them, with red and blue in each other's place.
pub proof fn law_drawn_pixels(pixels: Seq<u8>)
    ensures
        resources::with_red_and_blue_swapped(pixels).len() == pixels.len(),
        is_drawn_from(resources::with_red_and_blue_swapped(pixels), pixels),
{
    let drawn = resources::with_red_and_blue_swapped(pixels);
    assert forall|pixel: int| is_pixel(pixels, pixel) implies {
        &&& drawn[4 * pixel] == pixels[4 * pixel + 2]
        &&& drawn[4 * pixel + 1] == pixels[4 * pixel + 1]
        &&& drawn[4 * pixel + 2] == pixels[4 * pixel]
        &&& drawn[4 * pixel + 3] == pixels[4 * pixel + 3]
    } by {
        render::law_red_and_blue_change_places(pixels, pixel);
    }
}

/// A decoded frame is kept behind those that came before it, with its sides and its
/// delay, and with red and blue in each other's place. One that could not be decoded
/// leaves no trace.
pub proof fn law_frames_are_kept_in_order(
    contents: Seq<Option<(u32, u32, Seq<u8>, u32, u32)>>,
    content: (u32, u32, Seq<u8>, u32, u32),
)
    ensures
        images::drawn_frames(Seq::empty()).len() == 0,
        images::drawn_frames(contents.push(None)) == images::drawn_frames(contents),
        ({
            let kept = images::drawn_frames(contents.push(Some(content)));
            &&& kept.len() == images::drawn_frames(contents).len() + 1
            &&& kept.drop_last() == images::drawn_frames(contents)
            &&& kept.last().0 == content.0
            &&& kept.last().1 == content.1
            &&& kept.last().2.len() == content.2.len()
            &&& is_drawn_from(kept.last().2, content.2)
            &&& kept.last().3 == content.3
            &&& kept.last().4 == content.4
        }),
{
    assert(contents.push(None).drop_last() =~= contents);
    assert(contents.push(Some(content)).drop_last() =~= contents);
    let kept = images::drawn_frames(contents.push(Some(content)));
    assert(kept.drop_last() =~= images::drawn_frames(contents));
    law_drawn_pixels(content.2);
}

/// The frames of an animation are those that the decoder gives, one after the other,
/// until it gives no more or as many as there are bytes.
pub proof fn law_animations_are_walked_to_the_end(bytes: Seq<u8>)
    ensures
        match images::decoded_frames(bytes) {
            None => !images::starts_animation(bytes),
            Some(frames) => {
                &&& images::starts_animation(bytes)
                &&& frames.len() <= bytes.len()
                &&& forall|index: nat|
                    index < frames.len() ==> #[trigger] images::frame_after(bytes, index) == Some(
                        frames[index as int],
                    )
                &&& frames.len() < bytes.len() ==> images::frame_after(bytes, frames.len()) is None
            },
        },
{
    lemma_walk(bytes, bytes.len());
}

proof fn lemma_walk(bytes: Seq<u8>, count: nat)
    ensures
        ({
            let frames = images::first_frames(bytes, count);
            &&& frames.len() <= count
            &&& forall|index: nat|
                index < frames.len() ==> #[trigger] images::frame_after(bytes, index) == Some(
                    frames[index as int],
                )
            &&& frames.len() < count ==> images::frame_after(bytes, frames.len()) is None
        }),
    decreases count,
{
    if count > 0 {
        lemma_walk(bytes, (count - 1) as nat);
    }
}

/// Media types name their formats: each format has its own, two have a shorter one
/// besides, and no other text stands for a format.
pub proof fn law_media_types_name_their_formats(mime_type: Seq<char>)
    ensures
        ImageFormat::Png.spec_mime_type() == "image/png"@,
        ImageFormat::Jpeg.spec_mime_type() == "image/jpeg"@,
        ImageFormat::Webp.spec_mime_type() == "image/webp"@,
        ImageFormat::Gif.spec_mime_type() == "image/gif"@,
        ImageFormat::Svg.spec_mime_type() == "image/svg+xml"@,
        ImageFormat::Bmp.spec_mime_type() == "image/bmp"@,
        ImageFormat::Tiff.spec_mime_type() == "image/tiff"@,
        ImageFormat::Ico.spec_mime_type() == "image/ico"@,
        ImageFormat::Pnm.spec_mime_type() == "image/x-portable-anymap"@,
        images::format_of("image/jpg"@) == Some(ImageFormat::Jpeg),
        images::format_of("image/tif"@) == Some(ImageFormat::Tiff),
        images::format_of(mime_type) matches Some(format) ==> mime_type == format.spec_mime_type() || (
        mime_type == "image/jpg"@ && format is Jpeg) || (mime_type == "image/tif"@
            && format is Tiff),
{
    reveal_strlit("image/png");
    reveal_strlit("image/jpg");
    reveal_strlit("image/tif");
    reveal_strlit("image/jpeg");
    reveal_strlit("image/webp");
    reveal_strlit("image/gif");
    reveal_strlit("image/svg+xml");
    reveal_strlit("image/bmp");
    reveal_strlit("image/tiff");
    reveal_strlit("image/ico");
    reveal_strlit("image/x-portable-anymap");
    assert("image/jpg"@[6] == 'j' && "image/tif"@[6] == 't' && "image/png"@[6] == 'p');
    assert("image/gif"@[6] == 'g' && "image/bmp"@[6] == 'b' && "image/ico"@[6] == 'i');
}

/// The text of an entry is pasted behind that of the entries before it.
pub proof fn law_texts_are_pasted_in_order(
    entries: Seq<ClipboardEntry>,
    string: ClipboardString,
)
    ensures
        item::pasted_text(Seq::empty()) is None,
        item::pasted_text(entries.push(ClipboardEntry::String(string))) == match item::pasted_text(
            entries,
        ) {
            Some(before) => Some(before + string.text@),
            None => Some(string.text@),
        },
{
    let more = entries.push(ClipboardEntry::String(string));
    assert(more.drop_last() =~= entries);
    assert(more[entries.len() as int] is String);
    if !item::has_text(entries) {
        lemma_no_text(entries);
        assert(item::text_of(more) =~= string.text@);
    }
}

proof fn lemma_no_text(entries: Seq<ClipboardEntry>)
    requires
        !item::has_text(entries),
    ensures
        item::text_of(entries).len() == 0,
    decreases entries.len(),
{
    if entries.len() > 0 {
        let fewer = entries.drop_last();
        if item::has_text(fewer) {
            let place = choose|place: int|
                0 <= place < fewer.len() && (#[trigger] fewer[place]) is String;
            assert(entries[place] is String);
        }
        lemma_no_text(fewer);
        assert(entries[entries.len() - 1] == entries.last());
    }
}

/// What is hashed of a text is its bytes and a last one that no text has.
pub proof fn law_hashed_texts_are_ended(text: Seq<char>)
    ensures
        item::hashed_bytes(text).len() == vstd::utf8::encode_utf8(text).len() + 1,
        item::hashed_bytes(text).last() == 255,
        item::hashed_bytes(text).drop_last() == vstd::utf8::encode_utf8(text),
{
    assert(item::hashed_bytes(text).drop_last() =~= vstd::utf8::encode_utf8(text));
}

/// A frame holds what was decoded: its sides, its pixels and its delay, each in its own
/// place; a frame that failed holds nothing.
pub proof fn law_frames_hold_what_was_decoded(
    frame: ImageFrame,
    content: (u32, u32, Seq<u8>, u32, u32),
    frames: Seq<ImageFrame>,
    contents: Seq<(u32, u32, Seq<u8>, u32, u32)>,
    place: int,
    result: Result<ImageFrame, image::ImageError>,
)
    ensures
        images::frame_holds(frame, content) ==> {
            &&& frame.image.width == content.0
            &&& frame.image.height == content.1
            &&& frame.image.data@ == content.2
            &&& frame.delay_numerator == content.3
            &&& frame.delay_denominator == content.4
        },
        images::frames_hold(frames, contents) ==> frames.len() == contents.len() && (0 <= place
            < frames.len() ==> images::frame_holds(frames[place], contents[place])),
        images::frame_agrees(result, Some(content)) ==> (result matches Ok(frame)
            && images::frame_holds(frame, content)),
        images::frame_agrees(result, None) ==> result is Err,
        result matches Ok(frame) ==> (images::content_of(result) matches Some(content)
            && images::frame_holds(frame, content)),
        result is Err ==> images::content_of(result) is None,
{
}

/// Text, images and entries become what they are said to be.
pub proof fn law_values_become_entries(
    text: String,
    string: ClipboardString,
    image: Image,
)
    ensures
        <ClipboardString as FromSpec<String>>::from_spec(text).text == text,
        <ClipboardString as FromSpec<String>>::from_spec(text).metadata is None,
        <ClipboardEntry as FromSpec<ClipboardString>>::from_spec(string)
            == ClipboardEntry::String(string),
        <ClipboardEntry as FromSpec<String>>::from_spec(text) == ClipboardEntry::String(
            <ClipboardString as FromSpec<String>>::from_spec(text),
        ),
        <ClipboardEntry as FromSpec<Image>>::from_spec(image) == ClipboardEntry::Image(image),
{
}

} // verus!
