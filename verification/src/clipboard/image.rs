//! Images on the clipboard: their formats, and what is decoded from them.

use crate::capture::frames::RgbaImage;
use crate::laws;
use crate::render::resources;
use crate::render::resources::swap_red_and_blue;
use crate::text::{chars_of, is_text};
use image::AnimationDecoder;
use vstd::prelude::*;

verus! {

/// A format that images come in, the likeliest first.
#[derive(Clone, Copy, Debug, PartialEq, Eq, Hash, Structural)]
pub enum ImageFormat {
    Png,
    Jpeg,
    Webp,
    Gif,
    Svg,
    Bmp,
    Tiff,
    Ico,
    Pnm,
}

/// The format that a media type stands for.
pub open spec fn format_of(mime_type: Seq<char>) -> Option<ImageFormat> {
    if mime_type == "image/png"@ {
        Some(ImageFormat::Png)
    } else if mime_type == "image/jpeg"@ || mime_type == "image/jpg"@ {
        Some(ImageFormat::Jpeg)
    } else if mime_type == "image/webp"@ {
        Some(ImageFormat::Webp)
    } else if mime_type == "image/gif"@ {
        Some(ImageFormat::Gif)
    } else if mime_type == "image/svg+xml"@ {
        Some(ImageFormat::Svg)
    } else if mime_type == "image/bmp"@ {
        Some(ImageFormat::Bmp)
    } else if mime_type == "image/tiff"@ || mime_type == "image/tif"@ {
        Some(ImageFormat::Tiff)
    } else if mime_type == "image/ico"@ {
        Some(ImageFormat::Ico)
    } else if mime_type == "image/x-portable-anymap"@ {
        Some(ImageFormat::Pnm)
    } else {
        None
    }
}

impl ImageFormat {
    /// The media type of the format.
    pub open spec fn spec_mime_type(self) -> Seq<char> {
        match self {
            ImageFormat::Png => "image/png"@,
            ImageFormat::Jpeg => "image/jpeg"@,
            ImageFormat::Webp => "image/webp"@,
            ImageFormat::Gif => "image/gif"@,
            ImageFormat::Svg => "image/svg+xml"@,
            ImageFormat::Bmp => "image/bmp"@,
            ImageFormat::Tiff => "image/tiff"@,
            ImageFormat::Ico => "image/ico"@,
            ImageFormat::Pnm => "image/x-portable-anymap"@,
        }
    }

    /// The media type of the format.
    pub fn mime_type(self) -> (mime_type: &'static str)
        ensures
            mime_type@ == self.spec_mime_type(),
    {
        match self {
            ImageFormat::Png => "image/png",
            ImageFormat::Jpeg => "image/jpeg",
            ImageFormat::Webp => "image/webp",
            ImageFormat::Gif => "image/gif",
            ImageFormat::Svg => "image/svg+xml",
            ImageFormat::Bmp => "image/bmp",
            ImageFormat::Tiff => "image/tiff",
            ImageFormat::Ico => "image/ico",
            ImageFormat::Pnm => "image/x-portable-anymap",
        }
    }

    /// The format that a media type stands for: that of the format, or one of the
    /// shortened ones that are met with.
    pub fn from_mime_type(mime_type: &str) -> (format: Option<ImageFormat>)
        ensures
            format == format_of(mime_type@),
    {
        let chars: Vec<char> = chars_of(mime_type);
        if is_text(&chars, "image/png") {
            Some(ImageFormat::Png)
        } else if is_text(&chars, "image/jpeg") || is_text(&chars, "image/jpg") {
            Some(ImageFormat::Jpeg)
        } else if is_text(&chars, "image/webp") {
            Some(ImageFormat::Webp)
        } else if is_text(&chars, "image/gif") {
            Some(ImageFormat::Gif)
        } else if is_text(&chars, "image/svg+xml") {
            Some(ImageFormat::Svg)
        } else if is_text(&chars, "image/bmp") {
            Some(ImageFormat::Bmp)
        } else if is_text(&chars, "image/tiff") || is_text(&chars, "image/tif") {
            Some(ImageFormat::Tiff)
        } else if is_text(&chars, "image/ico") {
            Some(ImageFormat::Ico)
        } else if is_text(&chars, "image/x-portable-anymap") {
            Some(ImageFormat::Pnm)
        } else {
            None
        }
    }
}

proof fn lemma_media_types_differ()
    ensures
        "image/png"@.len() == 9,
        "image/png"@[6] == 'p',
        "image/jpeg"@.len() == 10,
        "image/jpeg"@[6] == 'j',
        "image/jpg"@.len() == 9,
        "image/jpg"@[6] == 'j',
        "image/webp"@.len() == 10,
        "image/webp"@[6] == 'w',
        "image/gif"@.len() == 9,
        "image/gif"@[6] == 'g',
        "image/svg+xml"@.len() == 13,
        "image/bmp"@.len() == 9,
        "image/bmp"@[6] == 'b',
        "image/tiff"@.len() == 10,
        "image/tiff"@[6] == 't',
        "image/tif"@.len() == 9,
        "image/tif"@[6] == 't',
        "image/ico"@.len() == 9,
        "image/ico"@[6] == 'i',
        "image/x-portable-anymap"@.len() == 23,
{
    reveal_strlit("image/png");
    reveal_strlit("image/jpeg");
    reveal_strlit("image/jpg");
    reveal_strlit("image/webp");
    reveal_strlit("image/gif");
    reveal_strlit("image/svg+xml");
    reveal_strlit("image/bmp");
    reveal_strlit("image/tiff");
    reveal_strlit("image/tif");
    reveal_strlit("image/ico");
    reveal_strlit("image/x-portable-anymap");
}

/// The media type of a format stands for that format.
pub proof fn law_media_types_lead_back(format: ImageFormat)
    ensures
        format_of(format.spec_mime_type()) == Some(format),
{
    lemma_media_types_differ();
}

/// The formats of single images.
#[derive(Clone, Copy, Debug, PartialEq, Eq, Structural)]
pub enum StillFormat {
    Png,
    Jpeg,
    Webp,
    Bmp,
    Tiff,
    Ico,
    Pnm,
}

/// An error of the decoders.
#[verifier::external_type_specification]
#[verifier::external_body]
pub struct ExternalImageError(image::ImageError);

/// What the decoder of a format makes of some bytes: the sides of the image and its
/// pixels, if it is one.
pub uninterp spec fn decoded_image(bytes: Seq<u8>, format: StillFormat) -> Option<
    (u32, u32, Seq<u8>),
>;

/// An image has these sides and pixels.
pub open spec fn holds(image: RgbaImage, content: (u32, u32, Seq<u8>)) -> bool {
    image.width == content.0 && image.height == content.1 && image.data@ == content.2
}

/// `image::load_from_memory_with_format` decodes bytes by the format that is named,
/// and `DynamicImage::into_rgba8` writes each pixel as four bytes. What comes out
/// depends on the bytes and the format alone; which images decode and to which pixels
/// is left to the decoders.
#[verifier::external_body]
fn load_image(bytes: &Vec<u8>, format: StillFormat) -> (result: Result<RgbaImage, image::ImageError>)
    ensures
        match decoded_image(bytes@, format) {
            Some(content) => result matches Ok(image) && holds(image, content),
            None => result is Err,
        },
{
    let format = match format {
        StillFormat::Png => image::ImageFormat::Png,
        StillFormat::Jpeg => image::ImageFormat::Jpeg,
        StillFormat::Webp => image::ImageFormat::WebP,
        StillFormat::Bmp => image::ImageFormat::Bmp,
        StillFormat::Tiff => image::ImageFormat::Tiff,
        StillFormat::Ico => image::ImageFormat::Ico,
        StillFormat::Pnm => image::ImageFormat::Pnm,
    };
    let pixels = image::load_from_memory_with_format(bytes, format)?.into_rgba8();
    Ok(RgbaImage { width: pixels.width(), height: pixels.height(), data: pixels.into_raw() })
}

/// A frame of an image, with how long it is shown: some parts of a millisecond.
pub struct ImageFrame {
    pub image: RgbaImage,
    pub delay_numerator: u32,
    pub delay_denominator: u32,
}

/// The frames of an animation that are still to be walked.
#[verifier::external_type_specification]
#[verifier::external_body]
pub struct ExternalFrames<'a>(image::Frames<'a>);

/// A frame as the decoders hand it out.
#[verifier::external_type_specification]
#[verifier::external_body]
pub struct ExternalFrame(image::Frame);

/// The bytes that frames are decoded from, and how many frames were walked already.
pub uninterp spec fn walk_of(frames: image::Frames) -> (Seq<u8>, nat);

/// Whether `GifDecoder::new` takes some bytes for the start of an animation.
pub uninterp spec fn starts_animation(bytes: Seq<u8>) -> bool;

/// What `Frames::next` gives for the bytes of an animation once a number of frames
/// were walked: a frame, a frame that could not be decoded, or the end.
pub uninterp spec fn frame_after(bytes: Seq<u8>, walked: nat) -> Option<
    Option<(u32, u32, Seq<u8>, u32, u32)>,
>;

/// The frames, decoded or not, that come before the end or before a number of them
/// were walked.
pub open spec fn first_frames(bytes: Seq<u8>, count: nat) -> Seq<
    Option<(u32, u32, Seq<u8>, u32, u32)>,
>
    decreases count,
{
    if count == 0 {
        Seq::empty()
    } else {
        let before = first_frames(bytes, (count - 1) as nat);
        match frame_after(bytes, (count - 1) as nat) {
            Some(frame) if before.len() == count - 1 => before.push(frame),
            _ => before,
        }
    }
}

/// What is decoded of the bytes of an animation: nothing where it does not start, else
/// each frame that is come to, or that it could not be decoded. No more frames are
/// walked than there are bytes, since each takes up at least one, and a frame that
/// fails may be followed by others that fail, without end.
pub open spec fn decoded_frames(bytes: Seq<u8>) -> Option<
    Seq<Option<(u32, u32, Seq<u8>, u32, u32)>>,
> {
    if starts_animation(bytes) {
        Some(first_frames(bytes, bytes.len()))
    } else {
        None
    }
}

/// A frame has these sides, pixels and this delay.
pub open spec fn frame_holds(frame: ImageFrame, content: (u32, u32, Seq<u8>, u32, u32)) -> bool {
    &&& holds(frame.image, (content.0, content.1, content.2))
    &&& frame.delay_numerator == content.3
    &&& frame.delay_denominator == content.4
}

/// A frame came out as it should, or failed as it should.
pub open spec fn frame_agrees(
    frame: Result<ImageFrame, image::ImageError>,
    content: Option<(u32, u32, Seq<u8>, u32, u32)>,
) -> bool {
    match content {
        Some(content) => frame matches Ok(frame) && frame_holds(frame, content),
        None => frame is Err,
    }
}

/// `GifDecoder::new` reads the start of an animation, and `AnimationDecoder::into_frames`
/// stands before its first frame. Whether the bytes are taken for an animation depends
/// on them alone.
#[verifier::external_body]
fn open_animation<'a>(bytes: &'a Vec<u8>) -> (result: Result<image::Frames<'a>, image::ImageError>)
    ensures
        match result {
            Ok(frames) => starts_animation(bytes@) && walk_of(frames) == (bytes@, 0nat),
            Err(_) => !starts_animation(bytes@),
        },
{
    Ok(image::codecs::gif::GifDecoder::new(std::io::Cursor::new(bytes))?.into_frames())
}

/// `Frames::next` decodes the next frame of an animation, with its pixels, its sides
/// and its delay. What comes out depends on the bytes and on how many frames were
/// walked alone.
#[verifier::external_body]
fn next_frame(frames: &mut image::Frames) -> (next: Option<Result<ImageFrame, image::ImageError>>)
    ensures
        walk_of(*final(frames)) == (walk_of(*old(frames)).0, walk_of(*old(frames)).1 + 1),
        match frame_after(walk_of(*old(frames)).0, walk_of(*old(frames)).1) {
            Some(content) => next matches Some(frame) && frame_agrees(frame, content),
            None => next is None,
        },
{
    frames.next().map(|frame| frame.map(|frame| {
        let (delay_numerator, delay_denominator) = frame.delay().numer_denom_ms();
        let pixels = frame.into_buffer();
        let (width, height) = pixels.dimensions();
        let image = RgbaImage { width, height, data: pixels.into_raw() };
        ImageFrame { image, delay_numerator, delay_denominator }
    }))
}

/// Walks the frames of an animation, whether they can be decoded or not.
fn load_frames(bytes: &Vec<u8>) -> (result: Result<
    Vec<Result<ImageFrame, image::ImageError>>,
    image::ImageError,
>)
    ensures
        match decoded_frames(bytes@) {
            Some(contents) => result matches Ok(frames) && frames@.len() == contents.len()
                && forall|index: int|
                0 <= index < contents.len() ==> frame_agrees(
                    #[trigger] frames@[index],
                    contents[index],
                ),
            None => result is Err,
        },
{
    let mut walk: image::Frames = match open_animation(bytes) {
        Ok(walk) => walk,
        Err(error) => {
            return Err(error);
        },
    };
    let mut frames: Vec<Result<ImageFrame, image::ImageError>> = Vec::new();
    let count: usize = bytes.len();
    let mut place: usize = 0;
    while place < count
        invariant
            place <= count,
            count == bytes@.len(),
            starts_animation(bytes@),
            walk_of(walk) == (bytes@, place as nat),
            frames@.len() == place,
            first_frames(bytes@, place as nat).len() == place,
            forall|index: int|
                0 <= index < place ==> frame_agrees(
                    #[trigger] frames@[index],
                    first_frames(bytes@, place as nat)[index],
                ),
        decreases count - place,
    {
        match next_frame(&mut walk) {
            Some(frame) => {
                frames.push(frame);
            },
            None => {
                proof {
                    lemma_frames_end(bytes@, place as nat, count as nat);
                }
                return Ok(frames);
            },
        }
        place = place + 1;
    }
    Ok(frames)
}

proof fn lemma_frames_end(bytes: Seq<u8>, place: nat, count: nat)
    requires
        place < count,
        first_frames(bytes, place).len() == place,
        frame_after(bytes, place) is None,
    ensures
        first_frames(bytes, count) == first_frames(bytes, place),
    decreases count,
{
    if count > place + 1 {
        lemma_frames_end(bytes, place, (count - 1) as nat);
    }
}

/// What `seahash::hash` makes of some bytes.
pub uninterp spec fn hash_of_bytes(bytes: Seq<u8>) -> u64;

/// `seahash::hash` hashes bytes under a fixed seed, alike on every machine. Nothing
/// more is said of it than that it depends on the bytes alone.
#[verifier::external_body]
pub(crate) fn hash_bytes(bytes: &Vec<u8>) -> (hash: u64)
    ensures
        hash == hash_of_bytes(bytes@),
{
    seahash::hash(bytes)
}

/// Why an image could not be decoded.
#[derive(Clone, Copy, Debug, PartialEq, Eq, Structural)]
pub enum DecodeError {
    /// The bytes are not an image of the format.
    Malformed,
    /// None of the frames could be decoded.
    AllFramesFailed,
}

impl DecodeError {
    /// What is said about the image, unless the decoder has said it.
    pub fn message(&self) -> (message: Option<&'static str>)
        ensures
            match self {
                DecodeError::Malformed => message is None,
                DecodeError::AllFramesFailed => message matches Some(message) && message@
                    == "GIF could not be decoded: all frames failed"@,
            },
    {
        match self {
            DecodeError::Malformed => None,
            DecodeError::AllFramesFailed => Some("GIF could not be decoded: all frames failed"),
        }
    }
}

/// An image that can be drawn: its frames, with blue before red.
pub struct RenderImage {
    pub frames: Vec<ImageFrame>,
}

/// What an image is drawn from.
pub enum ImageData {
    Frames(RenderImage),
    /// A vector drawing, which is drawn at its own size first.
    Vector,
}

/// A frame with blue before red.
pub open spec fn drawn(content: (u32, u32, Seq<u8>, u32, u32)) -> (u32, u32, Seq<u8>, u32, u32) {
    (
        content.0,
        content.1,
        resources::with_red_and_blue_swapped(content.2),
        content.3,
        content.4,
    )
}

/// The frames that were decoded, with blue before red.
pub open spec fn drawn_frames(contents: Seq<Option<(u32, u32, Seq<u8>, u32, u32)>>) -> Seq<
    (u32, u32, Seq<u8>, u32, u32),
>
    decreases contents.len(),
{
    if contents.len() == 0 {
        Seq::empty()
    } else {
        let before = drawn_frames(contents.drop_last());
        match contents.last() {
            Some(content) => before.push(drawn(content)),
            None => before,
        }
    }
}

/// Frames have these contents.
pub open spec fn frames_hold(
    frames: Seq<ImageFrame>,
    contents: Seq<(u32, u32, Seq<u8>, u32, u32)>,
) -> bool {
    &&& frames.len() == contents.len()
    &&& forall|index: int|
        0 <= index < frames.len() ==> frame_holds(#[trigger] frames[index], contents[index])
}

/// The content of a frame that came out, none where it failed.
pub open spec fn content_of(frame: Result<ImageFrame, image::ImageError>) -> Option<
    (u32, u32, Seq<u8>, u32, u32),
> {
    match frame {
        Ok(frame) => Some(
            (
                frame.image.width,
                frame.image.height,
                frame.image.data@,
                frame.delay_numerator,
                frame.delay_denominator,
            ),
        ),
        Err(_) => None,
    }
}

/// Keeps the frames that were decoded, with blue before red. An animation without any
/// is none.
pub fn keep_decoded_frames(frames: Vec<Result<ImageFrame, image::ImageError>>) -> (result: Result<
    RenderImage,
    DecodeError,
>)
    ensures
        ({
            let contents = frames@.map_values(
                |frame: Result<ImageFrame, image::ImageError>| content_of(frame),
            );
            let kept = drawn_frames(contents);
            match result {
                Ok(image) => kept.len() > 0 && frames_hold(image.frames@, kept),
                Err(error) => kept.len() == 0 && error == DecodeError::AllFramesFailed,
            }
        }),
{
    let ghost contents = frames@.map_values(
        |frame: Result<ImageFrame, image::ImageError>| content_of(frame),
    );
    let mut kept: Vec<ImageFrame> = Vec::new();
    let count: usize = frames.len();
    let mut left: Vec<Result<ImageFrame, image::ImageError>> = frames;
    let mut index: usize = 0;
    assert(contents.take(0) =~= Seq::empty());
    while index < count
        invariant
            index <= count,
            count == contents.len(),
            left@.len() == count - index,
            forall|place: int|
                0 <= place < left@.len() ==> content_of(#[trigger] left@[place]) == contents[index
                    + place],
            frames_hold(kept@, drawn_frames(contents.take(index as int))),
        decreases count - index,
    {
        let ghost next = contents.take(index + 1);
        assert(next.drop_last() =~= contents.take(index as int));
        let frame: Result<ImageFrame, image::ImageError> = left.remove(0);
        assert(content_of(frame) == contents[index as int]);
        match frame {
            Ok(mut decoded) => {
                swap_red_and_blue(&mut decoded.image.data);
                kept.push(decoded);
            },
            Err(_) => {},
        }
        index = index + 1;
    }
    assert(contents.take(index as int) =~= contents);
    if kept.len() == 0 {
        Err(DecodeError::AllFramesFailed)
    } else {
        Ok(RenderImage { frames: kept })
    }
}

/// A single image as the one frame of an image that can be drawn, with blue before
/// red.
pub fn single_frame(image: RgbaImage) -> (drawn: RenderImage)
    ensures
        drawn.frames@.len() == 1,
        drawn.frames@[0].image.width == image.width,
        drawn.frames@[0].image.height == image.height,
        drawn.frames@[0].image.data@ == resources::with_red_and_blue_swapped(image.data@),
        drawn.frames@[0].delay_numerator == 0,
        drawn.frames@[0].delay_denominator == 1,
{
    let mut image: RgbaImage = image;
    swap_red_and_blue(&mut image.data);
    let mut frames: Vec<ImageFrame> = Vec::new();
    frames.push(ImageFrame { image, delay_numerator: 0, delay_denominator: 1 });
    RenderImage { frames }
}

/// An image: its bytes in a format, known by a number.
#[derive(Clone, Debug, PartialEq, Eq)]
pub struct Image {
    pub format: ImageFormat,
    pub bytes: Vec<u8>,
    pub id: u64,
}

impl Image {
    /// The format of a single image, none for an animation or a vector drawing.
    pub open spec fn still_format(format: ImageFormat) -> Option<StillFormat> {
        match format {
            ImageFormat::Png => Some(StillFormat::Png),
            ImageFormat::Jpeg => Some(StillFormat::Jpeg),
            ImageFormat::Webp => Some(StillFormat::Webp),
            ImageFormat::Bmp => Some(StillFormat::Bmp),
            ImageFormat::Tiff => Some(StillFormat::Tiff),
            ImageFormat::Ico => Some(StillFormat::Ico),
            ImageFormat::Pnm => Some(StillFormat::Pnm),
            ImageFormat::Gif | ImageFormat::Svg => None,
        }
    }

    /// An image without bytes.
    pub fn empty() -> (image: Self)
        ensures
            image.format == ImageFormat::Png,
            image.bytes@ == Seq::<u8>::empty(),
            image.id == hash_of_bytes(Seq::<u8>::empty()),
    {
        let image: Image = Image::from_bytes(ImageFormat::Png, Vec::new());
        assert(image.bytes@ =~= Seq::<u8>::empty());
        image
    }

    /// An image of some bytes, which its number comes from.
    pub fn from_bytes(format: ImageFormat, bytes: Vec<u8>) -> (image: Self)
        ensures
            image.format == format,
            image.bytes@ == bytes@,
            image.id == hash_of_bytes(bytes@),
    {
        let id: u64 = hash_bytes(&bytes);
        Image { format, bytes, id }
    }

    /// The number that the image is known by.
    pub fn id(&self) -> (id: u64)
        ensures
            id == self.id,
    {
        self.id
    }

    /// The format of the image.
    pub fn format(&self) -> (format: ImageFormat)
        ensures
            format == self.format,
    {
        self.format
    }

    /// The bytes of the image.
    pub fn bytes(&self) -> (bytes: &Vec<u8>)
        ensures
            bytes@ == self.bytes@,
    {
        &self.bytes
    }

    /// What the image is drawn from: the frames of an animation that can be decoded,
    /// the one frame of any other image, with blue before red, or that it is a vector
    /// drawing.
    pub fn to_image_data(&self) -> (result: Result<ImageData, DecodeError>)
        ensures
            match self.format {
                ImageFormat::Svg => result matches Ok(ImageData::Vector),
                ImageFormat::Gif => match decoded_frames(self.bytes@) {
                    None => result == Err::<ImageData, DecodeError>(DecodeError::Malformed),
                    Some(contents) => if drawn_frames(contents).len() == 0 {
                        result == Err::<ImageData, DecodeError>(DecodeError::AllFramesFailed)
                    } else {
                        result matches Ok(ImageData::Frames(image)) && frames_hold(
                            image.frames@,
                            drawn_frames(contents),
                        )
                    },
                },
                _ => match decoded_image(self.bytes@, Image::still_format(self.format)->0) {
                    None => result == Err::<ImageData, DecodeError>(DecodeError::Malformed),
                    Some(content) => result matches Ok(ImageData::Frames(image)) && frames_hold(
                        image.frames@,
                        seq![drawn((content.0, content.1, content.2, 0, 1))],
                    ),
                },
            },
            match self.format {
                ImageFormat::Png => laws::clipboard::is_decoded_as(self.bytes@, StillFormat::Png, result),
                ImageFormat::Jpeg => laws::clipboard::is_decoded_as(self.bytes@, StillFormat::Jpeg, result),
                ImageFormat::Webp => laws::clipboard::is_decoded_as(self.bytes@, StillFormat::Webp, result),
                ImageFormat::Bmp => laws::clipboard::is_decoded_as(self.bytes@, StillFormat::Bmp, result),
                ImageFormat::Tiff => laws::clipboard::is_decoded_as(self.bytes@, StillFormat::Tiff, result),
                ImageFormat::Ico => laws::clipboard::is_decoded_as(self.bytes@, StillFormat::Ico, result),
                ImageFormat::Pnm => laws::clipboard::is_decoded_as(self.bytes@, StillFormat::Pnm, result),
                ImageFormat::Gif | ImageFormat::Svg => true,
            },
    {
        let format: StillFormat = match self.format {
            ImageFormat::Svg => {
                return Ok(ImageData::Vector);
            },
            ImageFormat::Gif => {
                return match load_frames(&self.bytes) {
                    Err(_) => Err(DecodeError::Malformed),
                    Ok(frames) => {
                        proof {
                            let contents = decoded_frames(self.bytes@)->0;
                            assert(frames@.map_values(
                                |frame: Result<ImageFrame, image::ImageError>| content_of(frame),
                            ) =~= contents);
                        }
                        match keep_decoded_frames(frames) {
                            Ok(image) => Ok(ImageData::Frames(image)),
                            Err(error) => Err(error),
                        }
                    },
                };
            },
            ImageFormat::Png => StillFormat::Png,
            ImageFormat::Jpeg => StillFormat::Jpeg,
            ImageFormat::Webp => StillFormat::Webp,
            ImageFormat::Bmp => StillFormat::Bmp,
            ImageFormat::Tiff => StillFormat::Tiff,
            ImageFormat::Ico => StillFormat::Ico,
            ImageFormat::Pnm => StillFormat::Pnm,
        };
        match load_image(&self.bytes, format) {
            Ok(image) => {
                proof {
                    laws::clipboard::law_drawn_pixels(image.data@);
                }
                Ok(ImageData::Frames(single_frame(image)))
            },
            Err(_) => Err(DecodeError::Malformed),
        }
    }
}

/// Images of the same bytes are known by the same number, whatever their formats.
pub proof fn law_equal_bytes_share_a_number(left: Image, right: Image)
    requires
        left.id == hash_of_bytes(left.bytes@),
        right.id == hash_of_bytes(right.bytes@),
        left.bytes@ == right.bytes@,
    ensures
        left.id == right.id,
{
}

/// Every frame that was decoded is kept, and no other, in the order in which they
/// come.
pub proof fn law_decoded_frames_are_kept(contents: Seq<Option<(u32, u32, Seq<u8>, u32, u32)>>)
    ensures
        drawn_frames(contents).len() <= contents.len(),
        (forall|index: int| 0 <= index < contents.len() ==> (#[trigger] contents[index]) is Some)
            ==> drawn_frames(contents) == contents.map_values(
            |content: Option<(u32, u32, Seq<u8>, u32, u32)>| drawn(content->0),
        ),
        (drawn_frames(contents).len() == 0) == (forall|index: int|
            0 <= index < contents.len() ==> (#[trigger] contents[index]) is None),
    decreases contents.len(),
{
    if contents.len() > 0 {
        let before = contents.drop_last();
        law_decoded_frames_are_kept(before);
        assert(contents.last() == contents[contents.len() - 1]);
        if forall|index: int| 0 <= index < contents.len() ==> (#[trigger] contents[index]) is Some {
            assert forall|index: int| 0 <= index < before.len() implies (
            #[trigger] before[index]) is Some by {
                assert(before[index] == contents[index]);
            }
            assert(drawn_frames(contents) =~= contents.map_values(
                |content: Option<(u32, u32, Seq<u8>, u32, u32)>| drawn(content->0),
            ));
        }
        if drawn_frames(contents).len() == 0 {
            assert forall|index: int| 0 <= index < contents.len() implies (
            #[trigger] contents[index]) is None by {
                if index < before.len() {
                    assert(before[index] == contents[index]);
                }
            }
        }
        if forall|index: int| 0 <= index < contents.len() ==> (#[trigger] contents[index]) is None {
            assert forall|index: int| 0 <= index < before.len() implies (
            #[trigger] before[index]) is None by {
                assert(before[index] == contents[index]);
            }
        }
    } else {
        assert(drawn_frames(contents) =~= contents.map_values(
            |content: Option<(u32, u32, Seq<u8>, u32, u32)>| drawn(content->0),
        ));
    }
}

} // verus!
