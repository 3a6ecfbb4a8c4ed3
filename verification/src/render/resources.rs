//! What is made for rendering: the device that is chosen, the surfaces, textures
//! and pipelines, and the images that are read back.

use crate::capture::frames::RgbaImage;
use crate::geometry::{DevicePixels, Size};
use crate::render::instance_buffer;
use vstd::prelude::*;

verus! {

/// How many samples a pixel of a path has.
pub const PATH_SAMPLE_COUNT: u32 = 4;

/// The name of the pixel format of a shared surface, the bytes `BGRA` as a
/// big-endian number.
pub const BGRA_IOSURFACE_PIXEL_FORMAT: i32 = 1_111_970_369;

/// What is known about a GPU.
#[derive(Clone, Copy, Debug, PartialEq, Eq, Structural)]
pub struct DeviceTraits {
    pub is_removable: bool,
    pub is_low_power: bool,
}

/// A GPU is preferred to another: one that is built in, and of these one that
/// saves power.
pub open spec fn is_preferred(device: DeviceTraits, other: DeviceTraits) -> bool {
    if device.is_removable != other.is_removable {
        !device.is_removable
    } else {
        device.is_low_power && !other.is_low_power
    }
}

/// Chooses a GPU: the first to which no other is preferred, none where there is
/// none.
pub fn choose_device(devices: &Vec<DeviceTraits>) -> (chosen: Option<usize>)
    ensures
        match chosen {
            None => devices@.len() == 0,
            Some(chosen) => {
                &&& chosen < devices@.len()
                &&& forall|index: int|
                    0 <= index < devices@.len() ==> !is_preferred(
                        #[trigger] devices@[index],
                        devices@[chosen as int],
                    )
                &&& forall|index: int|
                    0 <= index < chosen ==> is_preferred(
                        devices@[chosen as int],
                        #[trigger] devices@[index],
                    )
            },
        },
{
    if devices.len() == 0 {
        return None;
    }
    let mut chosen: usize = 0;
    let mut index: usize = 1;
    while index < devices.len()
        invariant
            1 <= index <= devices@.len(),
            chosen < index,
            forall|seen: int|
                0 <= seen < index ==> !is_preferred(
                    #[trigger] devices@[seen],
                    devices@[chosen as int],
                ),
            forall|seen: int|
                0 <= seen < chosen ==> is_preferred(
                    devices@[chosen as int],
                    #[trigger] devices@[seen],
                ),
        decreases devices@.len() - index,
    {
        let device: DeviceTraits = devices[index];
        let best: DeviceTraits = devices[chosen];
        let better: bool = if device.is_removable != best.is_removable {
            !device.is_removable
        } else {
            device.is_low_power && !best.is_low_power
        };
        if better {
            chosen = index;
        }
        index = index + 1;
    }
    Some(chosen)
}

/// The memory of a surface that is shared with the window server.
#[derive(Clone, Copy, Debug, PartialEq, Eq, Structural)]
pub struct IosurfaceLayout {
    pub width: u32,
    pub height: u32,
    pub bytes_per_row: u64,
    pub bytes_per_element: u32,
    pub pixel_format: i32,
}

/// A length of at least one pixel.
pub open spec fn at_least_one(length: i32) -> u32 {
    if length > 1 {
        length as u32
    } else {
        1
    }
}

/// How a shared surface of a size is laid out: at least one pixel, four bytes
/// each, in rows that start at multiples of 256 bytes.
pub fn iosurface_layout(size: Size<DevicePixels>) -> (layout: IosurfaceLayout)
    ensures
        layout.width == at_least_one(size.width.0),
        layout.height == at_least_one(size.height.0),
        layout.bytes_per_row == instance_buffer::aligned((layout.width * 4) as nat, 256),
        layout.bytes_per_element == 4,
        layout.pixel_format == BGRA_IOSURFACE_PIXEL_FORMAT,
{
    let width: u32 = if size.width.0 > 1 {
        size.width.0 as u32
    } else {
        1
    };
    let height: u32 = if size.height.0 > 1 {
        size.height.0 as u32
    } else {
        1
    };
    IosurfaceLayout {
        width,
        height,
        bytes_per_row: (width as u64 * 4 + 255) / 256 * 256,
        bytes_per_element: 4,
        pixel_format: BGRA_IOSURFACE_PIXEL_FORMAT,
    }
}

/// Where a texture lives.
#[derive(Clone, Copy, Debug, PartialEq, Eq, Structural)]
pub enum TextureStorage {
    /// In memory of the GPU.
    Private,
    /// Nowhere but in the GPU while a pass runs.
    Memoryless,
}

/// A texture with several samples for each pixel.
#[derive(Clone, Copy, Debug, PartialEq, Eq, Structural)]
pub struct MultisampleTexture {
    pub sample_count: u32,
    pub storage: TextureStorage,
}

/// The textures that paths are drawn to.
#[derive(Clone, Copy, Debug, PartialEq, Eq, Structural)]
pub struct PathTextures {
    /// The size of the texture that paths are copied from, if there is one.
    pub intermediate: Option<Size<DevicePixels>>,
    pub multisample: Option<MultisampleTexture>,
}

/// The textures that paths are drawn to on a surface of a size: none where it has
/// no pixels, and one for the samples where a pixel has several.
pub open spec fn path_textures(size: Size<DevicePixels>, sample_count: u32, is_apple_gpu: bool) -> PathTextures {
    if size.width.0 <= 0 || size.height.0 <= 0 {
        PathTextures { intermediate: None, multisample: None }
    } else {
        PathTextures {
            intermediate: Some(size),
            multisample: if sample_count > 1 {
                Some(
                    MultisampleTexture {
                        sample_count,
                        storage: if is_apple_gpu {
                            TextureStorage::Memoryless
                        } else {
                            TextureStorage::Private
                        },
                    },
                )
            } else {
                None
            },
        }
    }
}

/// The textures that paths are drawn to on a surface of a size.
pub fn plan_path_textures(size: Size<DevicePixels>, sample_count: u32, is_apple_gpu: bool) -> (textures:
    PathTextures)
    ensures
        textures == path_textures(size, sample_count, is_apple_gpu),
{
    if size.width.0 <= 0 || size.height.0 <= 0 {
        return PathTextures { intermediate: None, multisample: None };
    }
    let multisample: Option<MultisampleTexture> = if sample_count > 1 {
        let storage: TextureStorage = if is_apple_gpu {
            TextureStorage::Memoryless
        } else {
            TextureStorage::Private
        };
        Some(MultisampleTexture { sample_count, storage })
    } else {
        None
    };
    PathTextures { intermediate: Some(size), multisample }
}

/// The programs that draw the primitives.
#[derive(Clone, Copy, Debug, PartialEq, Eq, Structural)]
pub enum Pipeline {
    PathRasterization,
    PathSprites,
    Shadows,
    Quads,
    Underlines,
    MonochromeSprites,
    PolychromeSprites,
    Surfaces,
}

/// What a colour is multiplied by before it is added to another.
#[derive(Clone, Copy, Debug, PartialEq, Eq, Structural)]
pub enum BlendFactor {
    One,
    SourceAlpha,
    OneMinusSourceAlpha,
}

/// How what is drawn is added to what is there.
#[derive(Clone, Copy, Debug, PartialEq, Eq, Structural)]
pub struct Blending {
    pub source_rgb: BlendFactor,
    pub source_alpha: BlendFactor,
    pub destination_rgb: BlendFactor,
    pub destination_alpha: BlendFactor,
}

impl Pipeline {
    /// What the pipeline is called.
    pub fn label(self) -> (label: &'static str)
        ensures
            label@ == match self {
                Pipeline::PathRasterization => "paths_rasterization"@,
                Pipeline::PathSprites => "path_sprites"@,
                Pipeline::Shadows => "shadows"@,
                Pipeline::Quads => "quads"@,
                Pipeline::Underlines => "underlines"@,
                Pipeline::MonochromeSprites => "monochrome_sprites"@,
                Pipeline::PolychromeSprites => "polychrome_sprites"@,
                Pipeline::Surfaces => "surfaces"@,
            },
    {
        match self {
            Pipeline::PathRasterization => "paths_rasterization",
            Pipeline::PathSprites => "path_sprites",
            Pipeline::Shadows => "shadows",
            Pipeline::Quads => "quads",
            Pipeline::Underlines => "underlines",
            Pipeline::MonochromeSprites => "monochrome_sprites",
            Pipeline::PolychromeSprites => "polychrome_sprites",
            Pipeline::Surfaces => "surfaces",
        }
    }

    /// The function that places the corners.
    pub fn vertex_function(self) -> (name: &'static str)
        ensures
            name@ == match self {
                Pipeline::PathRasterization => "path_rasterization_vertex"@,
                Pipeline::PathSprites => "path_sprite_vertex"@,
                Pipeline::Shadows => "shadow_vertex"@,
                Pipeline::Quads => "quad_vertex"@,
                Pipeline::Underlines => "underline_vertex"@,
                Pipeline::MonochromeSprites => "monochrome_sprite_vertex"@,
                Pipeline::PolychromeSprites => "polychrome_sprite_vertex"@,
                Pipeline::Surfaces => "surface_vertex"@,
            },
    {
        match self {
            Pipeline::PathRasterization => "path_rasterization_vertex",
            Pipeline::PathSprites => "path_sprite_vertex",
            Pipeline::Shadows => "shadow_vertex",
            Pipeline::Quads => "quad_vertex",
            Pipeline::Underlines => "underline_vertex",
            Pipeline::MonochromeSprites => "monochrome_sprite_vertex",
            Pipeline::PolychromeSprites => "polychrome_sprite_vertex",
            Pipeline::Surfaces => "surface_vertex",
        }
    }

    /// The function that colours the pixels.
    pub fn fragment_function(self) -> (name: &'static str)
        ensures
            name@ == match self {
                Pipeline::PathRasterization => "path_rasterization_fragment"@,
                Pipeline::PathSprites => "path_sprite_fragment"@,
                Pipeline::Shadows => "shadow_fragment"@,
                Pipeline::Quads => "quad_fragment"@,
                Pipeline::Underlines => "underline_fragment"@,
                Pipeline::MonochromeSprites => "monochrome_sprite_fragment"@,
                Pipeline::PolychromeSprites => "polychrome_sprite_fragment"@,
                Pipeline::Surfaces => "surface_fragment"@,
            },
    {
        match self {
            Pipeline::PathRasterization => "path_rasterization_fragment",
            Pipeline::PathSprites => "path_sprite_fragment",
            Pipeline::Shadows => "shadow_fragment",
            Pipeline::Quads => "quad_fragment",
            Pipeline::Underlines => "underline_fragment",
            Pipeline::MonochromeSprites => "monochrome_sprite_fragment",
            Pipeline::PolychromeSprites => "polychrome_sprite_fragment",
            Pipeline::Surfaces => "surface_fragment",
        }
    }

    /// How what is drawn is added to what is there: colours that are already
    /// multiplied by their alpha for paths, plain ones otherwise.
    pub fn blending(self) -> (blending: Blending)
        ensures
            blending.source_rgb == match self {
                Pipeline::PathRasterization | Pipeline::PathSprites => BlendFactor::One,
                _ => BlendFactor::SourceAlpha,
            },
            blending.source_alpha == BlendFactor::One,
            blending.destination_rgb == BlendFactor::OneMinusSourceAlpha,
            blending.destination_alpha == match self {
                Pipeline::PathRasterization => BlendFactor::OneMinusSourceAlpha,
                _ => BlendFactor::One,
            },
    {
        let source_rgb: BlendFactor = match self {
            Pipeline::PathRasterization | Pipeline::PathSprites => BlendFactor::One,
            _ => BlendFactor::SourceAlpha,
        };
        let destination_alpha: BlendFactor = match self {
            Pipeline::PathRasterization => BlendFactor::OneMinusSourceAlpha,
            _ => BlendFactor::One,
        };
        Blending {
            source_rgb,
            source_alpha: BlendFactor::One,
            destination_rgb: BlendFactor::OneMinusSourceAlpha,
            destination_alpha,
        }
    }

    /// How many samples a pixel has: several only where paths are drawn.
    pub fn sample_count(self) -> (count: u32)
        ensures
            count == if self is PathRasterization {
                PATH_SAMPLE_COUNT
            } else {
                1
            },
    {
        match self {
            Pipeline::PathRasterization => PATH_SAMPLE_COUNT,
            _ => 1,
        }
    }
}

/// The bits of the number one in single precision.
pub const ONE_BITS: u32 = 0x3f80_0000;

/// Two numbers of single precision as the GPU reads them, the first in the lower
/// half.
pub open spec fn float2_bits(x_bits: u32, y_bits: u32) -> u64 {
    (y_bits * 0x1_0000_0000 + x_bits) as u64
}

fn to_float2_bits(x_bits: u32, y_bits: u32) -> (bits: u64)
    ensures
        bits == float2_bits(x_bits, y_bits),
{
    y_bits as u64 * 0x1_0000_0000 + x_bits as u64
}

/// The corners of the two triangles that make the unit square.
pub fn unit_vertices() -> (vertices: [u64; 6])
    ensures
        vertices@ == seq![
            float2_bits(0, 0),
            float2_bits(ONE_BITS, 0),
            float2_bits(0, ONE_BITS),
            float2_bits(0, ONE_BITS),
            float2_bits(ONE_BITS, 0),
            float2_bits(ONE_BITS, ONE_BITS),
        ],
{
    [
        to_float2_bits(0, 0),
        to_float2_bits(ONE_BITS, 0),
        to_float2_bits(0, ONE_BITS),
        to_float2_bits(0, ONE_BITS),
        to_float2_bits(ONE_BITS, 0),
        to_float2_bits(ONE_BITS, ONE_BITS),
    ]
}

/// The bytes of pixels with red and blue in each other's place.
pub open spec fn with_red_and_blue_swapped(pixels: Seq<u8>) -> Seq<u8> {
    Seq::new(
        pixels.len(),
        |index: int|
            if index >= pixels.len() / 4 * 4 {
                pixels[index]
            } else if index % 4 == 0 {
                pixels[index + 2]
            } else if index % 4 == 2 {
                pixels[index - 2]
            } else {
                pixels[index]
            },
    )
}

/// Puts red and blue in each other's place, in every pixel of four bytes.
pub fn swap_red_and_blue(pixels: &mut Vec<u8>)
    ensures
        final(pixels)@ == with_red_and_blue_swapped(old(pixels)@),
{
    let ghost before = pixels@;
    let count: usize = pixels.len() / 4;
    let mut pixel: usize = 0;
    while pixel < count
        invariant
            pixel <= count,
            count == before.len() / 4,
            pixels@.len() == before.len(),
            before == old(pixels)@,
            forall|index: int|
                0 <= index < 4 * pixel ==> #[trigger] pixels@[index] == with_red_and_blue_swapped(
                    before,
                )[index],
            forall|index: int|
                4 * pixel <= index < before.len() ==> #[trigger] pixels@[index] == before[index],
        decreases count - pixel,
    {
        assert(pixels.len() == pixels@.len());
        let first: u8 = pixels[4 * pixel];
        let third: u8 = pixels[4 * pixel + 2];
        pixels.set(4 * pixel, third);
        pixels.set(4 * pixel + 2, first);
        pixel = pixel + 1;
    }
    assert(pixels@ =~= with_red_and_blue_swapped(before));
}

/// To swap red and blue twice changes nothing.
pub proof fn law_swapping_twice_changes_nothing(pixels: Seq<u8>)
    ensures
        with_red_and_blue_swapped(with_red_and_blue_swapped(pixels)) == pixels,
{
    let once = with_red_and_blue_swapped(pixels);
    let twice = with_red_and_blue_swapped(once);
    assert forall|index: int| 0 <= index < pixels.len() implies #[trigger] twice[index]
        == pixels[index] by {
        if index < pixels.len() / 4 * 4 {
            if index % 4 == 0 {
                assert(once[index + 2] == pixels[index]);
            } else if index % 4 == 2 {
                assert(once[index - 2] == pixels[index]);
            }
        }
    }
    assert(twice =~= pixels);
}

/// Why nothing was rendered to an image.
#[derive(Clone, Copy, Debug, PartialEq, Eq, Structural)]
pub enum RenderError {
    /// The image would have no pixels.
    InvalidSize(Size<DevicePixels>),
    /// There is no layer to draw to.
    NoLayer,
    /// The layer has no room for a frame.
    NoDrawable,
    /// The scene has no room in the largest buffer.
    InstanceBufferTooLarge(usize),
    /// There are not enough bytes for the pixels.
    MissingPixels,
}

/// The image that was rendered, from the bytes that the GPU wrote.
pub fn image_from_pixels(width: u32, height: u32, pixels: Vec<u8>) -> (result: Result<
    RgbaImage,
    RenderError,
>)
    ensures
        if pixels@.len() == 4 * (width as int * height as int) {
            result matches Ok(image) && image.width == width && image.height == height
                && image.data@ == with_red_and_blue_swapped(pixels@) && image.well_formed()
        } else {
            result == Err::<RgbaImage, RenderError>(RenderError::MissingPixels)
        },
{
    proof {
        let limit = 0xffff_ffff_int;
        assert(0 <= width * height <= limit * limit) by (nonlinear_arith)
            requires
                0 <= width <= limit,
                0 <= height <= limit,
        ;
    }
    let bytes: u128 = width as u128 * height as u128 * 4;
    if pixels.len() as u128 != bytes {
        return Err(RenderError::MissingPixels);
    }
    let mut data: Vec<u8> = pixels;
    swap_red_and_blue(&mut data);
    Ok(RgbaImage { width, height, data })
}

} // verus!
