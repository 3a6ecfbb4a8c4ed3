//! The texture atlas: what is kept in it, in which kind of texture, and how its
//! tiles are known.

use crate::geometry::{Bounds, DevicePixels, Size};
use vstd::prelude::*;

verus! {

/// What a texture of the atlas holds.
#[derive(Clone, Copy, Debug, PartialEq, Eq, Structural)]
pub enum AtlasTextureKind {
    Monochrome,
    Polychrome,
    Subpixel,
}

/// A texture of the atlas.
#[derive(Clone, Copy, Debug, PartialEq, Eq, Structural)]
pub struct AtlasTextureId {
    pub index: u32,
    pub kind: AtlasTextureKind,
}

/// A tile within its texture.
#[derive(Clone, Copy, Debug, PartialEq, Eq, PartialOrd, Ord, Structural)]
pub struct TileId(pub u32);

/// A part of a texture that holds one image.
#[derive(Clone, Copy, Debug, PartialEq, Eq, Structural)]
pub struct AtlasTile {
    pub texture_id: AtlasTextureId,
    pub tile_id: TileId,
    /// The pixels that are kept free round the image.
    pub padding: u32,
    pub bounds: Bounds<DevicePixels>,
}

/// A glyph as it is drawn.
#[derive(Clone, Copy, Debug, PartialEq, Eq, Structural)]
pub struct RenderGlyphParams {
    pub font_id: usize,
    pub glyph_id: u32,
    pub is_emoji: bool,
    pub subpixel_rendering: bool,
}

/// A vector drawing at a size, by the hash of its path.
#[derive(Clone, Copy, Debug, PartialEq, Eq, Structural)]
pub struct RenderSvgParams {
    pub path: u64,
    pub width: DevicePixels,
    pub height: DevicePixels,
}

/// A frame of an image.
#[derive(Clone, Copy, Debug, PartialEq, Eq, Structural)]
pub struct RenderImageParams {
    pub image_id: usize,
    pub frame_index: usize,
}

/// What a tile is found by.
#[derive(Clone, Copy, Debug, PartialEq, Eq, Structural)]
pub enum AtlasKey {
    Glyph(RenderGlyphParams),
    Svg(RenderSvgParams),
    Image(RenderImageParams),
}

impl AtlasKey {
    /// The kind of texture that holds what the key stands for.
    pub open spec fn spec_texture_kind(&self) -> AtlasTextureKind {
        match self {
            AtlasKey::Glyph(params) => if params.is_emoji {
                AtlasTextureKind::Polychrome
            } else if params.subpixel_rendering {
                AtlasTextureKind::Subpixel
            } else {
                AtlasTextureKind::Monochrome
            },
            AtlasKey::Svg(_) => AtlasTextureKind::Monochrome,
            AtlasKey::Image(_) => AtlasTextureKind::Polychrome,
        }
    }

    /// The kind of texture that holds what the key stands for: colours for emoji
    /// and images, coverage for each part of a pixel for glyphs that are drawn so,
    /// coverage alone for the rest.
    pub fn texture_kind(&self) -> (kind: AtlasTextureKind)
        ensures
            kind == self.spec_texture_kind(),
    {
        match self {
            AtlasKey::Glyph(params) => if params.is_emoji {
                AtlasTextureKind::Polychrome
            } else if params.subpixel_rendering {
                AtlasTextureKind::Subpixel
            } else {
                AtlasTextureKind::Monochrome
            },
            AtlasKey::Svg(_) => AtlasTextureKind::Monochrome,
            AtlasKey::Image(_) => AtlasTextureKind::Polychrome,
        }
    }
}

impl From<RenderGlyphParams> for AtlasKey {
    fn from(params: RenderGlyphParams) -> (key: Self) {
        AtlasKey::Glyph(params)
    }
}

impl vstd::std_specs::convert::FromSpecImpl<RenderGlyphParams> for AtlasKey {
    open spec fn obeys_from_spec() -> bool {
        true
    }

    open spec fn from_spec(params: RenderGlyphParams) -> AtlasKey {
        AtlasKey::Glyph(params)
    }
}

impl From<RenderSvgParams> for AtlasKey {
    fn from(params: RenderSvgParams) -> (key: Self) {
        AtlasKey::Svg(params)
    }
}

impl vstd::std_specs::convert::FromSpecImpl<RenderSvgParams> for AtlasKey {
    open spec fn obeys_from_spec() -> bool {
        true
    }

    open spec fn from_spec(params: RenderSvgParams) -> AtlasKey {
        AtlasKey::Svg(params)
    }
}

impl From<RenderImageParams> for AtlasKey {
    fn from(params: RenderImageParams) -> (key: Self) {
        AtlasKey::Image(params)
    }
}

impl vstd::std_specs::convert::FromSpecImpl<RenderImageParams> for AtlasKey {
    open spec fn obeys_from_spec() -> bool {
        true
    }

    open spec fn from_spec(params: RenderImageParams) -> AtlasKey {
        AtlasKey::Image(params)
    }
}

/// The handle by which the allocator knows a rectangle.
#[verifier::external_type_specification]
#[verifier::external_body]
pub struct ExternalAllocId(etagere::AllocId);

/// The number that a handle of the allocator is written as.
pub uninterp spec fn alloc_number(id: etagere::AllocId) -> u32;

/// `AllocId::serialize` hands out the number that the handle consists of.
pub assume_specification[ etagere::AllocId::serialize ](id: &etagere::AllocId) -> (number: u32)
    ensures
        number == alloc_number(*id),
;

/// `AllocId::deserialize` makes a handle out of any number, and that handle
/// consists of the number.
pub assume_specification[ etagere::AllocId::deserialize ](bytes: u32) -> (id: etagere::AllocId)
    ensures
        alloc_number(id) == bytes,
;

impl From<etagere::AllocId> for TileId {
    fn from(id: etagere::AllocId) -> (tile: Self) {
        TileId(id.serialize())
    }
}

impl vstd::std_specs::convert::FromSpecImpl<etagere::AllocId> for TileId {
    open spec fn obeys_from_spec() -> bool {
        true
    }

    open spec fn from_spec(id: etagere::AllocId) -> TileId {
        TileId(alloc_number(id))
    }
}

impl TileId {
    /// The handle by which the allocator knows the tile: its number gives the tile
    /// back.
    pub fn alloc_id(self) -> (id: etagere::AllocId)
        ensures
            alloc_number(id) == self.0,
    {
        etagere::AllocId::deserialize(self.0)
    }

    /// The tile that is written as a number, by way of the allocator's handle: the
    /// one with that number.
    pub fn through_allocator(number: u32) -> (tile: TileId)
        ensures
            tile == TileId(number),
    {
        TileId::from(TileId(number).alloc_id())
    }
}

/// Where images for drawing are kept.
pub trait PlatformAtlas {
    type Error;

    /// The tile that a key stands for, made from the image that `build` gives where
    /// there is none yet.
    fn get_or_insert_with<F: FnOnce() -> Result<
        Option<(Size<DevicePixels>, Vec<u8>)>,
        Self::Error,
    >>(&self, key: &AtlasKey, build: F) -> Result<Option<AtlasTile>, Self::Error>;

    /// Forgets the tile that a key stands for.
    fn remove(&self, key: &AtlasKey);
}

/// The textures of one kind, with the places that are free.
pub struct AtlasTextureList<T> {
    pub textures: Vec<Option<T>>,
    pub free_list: Vec<usize>,
}

/// The places of the textures that are there, in ascending order.
pub open spec fn occupied_places<T>(textures: Seq<Option<T>>) -> Seq<usize>
    decreases textures.len(),
{
    if textures.len() == 0 {
        Seq::empty()
    } else {
        let before = occupied_places(textures.drop_last());
        if textures.last() is Some {
            before.push((textures.len() - 1) as usize)
        } else {
            before
        }
    }
}

impl<T> Default for AtlasTextureList<T> {
    fn default() -> (list: Self)
        ensures
            list.textures@.len() == 0,
            list.free_list@.len() == 0,
    {
        AtlasTextureList { textures: Vec::new(), free_list: Vec::new() }
    }
}

impl<T> AtlasTextureList<T> {
    /// The texture at a place, if there is one.
    pub fn index(&self, index: usize) -> (texture: &Option<T>)
        requires
            index < self.textures@.len(),
        ensures
            *texture == self.textures@[index as int],
    {
        &self.textures[index]
    }

    /// Takes out all places, with and without textures; none is free any more.
    pub fn drain(&mut self) -> (textures: Vec<Option<T>>)
        ensures
            textures@ == old(self).textures@,
            final(self).textures@.len() == 0,
            final(self).free_list@.len() == 0,
    {
        self.free_list = Vec::new();
        let mut textures: Vec<Option<T>> = Vec::new();
        textures.append(&mut self.textures);
        assert(textures@ =~= old(self).textures@);
        textures
    }

    /// The places at which there are textures, in ascending order.
    pub fn occupied(&self) -> (places: Vec<usize>)
        ensures
            places@ == occupied_places(self.textures@),
    {
        let mut places: Vec<usize> = Vec::new();
        let mut index: usize = 0;
        assert(self.textures@.take(0) =~= Seq::empty());
        while index < self.textures.len()
            invariant
                index <= self.textures@.len(),
                places@ == occupied_places(self.textures@.take(index as int)),
            decreases self.textures@.len() - index,
        {
            assert(self.textures@.take(index + 1).drop_last() =~= self.textures@.take(index as int));
            if self.textures[index].is_some() {
                places.push(index);
            }
            index = index + 1;
        }
        assert(self.textures@.take(index as int) =~= self.textures@);
        places
    }

    /// The texture at a place, to be changed.
    pub fn get_mut(&mut self, index: usize) -> (texture: &mut Option<T>)
        requires
            index < old(self).textures@.len(),
        ensures
            *texture == old(self).textures@[index as int],
            final(self).textures@ == old(self).textures@.update(index as int, *final(texture)),
            final(self).free_list == old(self).free_list,
    {
        &mut self.textures[index]
    }
}

/// The places that are walked hold textures, every texture is walked, and the
/// walk goes upwards.
pub proof fn law_walk_meets_every_texture<T>(textures: Seq<Option<T>>, place: usize)
    requires
        textures.len() <= usize::MAX,
    ensures
        occupied_places(textures).contains(place) == (place < textures.len()
            && textures[place as int] is Some),
        forall|first: int, second: int|
            0 <= first < second < occupied_places(textures).len() ==> (
            #[trigger] occupied_places(textures)[first]) < (
            #[trigger] occupied_places(textures)[second]),
        forall|index: int|
            0 <= index < occupied_places(textures).len() ==> (
            #[trigger] occupied_places(textures)[index]) < textures.len(),
    decreases textures.len(),
{
    if textures.len() > 0 {
        let before = occupied_places(textures.drop_last());
        law_walk_meets_every_texture(textures.drop_last(), place);
        let last = (textures.len() - 1) as usize;
        if textures.last() is Some {
            let all = before.push(last);
            assert(all[before.len() as int] == last);
            if before.contains(place) {
                let index = choose|index: int| 0 <= index < before.len() && before[index] == place;
                assert(all[index] == place);
            }
            if place == last {
                assert(all.contains(place));
            }
            if all.contains(place) && place != last {
                let index = choose|index: int| 0 <= index < all.len() && all[index] == place;
                assert(before[index] == place);
            }
        }
    }
}

} // verus!
