//! The layout of a scene in an instance buffer: what is drawn, in which order,
//! and where the GPU finds it.

use crate::atlas::AtlasTextureId;
use crate::geometry::{Bounds, ScaledPixels};
use crate::render::instance_buffer;
use crate::render::instance_buffer::{
    AcquiredBuffer, InstanceBuffer, InstanceBufferPool, InstanceBufferTooLarge, INSTANCE_ALIGNMENT,
    MAX_INSTANCE_BUFFER_SIZE,
};
use crate::text;
use crate::text::{push_decimal, push_text, string_of};
use vstd::prelude::*;

verus! {

/// A run of primitives of one kind, from one to just before another.
#[derive(Clone, Copy, Debug, PartialEq, Eq, Structural)]
pub struct PrimitiveRange {
    pub start: usize,
    pub end: usize,
}

impl PrimitiveRange {
    pub open spec fn count(self) -> nat {
        (self.end - self.start) as nat
    }

    pub open spec fn fits(self, available: nat) -> bool {
        self.start <= self.end <= available
    }
}

/// Primitives that are drawn by one call.
#[derive(Clone, Copy, Debug, PartialEq, Eq, Structural)]
pub enum PrimitiveBatch {
    Shadows(PrimitiveRange),
    Quads(PrimitiveRange),
    Paths(PrimitiveRange),
    Underlines(PrimitiveRange),
    MonochromeSprites { texture_id: AtlasTextureId, range: PrimitiveRange },
    PolychromeSprites { texture_id: AtlasTextureId, range: PrimitiveRange },
    Surfaces(PrimitiveRange),
}

/// A filled outline.
#[derive(Clone, Copy, Debug, PartialEq, Eq, Structural)]
pub struct ScenePath {
    pub order: u32,
    pub vertex_count: usize,
    pub bounds: Bounds<ScaledPixels>,
    pub content_mask: Bounds<ScaledPixels>,
}

impl ScenePath {
    /// What of the path is seen.
    pub open spec fn clipped(self) -> Bounds<ScaledPixels> {
        self.bounds.common(&self.content_mask)
    }

    /// What of the path is seen.
    pub fn clipped_bounds(&self) -> (bounds: Bounds<ScaledPixels>)
        requires
            self.bounds.is_near(),
            self.content_mask.is_near(),
        ensures
            bounds == self.clipped(),
            bounds.is_near(),
    {
        self.bounds.clip(&self.content_mask)
    }
}

/// How many primitives of each kind a scene has, its paths, and the batches in
/// which they are drawn.
pub struct Scene {
    pub shadows: usize,
    pub quads: usize,
    pub underlines: usize,
    pub monochrome_sprites: usize,
    pub polychrome_sprites: usize,
    pub surfaces: usize,
    pub paths: Vec<ScenePath>,
    pub batches: Vec<PrimitiveBatch>,
}

impl Scene {
    /// A batch draws primitives that the scene has.
    pub open spec fn has(&self, batch: PrimitiveBatch) -> bool {
        match batch {
            PrimitiveBatch::Shadows(range) => range.fits(self.shadows as nat),
            PrimitiveBatch::Quads(range) => range.fits(self.quads as nat),
            PrimitiveBatch::Paths(range) => range.fits(self.paths@.len()),
            PrimitiveBatch::Underlines(range) => range.fits(self.underlines as nat),
            PrimitiveBatch::MonochromeSprites { texture_id, range } => range.fits(
                self.monochrome_sprites as nat,
            ),
            PrimitiveBatch::PolychromeSprites { texture_id, range } => range.fits(
                self.polychrome_sprites as nat,
            ),
            PrimitiveBatch::Surfaces(range) => range.fits(self.surfaces as nat),
        }
    }

    pub open spec fn wf(&self) -> bool {
        forall|index: int|
            0 <= index < self.batches@.len() ==> self.has(#[trigger] self.batches@[index])
    }
}

/// How many bytes one instance of each kind takes.
#[derive(Clone, Copy, Debug, PartialEq, Eq, Structural)]
pub struct InstanceSizes {
    pub shadow: usize,
    pub quad: usize,
    pub underline: usize,
    pub monochrome_sprite: usize,
    pub polychrome_sprite: usize,
    pub path_vertex: usize,
    pub path_sprite: usize,
    pub surface: usize,
}

/// What draws instances.
#[derive(Clone, Copy, Debug, PartialEq, Eq, Structural)]
pub enum InstanceKind {
    Shadow,
    Quad,
    Underline,
    MonochromeSprite(AtlasTextureId),
    PolychromeSprite(AtlasTextureId),
}

/// One step of drawing a scene.
#[derive(Clone, Copy, Debug, PartialEq, Eq, Structural)]
pub enum DrawCommand {
    /// Instances of a kind, from one of the scene's on, found at an offset.
    Instances { kind: InstanceKind, first: usize, count: usize, offset: usize },
    /// The outlines of some paths, drawn to a texture of their own.
    RasterizePaths { range: PrimitiveRange, offset: usize },
    /// The pass over the surface goes on, with what it holds kept.
    ResumePass,
    /// What was drawn to the texture of the paths, copied to the surface.
    PathSprites { range: PrimitiveRange, count: usize, offset: usize },
    /// A surface of its own, found at an offset.
    Surface { index: usize, offset: usize },
}

/// Where so many bytes are put behind an offset, if they fit.
pub open spec fn placed(offset: nat, bytes: nat, capacity: nat) -> Option<nat> {
    let start = instance_buffer::aligned(offset, INSTANCE_ALIGNMENT as nat);
    if start + bytes <= capacity {
        Some(start)
    } else {
        None
    }
}

/// The steps so far and the first free byte, or that there was no room.
pub struct Encoding {
    pub commands: Seq<DrawCommand>,
    pub used: nat,
}

/// Draws instances of one kind.
pub open spec fn with_instances(
    encoding: Encoding,
    kind: InstanceKind,
    range: PrimitiveRange,
    instance_size: usize,
    capacity: nat,
) -> Option<Encoding> {
    if range.count() == 0 {
        Some(encoding)
    } else {
        let bytes = range.count() * (instance_size as nat);
        match placed(encoding.used, bytes, capacity) {
            Some(start) => Some(
                Encoding {
                    commands: encoding.commands.push(
                        DrawCommand::Instances {
                            kind,
                            first: range.start,
                            count: range.count() as usize,
                            offset: start as usize,
                        },
                    ),
                    used: start + bytes,
                },
            ),
            None => None,
        }
    }
}

/// How many vertices some paths have.
pub open spec fn vertex_total(paths: Seq<ScenePath>) -> nat
    decreases paths.len(),
{
    if paths.len() == 0 {
        0
    } else {
        vertex_total(paths.drop_last()) + paths.last().vertex_count as nat
    }
}

/// How many rectangles are copied for some paths: one each where all have the
/// same order, and are therefore apart, one round all of them otherwise.
pub open spec fn sprite_count(paths: Seq<ScenePath>) -> nat {
    if paths.len() == 0 {
        0
    } else if paths.last().order == paths[0].order {
        paths.len()
    } else {
        1
    }
}

/// Draws paths: their outlines to a texture of their own, and that to the
/// surface.
pub open spec fn with_paths(
    encoding: Encoding,
    paths: Seq<ScenePath>,
    range: PrimitiveRange,
    sizes: InstanceSizes,
    has_path_texture: bool,
    capacity: nat,
) -> Option<Encoding> {
    if paths.len() == 0 {
        Some(Encoding { commands: encoding.commands.push(DrawCommand::ResumePass), ..encoding })
    } else if !has_path_texture {
        None
    } else {
        let vertex_bytes = vertex_total(paths) * (sizes.path_vertex as nat);
        let sprite_bytes = sprite_count(paths) * (sizes.path_sprite as nat);
        match placed(encoding.used, vertex_bytes, capacity) {
            None => None,
            Some(vertices) => match placed(vertices + vertex_bytes, sprite_bytes, capacity) {
                None => None,
                Some(sprites) => Some(
                    Encoding {
                        commands: encoding.commands.push(
                            DrawCommand::RasterizePaths { range, offset: vertices as usize },
                        ).push(DrawCommand::ResumePass).push(
                            DrawCommand::PathSprites {
                                range,
                                count: sprite_count(paths) as usize,
                                offset: sprites as usize,
                            },
                        ),
                        used: sprites + sprite_bytes,
                    },
                ),
            },
        }
    }
}

/// Draws surfaces, each by a call of its own.
pub open spec fn with_surfaces(
    encoding: Encoding,
    range: PrimitiveRange,
    instance_size: usize,
    capacity: nat,
) -> Option<Encoding>
    decreases range.end - range.start,
{
    if range.start >= range.end {
        Some(encoding)
    } else {
        match placed(encoding.used, instance_size as nat, capacity) {
            None => None,
            Some(start) => with_surfaces(
                Encoding {
                    commands: encoding.commands.push(
                        DrawCommand::Surface { index: range.start, offset: start as usize },
                    ),
                    used: start + instance_size as nat,
                },
                PrimitiveRange { start: (range.start + 1) as usize, end: range.end },
                instance_size,
                capacity,
            ),
        }
    }
}

/// Draws a batch.
pub open spec fn with_batch(
    encoding: Encoding,
    paths: Seq<ScenePath>,
    batch: PrimitiveBatch,
    sizes: InstanceSizes,
    has_path_texture: bool,
    capacity: nat,
) -> Option<Encoding> {
    match batch {
        PrimitiveBatch::Shadows(range) => with_instances(
            encoding,
            InstanceKind::Shadow,
            range,
            sizes.shadow,
            capacity,
        ),
        PrimitiveBatch::Quads(range) => with_instances(
            encoding,
            InstanceKind::Quad,
            range,
            sizes.quad,
            capacity,
        ),
        PrimitiveBatch::Paths(range) => with_paths(
            encoding,
            paths.subrange(range.start as int, range.end as int),
            range,
            sizes,
            has_path_texture,
            capacity,
        ),
        PrimitiveBatch::Underlines(range) => with_instances(
            encoding,
            InstanceKind::Underline,
            range,
            sizes.underline,
            capacity,
        ),
        PrimitiveBatch::MonochromeSprites { texture_id, range } => with_instances(
            encoding,
            InstanceKind::MonochromeSprite(texture_id),
            range,
            sizes.monochrome_sprite,
            capacity,
        ),
        PrimitiveBatch::PolychromeSprites { texture_id, range } => with_instances(
            encoding,
            InstanceKind::PolychromeSprite(texture_id),
            range,
            sizes.polychrome_sprite,
            capacity,
        ),
        PrimitiveBatch::Surfaces(range) => with_surfaces(encoding, range, sizes.surface, capacity),
    }
}

/// Draws the batches of a scene one after the other; there is no encoding where
/// one of them has no room.
pub open spec fn encoding_of(
    paths: Seq<ScenePath>,
    batches: Seq<PrimitiveBatch>,
    sizes: InstanceSizes,
    has_path_texture: bool,
    capacity: nat,
) -> Option<Encoding>
    decreases batches.len(),
{
    if batches.len() == 0 {
        Some(Encoding { commands: Seq::empty(), used: 0 })
    } else {
        match encoding_of(paths, batches.drop_last(), sizes, has_path_texture, capacity) {
            None => None,
            Some(encoding) => with_batch(
                encoding,
                paths,
                batches.last(),
                sizes,
                has_path_texture,
                capacity,
            ),
        }
    }
}

/// A scene that has no room in an instance buffer, with how many primitives of
/// each kind it has.
#[derive(Clone, Copy, Debug, PartialEq, Eq, Structural)]
pub struct SceneTooLarge {
    pub paths: usize,
    pub shadows: usize,
    pub quads: usize,
    pub underlines: usize,
    pub monochrome_sprites: usize,
    pub polychrome_sprites: usize,
    pub surfaces: usize,
}

impl SceneTooLarge {
    /// What is said about the scene.
    pub open spec fn spec_message(&self) -> Seq<char> {
        "scene too large: "@ + text::decimal(self.paths as nat) + " paths, "@ + text::decimal(
            self.shadows as nat,
        ) + " shadows, "@ + text::decimal(self.quads as nat) + " quads, "@ + text::decimal(
            self.underlines as nat,
        ) + " underlines, "@ + text::decimal(self.monochrome_sprites as nat) + " mono, "@
            + text::decimal(self.polychrome_sprites as nat) + " poly, "@ + text::decimal(
            self.surfaces as nat,
        ) + " surfaces"@
    }

    /// What is said about the scene.
    pub fn message(&self) -> (message: String)
        ensures
            message@ == self.spec_message(),
    {
        let mut message: Vec<char> = Vec::new();
        push_text(&mut message, "scene too large: ");
        push_decimal(&mut message, self.paths as u128);
        push_text(&mut message, " paths, ");
        push_decimal(&mut message, self.shadows as u128);
        push_text(&mut message, " shadows, ");
        push_decimal(&mut message, self.quads as u128);
        push_text(&mut message, " quads, ");
        push_decimal(&mut message, self.underlines as u128);
        push_text(&mut message, " underlines, ");
        push_decimal(&mut message, self.monochrome_sprites as u128);
        push_text(&mut message, " mono, ");
        push_decimal(&mut message, self.polychrome_sprites as u128);
        push_text(&mut message, " poly, ");
        push_decimal(&mut message, self.surfaces as u128);
        push_text(&mut message, " surfaces");
        assert(message@ =~= self.spec_message());
        string_of(&message)
    }
}

/// A scene laid out in an instance buffer.
pub struct EncodedScene {
    pub commands: Vec<DrawCommand>,
    /// How many bytes of the buffer are used.
    pub used: usize,
}

impl View for EncodedScene {
    type V = Encoding;

    open spec fn view(&self) -> Encoding {
        Encoding { commands: self.commands@, used: self.used as nat }
    }
}

/// The counts of a scene.
pub open spec fn counts_of(scene: Scene) -> SceneTooLarge {
    SceneTooLarge {
        paths: scene.paths@.len() as usize,
        shadows: scene.shadows,
        quads: scene.quads,
        underlines: scene.underlines,
        monochrome_sprites: scene.monochrome_sprites,
        polychrome_sprites: scene.polychrome_sprites,
        surfaces: scene.surfaces,
    }
}

fn place(offset: usize, bytes: u128, capacity: usize) -> (start: Option<usize>)
    requires
        bytes <= 0xffff_ffff_ffff_fffe_0000_0000_0000_0001,
    ensures
        match placed(offset as nat, bytes as nat, capacity as nat) {
            Some(expected) => start == Some(expected as usize) && expected <= capacity,
            None => start is None,
        },
{
    let start: u128 = (offset as u128 + 255) / 256 * 256;
    if start + bytes <= capacity as u128 {
        Some(start as usize)
    } else {
        None
    }
}

fn byte_count(count: usize, size: usize) -> (bytes: u128)
    ensures
        bytes == count * size,
        bytes <= 0xffff_ffff_ffff_fffe_0000_0000_0000_0001,
{
    proof {
        let limit = 0xffff_ffff_ffff_ffff_int;
        assert(0 <= count * size <= limit * limit) by (nonlinear_arith)
            requires
                0 <= count <= limit,
                0 <= size <= limit,
        ;
    }
    count as u128 * size as u128
}

fn encode_instances(
    encoded: &mut EncodedScene,
    kind: InstanceKind,
    range: PrimitiveRange,
    instance_size: usize,
    capacity: usize,
) -> (ok: bool)
    requires
        range.start <= range.end,
        old(encoded).used <= capacity,
    ensures
        match with_instances(old(encoded)@, kind, range, instance_size, capacity as nat) {
            Some(next) => ok && final(encoded)@ == next && final(encoded).used <= capacity,
            None => !ok,
        },
{
    let count: usize = range.end - range.start;
    if count == 0 {
        return true;
    }
    let bytes: u128 = byte_count(count, instance_size);
    match place(encoded.used, bytes, capacity) {
        None => false,
        Some(start) => {
            encoded.commands.push(
                DrawCommand::Instances { kind, first: range.start, count, offset: start },
            );
            encoded.used = start + bytes as usize;
            true
        },
    }
}

/// How many bytes the vertices of some paths take, or that they have no room.
fn vertex_bytes(paths: &Vec<ScenePath>, range: PrimitiveRange, vertex_size: usize, capacity: usize) -> (bytes:
    Option<usize>)
    requires
        range.fits(paths@.len()),
    ensures
        ({
            let total = vertex_total(paths@.subrange(range.start as int, range.end as int)) * (
            vertex_size as nat);
            match bytes {
                Some(bytes) => bytes == total && total <= capacity,
                None => total > capacity,
            }
        }),
{
    let ghost chosen = paths@.subrange(range.start as int, range.end as int);
    let mut bytes: usize = 0;
    let mut index: usize = range.start;
    assert(chosen.take(0) =~= Seq::<ScenePath>::empty());
    assert(0 * (vertex_size as nat) == 0) by (nonlinear_arith);
    while index < range.end
        invariant
            range.fits(paths@.len()),
            range.start <= index <= range.end,
            chosen == paths@.subrange(range.start as int, range.end as int),
            bytes == vertex_total(chosen.take(index - range.start)) * (vertex_size as nat),
            bytes <= capacity,
        decreases range.end - index,
    {
        let added: u128 = byte_count(paths[index].vertex_count, vertex_size);
        let total: u128 = bytes as u128 + added;
        proof {
            let done = chosen.take(index - range.start);
            let more = chosen.take(index + 1 - range.start);
            assert(more.drop_last() =~= done);
            assert(more.last() == paths@[index as int]);
            let before = vertex_total(done) as int;
            let count = paths@[index as int].vertex_count as int;
            let size = vertex_size as int;
            assert((before + count) * size == before * size + count * size) by (nonlinear_arith);
            assert(total == vertex_total(more) * (vertex_size as nat));
            if total > capacity {
                lemma_vertex_total_grows(chosen, (index + 1 - range.start) as nat);
                let all = vertex_total(chosen) as int;
                let part = vertex_total(more) as int;
                assert(all * size >= part * size) by (nonlinear_arith)
                    requires
                        all >= part,
                        size >= 0,
                ;
            }
        }
        if total > capacity as u128 {
            return None;
        }
        bytes = total as usize;
        index = index + 1;
    }
    assert(chosen.take(index - range.start) =~= chosen);
    Some(bytes)
}

proof fn lemma_vertex_total_grows(paths: Seq<ScenePath>, count: nat)
    requires
        count <= paths.len(),
    ensures
        vertex_total(paths.take(count as int)) <= vertex_total(paths),
    decreases paths.len(),
{
    if count == paths.len() {
        assert(paths.take(count as int) =~= paths);
    } else {
        assert(paths.drop_last().take(count as int) =~= paths.take(count as int));
        lemma_vertex_total_grows(paths.drop_last(), count);
    }
}

fn encode_paths(
    encoded: &mut EncodedScene,
    paths: &Vec<ScenePath>,
    range: PrimitiveRange,
    sizes: InstanceSizes,
    has_path_texture: bool,
    capacity: usize,
) -> (ok: bool)
    requires
        range.fits(paths@.len()),
        old(encoded).used <= capacity,
    ensures
        match with_paths(
            old(encoded)@,
            paths@.subrange(range.start as int, range.end as int),
            range,
            sizes,
            has_path_texture,
            capacity as nat,
        ) {
            Some(next) => ok && final(encoded)@ == next && final(encoded).used <= capacity,
            None => !ok,
        },
{
    if range.start == range.end {
        encoded.commands.push(DrawCommand::ResumePass);
        return true;
    }
    if !has_path_texture {
        return false;
    }
    let ghost chosen = paths@.subrange(range.start as int, range.end as int);
    let vertices: usize = match vertex_bytes(paths, range, sizes.path_vertex, capacity) {
        Some(bytes) => bytes,
        None => {
            return false;
        },
    };
    let vertex_start: usize = match place(encoded.used, vertices as u128, capacity) {
        Some(start) => start,
        None => {
            return false;
        },
    };
    let count: usize = if paths[range.end - 1].order == paths[range.start].order {
        range.end - range.start
    } else {
        1
    };
    assert(count == sprite_count(chosen));
    let bytes: u128 = byte_count(count, sizes.path_sprite);
    let sprite_start: usize = match place(vertex_start + vertices, bytes, capacity) {
        Some(start) => start,
        None => {
            return false;
        },
    };
    encoded.commands.push(DrawCommand::RasterizePaths { range, offset: vertex_start });
    encoded.commands.push(DrawCommand::ResumePass);
    encoded.commands.push(DrawCommand::PathSprites { range, count, offset: sprite_start });
    encoded.used = sprite_start + bytes as usize;
    true
}

fn encode_surfaces(
    encoded: &mut EncodedScene,
    range: PrimitiveRange,
    instance_size: usize,
    capacity: usize,
) -> (ok: bool)
    requires
        range.start <= range.end,
        old(encoded).used <= capacity,
    ensures
        match with_surfaces(old(encoded)@, range, instance_size, capacity as nat) {
            Some(next) => ok && final(encoded)@ == next && final(encoded).used <= capacity,
            None => !ok,
        },
{
    let mut index: usize = range.start;
    let ghost expected = with_surfaces(old(encoded)@, range, instance_size, capacity as nat);
    while index < range.end
        invariant
            range.start <= index <= range.end,
            encoded.used <= capacity,
            expected == with_surfaces(old(encoded)@, range, instance_size, capacity as nat),
            expected == with_surfaces(
                encoded@,
                PrimitiveRange { start: index, end: range.end },
                instance_size,
                capacity as nat,
            ),
        decreases range.end - index,
    {
        let ghost before = encoded@;
        match place(encoded.used, instance_size as u128, capacity) {
            None => {
                return false;
            },
            Some(start) => {
                encoded.commands.push(DrawCommand::Surface { index, offset: start });
                encoded.used = start + instance_size;
                assert(encoded@.commands =~= before.commands.push(
                    DrawCommand::Surface { index, offset: start },
                ));
            },
        }
        index = index + 1;
    }
    true
}

fn encode_batch(
    encoded: &mut EncodedScene,
    scene: &Scene,
    batch: PrimitiveBatch,
    sizes: InstanceSizes,
    has_path_texture: bool,
    capacity: usize,
) -> (ok: bool)
    requires
        scene.has(batch),
        old(encoded).used <= capacity,
    ensures
        match with_batch(
            old(encoded)@,
            scene.paths@,
            batch,
            sizes,
            has_path_texture,
            capacity as nat,
        ) {
            Some(next) => ok && final(encoded)@ == next && final(encoded).used <= capacity,
            None => !ok,
        },
{
    match batch {
        PrimitiveBatch::Shadows(range) => encode_instances(
            encoded,
            InstanceKind::Shadow,
            range,
            sizes.shadow,
            capacity,
        ),
        PrimitiveBatch::Quads(range) => encode_instances(
            encoded,
            InstanceKind::Quad,
            range,
            sizes.quad,
            capacity,
        ),
        PrimitiveBatch::Paths(range) => encode_paths(
            encoded,
            &scene.paths,
            range,
            sizes,
            has_path_texture,
            capacity,
        ),
        PrimitiveBatch::Underlines(range) => encode_instances(
            encoded,
            InstanceKind::Underline,
            range,
            sizes.underline,
            capacity,
        ),
        PrimitiveBatch::MonochromeSprites { texture_id, range } => encode_instances(
            encoded,
            InstanceKind::MonochromeSprite(texture_id),
            range,
            sizes.monochrome_sprite,
            capacity,
        ),
        PrimitiveBatch::PolychromeSprites { texture_id, range } => encode_instances(
            encoded,
            InstanceKind::PolychromeSprite(texture_id),
            range,
            sizes.polychrome_sprite,
            capacity,
        ),
        PrimitiveBatch::Surfaces(range) => encode_surfaces(encoded, range, sizes.surface, capacity),
    }
}

proof fn lemma_no_room_stays(
    paths: Seq<ScenePath>,
    batches: Seq<PrimitiveBatch>,
    sizes: InstanceSizes,
    has_path_texture: bool,
    capacity: nat,
    count: nat,
)
    requires
        count <= batches.len(),
        encoding_of(paths, batches.take(count as int), sizes, has_path_texture, capacity) is None,
    ensures
        encoding_of(paths, batches, sizes, has_path_texture, capacity) is None,
    decreases batches.len(),
{
    if count == batches.len() {
        assert(batches.take(count as int) =~= batches);
    } else {
        assert(batches.drop_last().take(count as int) =~= batches.take(count as int));
        lemma_no_room_stays(paths, batches.drop_last(), sizes, has_path_texture, capacity, count);
    }
}

/// Lays a scene out in an instance buffer of a size, batch by batch. It has no
/// room where the instances of a batch do not, or where there are paths and no
/// texture for them.
pub fn draw_primitives_to_texture(
    scene: &Scene,
    sizes: InstanceSizes,
    has_path_texture: bool,
    capacity: usize,
) -> (result: Result<EncodedScene, SceneTooLarge>)
    requires
        scene.wf(),
    ensures
        match encoding_of(scene.paths@, scene.batches@, sizes, has_path_texture, capacity as nat) {
            Some(encoding) => result matches Ok(encoded) && encoded@ == encoding && encoded.used
                <= capacity,
            None => result == Err::<EncodedScene, SceneTooLarge>(counts_of(*scene)),
        },
{
    let mut encoded: EncodedScene = EncodedScene { commands: Vec::new(), used: 0 };
    let mut index: usize = 0;
    assert(scene.batches@.take(0) =~= Seq::<PrimitiveBatch>::empty());
    while index < scene.batches.len()
        invariant
            scene.wf(),
            index <= scene.batches@.len(),
            encoded.used <= capacity,
            encoding_of(
                scene.paths@,
                scene.batches@.take(index as int),
                sizes,
                has_path_texture,
                capacity as nat,
            ) == Some(encoded@),
        decreases scene.batches@.len() - index,
    {
        let batch: PrimitiveBatch = scene.batches[index];
        let ghost next = scene.batches@.take(index + 1);
        assert(next.drop_last() =~= scene.batches@.take(index as int));
        assert(next.last() == batch);
        if !encode_batch(&mut encoded, scene, batch, sizes, has_path_texture, capacity) {
            proof {
                lemma_no_room_stays(
                    scene.paths@,
                    scene.batches@,
                    sizes,
                    has_path_texture,
                    capacity as nat,
                    (index + 1) as nat,
                );
                assert(scene.paths.len() == scene.paths@.len());
            }
            return Err(
                SceneTooLarge {
                    paths: scene.paths.len(),
                    shadows: scene.shadows,
                    quads: scene.quads,
                    underlines: scene.underlines,
                    monochrome_sprites: scene.monochrome_sprites,
                    polychrome_sprites: scene.polychrome_sprites,
                    surfaces: scene.surfaces,
                },
            );
        }
        index = index + 1;
    }
    assert(scene.batches@.take(index as int) =~= scene.batches@);
    Ok(encoded)
}

/// The first size, from one on and doubling up to a limit, in which a scene has
/// room.
pub open spec fn fitting_size(
    paths: Seq<ScenePath>,
    batches: Seq<PrimitiveBatch>,
    sizes: InstanceSizes,
    has_path_texture: bool,
    size: nat,
) -> Option<nat>
    decreases 2 * MAX_INSTANCE_BUFFER_SIZE - size,
{
    if encoding_of(paths, batches, sizes, has_path_texture, size) is Some {
        Some(size)
    } else if size >= MAX_INSTANCE_BUFFER_SIZE || size == 0 {
        None
    } else {
        fitting_size(paths, batches, sizes, has_path_texture, 2 * size)
    }
}

/// The first size, from one on and doubling, from which buffers do not grow.
pub open spec fn largest_size(size: nat) -> nat
    decreases 2 * MAX_INSTANCE_BUFFER_SIZE - size,
{
    if size >= MAX_INSTANCE_BUFFER_SIZE || size == 0 {
        size
    } else {
        largest_size(2 * size)
    }
}

/// A scene was laid out in a buffer out of a pool, whose buffers were replaced by
/// larger ones while it had no room, or has no room in the largest.
pub open spec fn encodes_in_pool<B>(
    before: InstanceBufferPool<B>,
    after: InstanceBufferPool<B>,
    unified_memory: bool,
    scene: Scene,
    sizes: InstanceSizes,
    has_path_texture: bool,
    result: Result<(EncodedScene, AcquiredBuffer<B>), InstanceBufferTooLarge>,
) -> bool {
        let start = before.buffer_size as nat;
        let left = if before.buffers@.len() > 0 {
            before.buffers@.drop_last()
        } else {
            before.buffers@
        };
        match fitting_size(scene.paths@, scene.batches@, sizes, has_path_texture, start) {
            Some(size) => {
                &&& after.buffer_size == size
                &&& result matches Ok((encoded, acquired)) && {
                    &&& Some(encoded@) == encoding_of(
                        scene.paths@,
                        scene.batches@,
                        sizes,
                        has_path_texture,
                        size,
                    )
                    &&& if size == start && before.buffers@.len() > 0 {
                        acquired == AcquiredBuffer::Reused(
                            (InstanceBuffer {
                                buffer: before.buffers@.last(),
                                size: before.buffer_size,
                            }),
                        )
                    } else {
                        acquired == (AcquiredBuffer::<B>::Create {
                            size: size as usize,
                            storage: instance_buffer::storage_for(unified_memory),
                        })
                    }
                }
                &&& if size == start {
                    after.buffers@ == left
                } else {
                    after.buffers@.len() == 0
                }
            },
            None => {
                &&& after.buffer_size == largest_size(start)
                &&& result matches Err(error) && error.size == largest_size(start)
                &&& if largest_size(start) == start {
                    after.buffers@ == left
                } else {
                    after.buffers@.len() == 0
                }
            },
        }
}

/// Lays a scene out in an instance buffer out of a pool. While it has no room,
/// the buffers of the pool are replaced by ones of twice the size, up to a limit.
pub fn encode_with_growing_buffers<B>(
    pool: &mut InstanceBufferPool<B>,
    unified_memory: bool,
    scene: &Scene,
    sizes: InstanceSizes,
    has_path_texture: bool,
) -> (result: Result<(EncodedScene, AcquiredBuffer<B>), InstanceBufferTooLarge>)
    requires
        scene.wf(),
        old(pool).buffer_size > 0,
    ensures
        final(pool).buffer_size >= old(pool).buffer_size,
        encodes_in_pool(
            *old(pool),
            *final(pool),
            unified_memory,
            *scene,
            sizes,
            has_path_texture,
            result,
        ),
{
    let ghost start = pool.buffer_size as nat;
    let ghost left = if pool.buffers@.len() > 0 {
        pool.buffers@.drop_last()
    } else {
        pool.buffers@
    };
    proof {
        lemma_sizes(scene.paths@, scene.batches@, sizes, has_path_texture, start);
    }
    loop
        invariant
            scene.wf(),
            start == old(pool).buffer_size,
            pool.buffer_size > 0,
            start <= pool.buffer_size,
            fitting_size(
                scene.paths@,
                scene.batches@,
                sizes,
                has_path_texture,
                pool.buffer_size as nat,
            ) == fitting_size(scene.paths@, scene.batches@, sizes, has_path_texture, start),
            largest_size(pool.buffer_size as nat) == largest_size(start),
            if pool.buffer_size == start {
                *pool == *old(pool)
            } else {
                pool.buffers@.len() == 0
            },
            left == if old(pool).buffers@.len() > 0 {
                old(pool).buffers@.drop_last()
            } else {
                old(pool).buffers@
            },
        decreases 2 * MAX_INSTANCE_BUFFER_SIZE - pool.buffer_size,
    {
        let acquired: AcquiredBuffer<B> = pool.acquire(unified_memory);
        let capacity: usize = pool.buffer_size;
        match draw_primitives_to_texture(scene, sizes, has_path_texture, capacity) {
            Ok(encoded) => {
                return Ok((encoded, acquired));
            },
            Err(_) => {
                match pool.grow() {
                    Ok(_) => {},
                    Err(error) => {
                        return Err(error);
                    },
                }
            },
        }
    }
}

proof fn lemma_sizes(
    paths: Seq<ScenePath>,
    batches: Seq<PrimitiveBatch>,
    sizes: InstanceSizes,
    has_path_texture: bool,
    size: nat,
)
    requires
        size > 0,
    ensures
        fitting_size(paths, batches, sizes, has_path_texture, size) matches Some(fitting)
            ==> fitting >= size,
        largest_size(size) >= size,
    decreases 2 * MAX_INSTANCE_BUFFER_SIZE - size,
{
    if size < MAX_INSTANCE_BUFFER_SIZE {
        lemma_sizes(paths, batches, sizes, has_path_texture, 2 * size);
    }
}

/// A rectangle that is copied from the texture of the paths.
#[derive(Clone, Copy, Debug, PartialEq, Eq, Structural)]
pub struct PathSprite {
    pub bounds: Bounds<ScaledPixels>,
}

/// What is drawn of a surface of its own, and what of it is seen.
#[derive(Clone, Copy, Debug, PartialEq, Eq, Structural)]
pub struct SurfaceBounds {
    pub bounds: Bounds<ScaledPixels>,
    pub content_mask: Bounds<ScaledPixels>,
}

/// The smallest rectangle round what is seen of some paths.
pub open spec fn span_of(paths: Seq<ScenePath>) -> Bounds<ScaledPixels>
    recommends
        paths.len() > 0,
    decreases paths.len(),
{
    if paths.len() <= 1 {
        paths[0].clipped()
    } else {
        span_of(paths.drop_last()).span(&paths.last().clipped())
    }
}

/// What is copied from the texture of the paths, so that no pixel is copied twice:
/// what is seen of each path where all have the same order, and are therefore
/// apart, one rectangle round all of them otherwise.
pub open spec fn sprites_of(paths: Seq<ScenePath>) -> Seq<PathSprite> {
    if paths.len() == 0 {
        Seq::empty()
    } else if paths.last().order == paths[0].order {
        Seq::new(paths.len(), |index: int| PathSprite { bounds: paths[index].clipped() })
    } else {
        seq![PathSprite { bounds: span_of(paths) }]
    }
}

/// What is copied from the texture of some paths.
pub fn path_sprites(paths: &Vec<ScenePath>, range: PrimitiveRange) -> (sprites: Vec<PathSprite>)
    requires
        range.fits(paths@.len()),
        forall|index: int|
            range.start <= index < range.end ==> (#[trigger] paths@[index]).bounds.is_near()
                && paths@[index].content_mask.is_near(),
    ensures
        sprites@ == sprites_of(paths@.subrange(range.start as int, range.end as int)),
        sprites@.len() == sprite_count(paths@.subrange(range.start as int, range.end as int)),
{
    let ghost chosen = paths@.subrange(range.start as int, range.end as int);
    let mut sprites: Vec<PathSprite> = Vec::new();
    if range.start == range.end {
        assert(sprites@ =~= sprites_of(chosen));
        return sprites;
    }
    if paths[range.end - 1].order == paths[range.start].order {
        let mut index: usize = range.start;
        while index < range.end
            invariant
                range.fits(paths@.len()),
                range.start <= index <= range.end,
                chosen == paths@.subrange(range.start as int, range.end as int),
                forall|index: int|
                    range.start <= index < range.end ==> (#[trigger] paths@[index]).bounds.is_near()
                        && paths@[index].content_mask.is_near(),
                sprites@ == Seq::new(
                    (index - range.start) as nat,
                    |place: int| PathSprite { bounds: chosen[place].clipped() },
                ),
            decreases range.end - index,
        {
            sprites.push(PathSprite { bounds: paths[index].clipped_bounds() });
            index = index + 1;
            assert(sprites@ =~= Seq::new(
                (index - range.start) as nat,
                |place: int| PathSprite { bounds: chosen[place].clipped() },
            ));
        }
        assert(sprites@ =~= sprites_of(chosen));
    } else {
        let mut bounds: Bounds<ScaledPixels> = paths[range.start].clipped_bounds();
        let mut index: usize = range.start + 1;
        while index < range.end
            invariant
                range.fits(paths@.len()),
                range.start < index <= range.end,
                chosen == paths@.subrange(range.start as int, range.end as int),
                forall|index: int|
                    range.start <= index < range.end ==> (#[trigger] paths@[index]).bounds.is_near()
                        && paths@[index].content_mask.is_near(),
                bounds.is_near(),
                bounds == span_of(chosen.take(index - range.start)),
            decreases range.end - index,
        {
            assert(chosen.take(index + 1 - range.start).drop_last() =~= chosen.take(
                index - range.start,
            ));
            bounds = bounds.enclose(&paths[index].clipped_bounds());
            index = index + 1;
        }
        assert(chosen.take(index - range.start) =~= chosen);
        sprites.push(PathSprite { bounds });
        assert(sprites@ =~= sprites_of(chosen));
    }
    sprites
}

/// A corner of an outline as it is written to the instance buffer: one of the
/// vertices of a path, and what of the path is seen.
#[derive(Clone, Copy, Debug, PartialEq, Eq, Structural)]
pub struct PathRasterizationVertex {
    /// The place of the path in the scene.
    pub path: usize,
    /// The place of the vertex in the path.
    pub vertex: usize,
    pub bounds: Bounds<ScaledPixels>,
}

/// The first vertices of a path.
pub open spec fn vertices_of_path(paths: Seq<ScenePath>, path: int, count: nat) -> Seq<
    PathRasterizationVertex,
> {
    Seq::new(
        count,
        |vertex: int|
            PathRasterizationVertex {
                path: path as usize,
                vertex: vertex as usize,
                bounds: paths[path].clipped(),
            },
    )
}

/// The vertices of the paths from one to just before another, path by path.
pub open spec fn vertices_between(paths: Seq<ScenePath>, start: int, end: int) -> Seq<
    PathRasterizationVertex,
>
    decreases end - start,
{
    if start >= end {
        Seq::empty()
    } else {
        vertices_between(paths, start, end - 1) + vertices_of_path(
            paths,
            end - 1,
            paths[end - 1].vertex_count as nat,
        )
    }
}

/// What is written to the instance buffer for the outlines of some paths: all their
/// vertices, path by path.
pub fn path_vertices(paths: &Vec<ScenePath>, range: PrimitiveRange) -> (vertices: Vec<
    PathRasterizationVertex,
>)
    requires
        range.fits(paths@.len()),
        forall|index: int|
            range.start <= index < range.end ==> (#[trigger] paths@[index]).bounds.is_near()
                && paths@[index].content_mask.is_near(),
    ensures
        vertices@ == vertices_between(paths@, range.start as int, range.end as int),
        vertices@.len() == vertex_total(paths@.subrange(range.start as int, range.end as int)),
{
    let mut vertices: Vec<PathRasterizationVertex> = Vec::new();
    let mut path: usize = range.start;
    assert(vertices@ =~= vertices_between(paths@, range.start as int, range.start as int));
    while path < range.end
        invariant
            range.fits(paths@.len()),
            range.start <= path <= range.end,
            forall|index: int|
                range.start <= index < range.end ==> (#[trigger] paths@[index]).bounds.is_near()
                    && paths@[index].content_mask.is_near(),
            vertices@ == vertices_between(paths@, range.start as int, path as int),
            vertices@.len() == vertex_total(paths@.subrange(range.start as int, path as int)),
        decreases range.end - path,
    {
        let bounds: Bounds<ScaledPixels> = paths[path].clipped_bounds();
        let count: usize = paths[path].vertex_count;
        let ghost before = vertices@;
        let mut vertex: usize = 0;
        assert(before =~= before + vertices_of_path(paths@, path as int, 0));
        while vertex < count
            invariant
                vertex <= count,
                path < paths@.len(),
                bounds == paths@[path as int].clipped(),
                vertices@ == before + vertices_of_path(paths@, path as int, vertex as nat),
            decreases count - vertex,
        {
            vertices.push(PathRasterizationVertex { path, vertex, bounds });
            vertex = vertex + 1;
            assert(vertices@ =~= before + vertices_of_path(paths@, path as int, vertex as nat));
        }
        proof {
            let more = paths@.subrange(range.start as int, path + 1);
            assert(more.drop_last() =~= paths@.subrange(range.start as int, path as int));
            assert(more.last() == paths@[path as int]);
        }
        path = path + 1;
    }
    vertices
}

/// Where the bytes of a step lie: from one offset to just before another.
pub open spec fn bytes_of(
    command: DrawCommand,
    paths: Seq<ScenePath>,
    sizes: InstanceSizes,
) -> Option<(nat, nat)> {
    match command {
        DrawCommand::ResumePass => None,
        DrawCommand::Instances { kind, first, count, offset } => {
            let size = match kind {
                InstanceKind::Shadow => sizes.shadow,
                InstanceKind::Quad => sizes.quad,
                InstanceKind::Underline => sizes.underline,
                InstanceKind::MonochromeSprite(_) => sizes.monochrome_sprite,
                InstanceKind::PolychromeSprite(_) => sizes.polychrome_sprite,
            };
            Some((offset as nat, offset as nat + (count as nat) * (size as nat)))
        },
        DrawCommand::RasterizePaths { range, offset } => Some(
            (
                offset as nat,
                offset as nat + vertex_total(
                    paths.subrange(range.start as int, range.end as int),
                ) * (sizes.path_vertex as nat),
            ),
        ),
        DrawCommand::PathSprites { range, count, offset } => Some(
            (offset as nat, offset as nat + (count as nat) * (sizes.path_sprite as nat)),
        ),
        DrawCommand::Surface { index, offset } => Some(
            (offset as nat, offset as nat + sizes.surface as nat),
        ),
    }
}

/// The bytes of the steps lie apart and in order, each from an aligned offset on,
/// all of them in what is used.
pub open spec fn lies_apart(encoding: Encoding, paths: Seq<ScenePath>, sizes: InstanceSizes) -> bool {
    &&& forall|index: int|
        0 <= index < encoding.commands.len() ==> (bytes_of(
            #[trigger] encoding.commands[index],
            paths,
            sizes,
        ) matches Some((start, end)) ==> start <= end <= encoding.used && start % (
        INSTANCE_ALIGNMENT as nat) == 0)
    &&& forall|first: int, second: int|
        0 <= first < second < encoding.commands.len() ==> (bytes_of(
            #[trigger] encoding.commands[first],
            paths,
            sizes,
        ) matches Some((first_start, first_end)) ==> (bytes_of(
            #[trigger] encoding.commands[second],
            paths,
            sizes,
        ) matches Some((second_start, second_end)) ==> first_end <= second_start))
}

proof fn lemma_step_lies_apart(
    encoding: Encoding,
    command: DrawCommand,
    start: nat,
    end: nat,
    paths: Seq<ScenePath>,
    sizes: InstanceSizes,
)
    requires
        lies_apart(encoding, paths, sizes),
        bytes_of(command, paths, sizes) matches Some(bytes) ==> bytes == (start, end),
        encoding.used <= start <= end,
        start % (INSTANCE_ALIGNMENT as nat) == 0,
    ensures
        lies_apart(
            Encoding { commands: encoding.commands.push(command), used: end },
            paths,
            sizes,
        ),
{
    let next = Encoding { commands: encoding.commands.push(command), used: end };
    assert forall|index: int| 0 <= index < next.commands.len() implies (bytes_of(
        #[trigger] next.commands[index],
        paths,
        sizes,
    ) matches Some((start, end)) ==> start <= end <= next.used && start % (INSTANCE_ALIGNMENT as nat)
        == 0) by {
        if index < encoding.commands.len() {
            assert(next.commands[index] == encoding.commands[index]);
        }
    }
    assert forall|first: int, second: int| 0 <= first < second < next.commands.len() implies (bytes_of(
        #[trigger] next.commands[first],
        paths,
        sizes,
    ) matches Some((first_start, first_end)) ==> (bytes_of(
        #[trigger] next.commands[second],
        paths,
        sizes,
    ) matches Some((second_start, second_end)) ==> first_end <= second_start)) by {
        assert(next.commands[first] == encoding.commands[first]);
        if second < encoding.commands.len() {
            assert(next.commands[second] == encoding.commands[second]);
        }
    }
}

proof fn lemma_placed(offset: nat, bytes: nat, capacity: nat)
    ensures
        placed(offset, bytes, capacity) matches Some(start) ==> offset <= start && start + bytes
            <= capacity && start % (INSTANCE_ALIGNMENT as nat) == 0,
{
    instance_buffer::law_alignment_is_least(offset, INSTANCE_ALIGNMENT as nat, 0);
}

proof fn lemma_surfaces_lie_apart(
    encoding: Encoding,
    range: PrimitiveRange,
    paths: Seq<ScenePath>,
    sizes: InstanceSizes,
    capacity: nat,
)
    requires
        lies_apart(encoding, paths, sizes),
        encoding.used <= capacity <= usize::MAX,
    ensures
        with_surfaces(encoding, range, sizes.surface, capacity) matches Some(next) ==> lies_apart(
            next,
            paths,
            sizes,
        ) && next.used <= capacity,
    decreases range.end - range.start,
{
    if range.start < range.end {
        lemma_placed(encoding.used, sizes.surface as nat, capacity);
        if let Some(start) = placed(encoding.used, sizes.surface as nat, capacity) {
            let command = DrawCommand::Surface { index: range.start, offset: start as usize };
            lemma_step_lies_apart(
                encoding,
                command,
                start,
                start + sizes.surface as nat,
                paths,
                sizes,
            );
            lemma_surfaces_lie_apart(
                Encoding {
                    commands: encoding.commands.push(command),
                    used: start + sizes.surface as nat,
                },
                PrimitiveRange { start: (range.start + 1) as usize, end: range.end },
                paths,
                sizes,
                capacity,
            );
        }
    }
}

proof fn lemma_batch_lies_apart(
    encoding: Encoding,
    batch: PrimitiveBatch,
    paths: Seq<ScenePath>,
    sizes: InstanceSizes,
    has_path_texture: bool,
    capacity: nat,
)
    requires
        lies_apart(encoding, paths, sizes),
        encoding.used <= capacity <= usize::MAX,
        paths.len() <= usize::MAX,
        match batch {
            PrimitiveBatch::Shadows(range) => range.start <= range.end,
            PrimitiveBatch::Quads(range) => range.start <= range.end,
            PrimitiveBatch::Paths(range) => range.fits(paths.len()),
            PrimitiveBatch::Underlines(range) => range.start <= range.end,
            PrimitiveBatch::MonochromeSprites { texture_id, range } => range.start <= range.end,
            PrimitiveBatch::PolychromeSprites { texture_id, range } => range.start <= range.end,
            PrimitiveBatch::Surfaces(range) => range.start <= range.end,
        },
    ensures
        with_batch(encoding, paths, batch, sizes, has_path_texture, capacity) matches Some(next)
            ==> lies_apart(next, paths, sizes) && next.used <= capacity,
{
    match batch {
        PrimitiveBatch::Shadows(range) => {
            lemma_instances_lie_apart(
                encoding,
                InstanceKind::Shadow,
                range,
                sizes.shadow,
                paths,
                sizes,
                capacity,
            );
        },
        PrimitiveBatch::Quads(range) => {
            lemma_instances_lie_apart(
                encoding,
                InstanceKind::Quad,
                range,
                sizes.quad,
                paths,
                sizes,
                capacity,
            );
        },
        PrimitiveBatch::Underlines(range) => {
            lemma_instances_lie_apart(
                encoding,
                InstanceKind::Underline,
                range,
                sizes.underline,
                paths,
                sizes,
                capacity,
            );
        },
        PrimitiveBatch::MonochromeSprites { texture_id, range } => {
            lemma_instances_lie_apart(
                encoding,
                InstanceKind::MonochromeSprite(texture_id),
                range,
                sizes.monochrome_sprite,
                paths,
                sizes,
                capacity,
            );
        },
        PrimitiveBatch::PolychromeSprites { texture_id, range } => {
            lemma_instances_lie_apart(
                encoding,
                InstanceKind::PolychromeSprite(texture_id),
                range,
                sizes.polychrome_sprite,
                paths,
                sizes,
                capacity,
            );
        },
        PrimitiveBatch::Surfaces(range) => {
            lemma_surfaces_lie_apart(encoding, range, paths, sizes, capacity);
        },
        PrimitiveBatch::Paths(range) => {
            let chosen = paths.subrange(range.start as int, range.end as int);
            if chosen.len() == 0 {
                assert(lies_apart(
                    Encoding { commands: encoding.commands.push(DrawCommand::ResumePass), ..encoding },
                    paths,
                    sizes,
                )) by {
                    lemma_pass_lies_apart(encoding, paths, sizes);
                }
            } else if has_path_texture {
                let vertices = vertex_total(chosen) * (sizes.path_vertex as nat);
                let count = sprite_count(chosen);
                let sprites = count * (sizes.path_sprite as nat);
                lemma_placed(encoding.used, vertices, capacity);
                if let Some(vertex_start) = placed(encoding.used, vertices, capacity) {
                    let rasterize = DrawCommand::RasterizePaths {
                        range,
                        offset: vertex_start as usize,
                    };
                    lemma_step_lies_apart(
                        encoding,
                        rasterize,
                        vertex_start,
                        vertex_start + vertices,
                        paths,
                        sizes,
                    );
                    let drawn = Encoding {
                        commands: encoding.commands.push(rasterize),
                        used: vertex_start + vertices,
                    };
                    lemma_pass_lies_apart(drawn, paths, sizes);
                    let resumed = Encoding {
                        commands: drawn.commands.push(DrawCommand::ResumePass),
                        ..drawn
                    };
                    lemma_placed(vertex_start + vertices, sprites, capacity);
                    if let Some(sprite_start) = placed(vertex_start + vertices, sprites, capacity) {
                        lemma_step_lies_apart(
                            resumed,
                            DrawCommand::PathSprites {
                                range,
                                count: count as usize,
                                offset: sprite_start as usize,
                            },
                            sprite_start,
                            sprite_start + sprites,
                            paths,
                            sizes,
                        );
                    }
                }
            }
        },
    }
}

proof fn lemma_pass_lies_apart(encoding: Encoding, paths: Seq<ScenePath>, sizes: InstanceSizes)
    requires
        lies_apart(encoding, paths, sizes),
    ensures
        lies_apart(
            Encoding { commands: encoding.commands.push(DrawCommand::ResumePass), ..encoding },
            paths,
            sizes,
        ),
{
    let next = Encoding { commands: encoding.commands.push(DrawCommand::ResumePass), ..encoding };
    assert forall|index: int| 0 <= index < next.commands.len() implies (bytes_of(
        #[trigger] next.commands[index],
        paths,
        sizes,
    ) matches Some((start, end)) ==> start <= end <= next.used && start % (INSTANCE_ALIGNMENT as nat)
        == 0) by {
        if index < encoding.commands.len() {
            assert(next.commands[index] == encoding.commands[index]);
        }
    }
    assert forall|first: int, second: int| 0 <= first < second < next.commands.len() implies (bytes_of(
        #[trigger] next.commands[first],
        paths,
        sizes,
    ) matches Some((first_start, first_end)) ==> (bytes_of(
        #[trigger] next.commands[second],
        paths,
        sizes,
    ) matches Some((second_start, second_end)) ==> first_end <= second_start)) by {
        assert(next.commands[first] == encoding.commands[first]);
        if second < encoding.commands.len() {
            assert(next.commands[second] == encoding.commands[second]);
        }
    }
}

proof fn lemma_instances_lie_apart(
    encoding: Encoding,
    kind: InstanceKind,
    range: PrimitiveRange,
    instance_size: usize,
    paths: Seq<ScenePath>,
    sizes: InstanceSizes,
    capacity: nat,
)
    requires
        lies_apart(encoding, paths, sizes),
        encoding.used <= capacity <= usize::MAX,
        range.start <= range.end,
        bytes_of(
            DrawCommand::Instances { kind, first: range.start, count: 1, offset: 0 },
            paths,
            sizes,
        ) == Some((0nat, 1 * (instance_size as nat))),
    ensures
        with_instances(encoding, kind, range, instance_size, capacity) matches Some(next)
            ==> lies_apart(next, paths, sizes) && next.used <= capacity,
{
    let bytes = range.count() * (instance_size as nat);
    lemma_placed(encoding.used, bytes, capacity);
    if range.count() > 0 {
        if let Some(start) = placed(encoding.used, bytes, capacity) {
            let command = DrawCommand::Instances {
                kind,
                first: range.start,
                count: range.count() as usize,
                offset: start as usize,
            };
            lemma_step_lies_apart(encoding, command, start, start + bytes, paths, sizes);
        }
    }
}

/// The bytes of a scene that has room lie apart in the buffer, in the order in
/// which they are drawn, each from an aligned offset on, all of them within it.
pub proof fn law_instances_lie_apart(
    scene: Scene,
    count: nat,
    sizes: InstanceSizes,
    has_path_texture: bool,
    capacity: nat,
)
    requires
        scene.wf(),
        scene.paths@.len() <= usize::MAX,
        count <= scene.batches@.len(),
        capacity <= usize::MAX,
    ensures
        encoding_of(
            scene.paths@,
            scene.batches@.take(count as int),
            sizes,
            has_path_texture,
            capacity,
        ) matches Some(encoding) ==> lies_apart(encoding, scene.paths@, sizes) && encoding.used
            <= capacity,
    decreases count,
{
    let batches = scene.batches@.take(count as int);
    if count > 0 {
        let before = (count - 1) as nat;
        law_instances_lie_apart(scene, before, sizes, has_path_texture, capacity);
        assert(batches.drop_last() =~= scene.batches@.take(before as int));
        assert(scene.has(scene.batches@[before as int]));
        if let Some(encoding) = encoding_of(
            scene.paths@,
            batches.drop_last(),
            sizes,
            has_path_texture,
            capacity,
        ) {
            lemma_batch_lies_apart(
                encoding,
                batches.last(),
                scene.paths@,
                sizes,
                has_path_texture,
                capacity,
            );
        }
    }
}

proof fn lemma_surfaces_keep_room(
    encoding: Encoding,
    range: PrimitiveRange,
    instance_size: usize,
    capacity: nat,
    larger: nat,
)
    requires
        capacity <= larger,
        with_surfaces(encoding, range, instance_size, capacity) is Some,
    ensures
        with_surfaces(encoding, range, instance_size, larger) == with_surfaces(
            encoding,
            range,
            instance_size,
            capacity,
        ),
    decreases range.end - range.start,
{
    if range.start < range.end {
        let start = placed(encoding.used, instance_size as nat, capacity)->0;
        lemma_surfaces_keep_room(
            Encoding {
                commands: encoding.commands.push(
                    DrawCommand::Surface { index: range.start, offset: start as usize },
                ),
                used: start + instance_size as nat,
            },
            PrimitiveRange { start: (range.start + 1) as usize, end: range.end },
            instance_size,
            capacity,
            larger,
        );
    }
}

proof fn lemma_batch_keeps_room(
    encoding: Encoding,
    paths: Seq<ScenePath>,
    batch: PrimitiveBatch,
    sizes: InstanceSizes,
    has_path_texture: bool,
    capacity: nat,
    larger: nat,
)
    requires
        capacity <= larger,
        with_batch(encoding, paths, batch, sizes, has_path_texture, capacity) is Some,
    ensures
        with_batch(encoding, paths, batch, sizes, has_path_texture, larger) == with_batch(
            encoding,
            paths,
            batch,
            sizes,
            has_path_texture,
            capacity,
        ),
{
    match batch {
        PrimitiveBatch::Surfaces(range) => {
            lemma_surfaces_keep_room(encoding, range, sizes.surface, capacity, larger);
        },
        PrimitiveBatch::Paths(range) => {
            let chosen = paths.subrange(range.start as int, range.end as int);
            let vertices = vertex_total(chosen) * (sizes.path_vertex as nat);
            assert(placed(encoding.used, vertices, capacity) is Some ==> placed(
                encoding.used,
                vertices,
                larger,
            ) == placed(encoding.used, vertices, capacity));
        },
        _ => {},
    }
}

/// A scene that has room in a buffer is laid out alike in every larger one: to
/// grow the buffers never takes the room away.
pub proof fn law_larger_buffers_keep_the_layout(
    paths: Seq<ScenePath>,
    batches: Seq<PrimitiveBatch>,
    sizes: InstanceSizes,
    has_path_texture: bool,
    capacity: nat,
    larger: nat,
)
    requires
        capacity <= larger,
        encoding_of(paths, batches, sizes, has_path_texture, capacity) is Some,
    ensures
        encoding_of(paths, batches, sizes, has_path_texture, larger) == encoding_of(
            paths,
            batches,
            sizes,
            has_path_texture,
            capacity,
        ),
    decreases batches.len(),
{
    if batches.len() > 0 {
        law_larger_buffers_keep_the_layout(
            paths,
            batches.drop_last(),
            sizes,
            has_path_texture,
            capacity,
            larger,
        );
        let encoding = encoding_of(
            paths,
            batches.drop_last(),
            sizes,
            has_path_texture,
            capacity,
        )->0;
        lemma_batch_keeps_room(
            encoding,
            paths,
            batches.last(),
            sizes,
            has_path_texture,
            capacity,
            larger,
        );
    }
}

/// Buffers that start below the limit stay below twice the limit.
pub proof fn law_buffer_sizes_are_bounded(
    paths: Seq<ScenePath>,
    batches: Seq<PrimitiveBatch>,
    sizes: InstanceSizes,
    has_path_texture: bool,
    size: nat,
)
    requires
        0 < size < MAX_INSTANCE_BUFFER_SIZE,
    ensures
        largest_size(size) < 2 * MAX_INSTANCE_BUFFER_SIZE,
        fitting_size(paths, batches, sizes, has_path_texture, size) matches Some(fitting)
            ==> fitting <= largest_size(size),
    decreases 2 * MAX_INSTANCE_BUFFER_SIZE - size,
{
    if 2 * size < MAX_INSTANCE_BUFFER_SIZE {
        law_buffer_sizes_are_bounded(paths, batches, sizes, has_path_texture, 2 * size);
        lemma_sizes(paths, batches, sizes, has_path_texture, 2 * size);
    } else {
        reveal_with_fuel(largest_size, 2);
        reveal_with_fuel(fitting_size, 2);
    }
}

} // verus!
