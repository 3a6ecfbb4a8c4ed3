//! What a scene becomes in an instance buffer, told by its batches, and what rendering
//! is set up with.

use crate::geometry::{Bounds, DevicePixels, ScaledPixels, Size};
use crate::render::encode::{
    DrawCommand, Encoding, InstanceKind, InstanceSizes, PrimitiveBatch, PrimitiveRange, ScenePath,
};
use crate::render::resources::DeviceTraits;
use crate::render::{encode, instance_buffer, resources};
use vstd::prelude::*;

verus! {

/// A batch of instances adds one step of its own kind, with its own texture, from the
/// start of its range on and as long as the range, in the bytes that so many instances
/// of that kind take, behind what was used and at a multiple of 256. A batch without
/// instances adds nothing. It is drawn exactly where these bytes have room.
pub proof fn law_batches_draw_their_own_kind(
    encoding: Encoding,
    paths: Seq<ScenePath>,
    batch: PrimitiveBatch,
    sizes: InstanceSizes,
    has_path_texture: bool,
    capacity: nat,
)
    requires
        encoding.used <= capacity <= usize::MAX,
    ensures
        ({
            let next = encode::with_batch(
                encoding,
                paths,
                batch,
                sizes,
                has_path_texture,
                capacity,
            );
            &&& batch matches PrimitiveBatch::Shadows(range) ==> adds_instances(
                encoding,
                next,
                InstanceKind::Shadow,
                range,
                sizes.shadow,
                capacity,
            )
            &&& batch matches PrimitiveBatch::Quads(range) ==> adds_instances(
                encoding,
                next,
                InstanceKind::Quad,
                range,
                sizes.quad,
                capacity,
            )
            &&& batch matches PrimitiveBatch::Underlines(range) ==> adds_instances(
                encoding,
                next,
                InstanceKind::Underline,
                range,
                sizes.underline,
                capacity,
            )
            &&& batch matches PrimitiveBatch::MonochromeSprites { texture_id, range }
                ==> adds_instances(
                encoding,
                next,
                InstanceKind::MonochromeSprite(texture_id),
                range,
                sizes.monochrome_sprite,
                capacity,
            )
            &&& batch matches PrimitiveBatch::PolychromeSprites { texture_id, range }
                ==> adds_instances(
                encoding,
                next,
                InstanceKind::PolychromeSprite(texture_id),
                range,
                sizes.polychrome_sprite,
                capacity,
            )
        }),
{
    match batch {
        PrimitiveBatch::Shadows(range) => {
            lemma_instances(encoding, InstanceKind::Shadow, range, sizes.shadow, capacity);
        },
        PrimitiveBatch::Quads(range) => {
            lemma_instances(encoding, InstanceKind::Quad, range, sizes.quad, capacity);
        },
        PrimitiveBatch::Underlines(range) => {
            lemma_instances(encoding, InstanceKind::Underline, range, sizes.underline, capacity);
        },
        PrimitiveBatch::MonochromeSprites { texture_id, range } => {
            lemma_instances(
                encoding,
                InstanceKind::MonochromeSprite(texture_id),
                range,
                sizes.monochrome_sprite,
                capacity,
            );
        },
        PrimitiveBatch::PolychromeSprites { texture_id, range } => {
            lemma_instances(
                encoding,
                InstanceKind::PolychromeSprite(texture_id),
                range,
                sizes.polychrome_sprite,
                capacity,
            );
        },
        _ => {},
    }
}

/// One step draws the instances of a range behind what was used, or there is no room
/// for their bytes.
pub open spec fn adds_instances(
    before: Encoding,
    after: Option<Encoding>,
    kind: InstanceKind,
    range: PrimitiveRange,
    size: usize,
    capacity: nat,
) -> bool {
    let bytes = (range.end - range.start) * size;
    if range.end <= range.start {
        range.end == range.start ==> after == Some(before)
    } else {
        match after {
            Some(after) => {
                let added = after.commands.last();
                &&& after.commands.len() == before.commands.len() + 1
                &&& after.commands.drop_last() == before.commands
                &&& added matches DrawCommand::Instances { kind: drawn, first, count, offset }
                &&& drawn == kind
                &&& first == range.start
                &&& count == range.end - range.start
                &&& is_next_place(offset as int, before.used)
                &&& after.used == offset + bytes
                &&& after.used <= capacity
            },
            None => forall|offset: int| #[trigger]
                is_next_place(offset, before.used) ==> offset + bytes > capacity,
        }
    }
}

/// The first multiple of 256 that is not below what is used.
pub open spec fn is_next_place(offset: int, used: nat) -> bool {
    offset % 256 == 0 && used <= offset < used + 256
}

proof fn lemma_next_place(used: nat)
    ensures
        is_next_place(instance_buffer::aligned(used, 256) as int, used),
        forall|offset: int| #[trigger]
            is_next_place(offset, used) ==> offset == instance_buffer::aligned(used, 256),
{
    assert(((used + 255) / 256 * 256) % 256 == 0);
}

proof fn lemma_instances(
    encoding: Encoding,
    kind: InstanceKind,
    range: PrimitiveRange,
    size: usize,
    capacity: nat,
)
    requires
        encoding.used <= capacity <= usize::MAX,
    ensures
        adds_instances(
            encoding,
            encode::with_instances(encoding, kind, range, size, capacity),
            kind,
            range,
            size,
            capacity,
        ),
{
    lemma_next_place(encoding.used);
    if range.end > range.start {
        let count = range.count();
        assert(count * (size as nat) == (range.end - range.start) * size) by (nonlinear_arith)
            requires
                count == range.end - range.start,
        ;
        assert(count * (size as nat) >= 0) by (nonlinear_arith)
            requires
                count >= 0,
                size >= 0,
        ;
        if let Some(next) = encode::with_instances(encoding, kind, range, size, capacity) {
            assert(next.commands.drop_last() =~= encoding.commands);
        }
    }
}

/// Paths are drawn to their texture, then the pass over the surface goes on, and what
/// was drawn is copied: one rectangle for each path where the first and the last have
/// the same order, else one for all. Without a texture for them there is no room.
/// Without paths the pass only goes on.
pub proof fn law_paths_are_drawn_then_copied(
    encoding: Encoding,
    paths: Seq<ScenePath>,
    range: PrimitiveRange,
    sizes: InstanceSizes,
    has_path_texture: bool,
    capacity: nat,
)
    requires
        range.start <= range.end <= paths.len(),
        encoding.used <= capacity <= usize::MAX,
        paths.len() <= usize::MAX,
    ensures
        ({
            let drawn = range.end - range.start;
            let after = encode::with_batch(
                encoding,
                paths,
                PrimitiveBatch::Paths(range),
                sizes,
                has_path_texture,
                capacity,
            );
            let copies = if drawn == 0 {
                0int
            } else if paths[range.start as int].order == paths[range.end - 1].order {
                drawn
            } else {
                1
            };
            let vertex_bytes = encode::vertex_total(
                paths.subrange(range.start as int, range.end as int),
            ) * sizes.path_vertex;
            &&& drawn == 0 ==> (after matches Some(after) && after.used == encoding.used
                && after.commands == encoding.commands.push(DrawCommand::ResumePass))
            &&& drawn > 0 && !has_path_texture ==> after is None
            &&& drawn > 0 ==> (after matches Some(after) ==> {
                let start = encoding.commands.len() as int;
                &&& has_path_texture
                &&& after.commands.len() == start + 3
                &&& after.commands.take(start) == encoding.commands
                &&& after.commands[start + 1] == DrawCommand::ResumePass
                &&& after.commands[start] matches DrawCommand::RasterizePaths {
                    range: outlined,
                    offset: outlines,
                }
                &&& after.commands[start + 2] matches DrawCommand::PathSprites {
                    range: copied,
                    count,
                    offset: sprites,
                }
                &&& outlined == range
                &&& copied == range
                &&& count == copies
                &&& is_next_place(outlines as int, encoding.used)
                &&& is_next_place(sprites as int, (outlines + vertex_bytes) as nat)
                &&& after.used == sprites + copies * sizes.path_sprite
                &&& after.used <= capacity
            })
            &&& drawn > 0 && has_path_texture && after is None ==> forall|
                outlines: int,
                sprites: int,
            |
                #![trigger is_next_place(outlines, encoding.used), is_next_place(sprites, (outlines + vertex_bytes) as nat)]
                is_next_place(outlines, encoding.used) && is_next_place(
                    sprites,
                    (outlines + vertex_bytes) as nat,
                ) ==> sprites + copies * sizes.path_sprite > capacity
        }),
{
    let chosen = paths.subrange(range.start as int, range.end as int);
    lemma_next_place(encoding.used);
    let vertices = instance_buffer::aligned(encoding.used, 256);
    let vertex_bytes = encode::vertex_total(chosen) * (sizes.path_vertex as nat);
    assert(vertex_bytes >= 0) by (nonlinear_arith)
        requires
            vertex_bytes == encode::vertex_total(chosen) * (sizes.path_vertex as nat),
            encode::vertex_total(chosen) >= 0,
    ;
    lemma_next_place(vertices + vertex_bytes);
    if chosen.len() > 0 {
        assert(chosen[0] == paths[range.start as int]);
        assert(chosen.last() == paths[range.end - 1]);
        let copies = encode::sprite_count(chosen);
        assert(copies * (sizes.path_sprite as nat) >= 0) by (nonlinear_arith)
            requires
                copies >= 0,
        ;
        if let Some(after) = encode::with_paths(
            encoding,
            chosen,
            range,
            sizes,
            has_path_texture,
            capacity,
        ) {
            assert(after.commands.take(encoding.commands.len() as int) =~= encoding.commands);
        }
    }
}

/// Surfaces are drawn one by one, in their order, each in bytes of its own behind
/// those of the one before it.
pub proof fn law_surfaces_are_drawn_in_order(
    encoding: Encoding,
    paths: Seq<ScenePath>,
    range: PrimitiveRange,
    sizes: InstanceSizes,
    has_path_texture: bool,
    capacity: nat,
    place: int,
)
    requires
        range.start <= range.end,
        encoding.used <= capacity <= usize::MAX,
        0 <= place < range.end - range.start,
    ensures
        encode::with_batch(
            encoding,
            paths,
            PrimitiveBatch::Surfaces(range),
            sizes,
            has_path_texture,
            capacity,
        ) matches Some(after) ==> {
            let size = sizes.surface;
            let start = encoding.commands.len() as int;
            &&& after.commands.len() == start + (range.end - range.start)
            &&& after.commands.take(start) == encoding.commands
            &&& after.used <= capacity
            &&& after.commands[start + place] matches DrawCommand::Surface { index, offset }
            &&& index == range.start + place
            &&& offset % 256 == 0
            &&& offset + size <= after.used
            &&& place == 0 ==> is_next_place(offset as int, encoding.used)
            &&& place > 0 ==> (after.commands[start + place - 1] matches DrawCommand::Surface {
                index: previous,
                offset: previous_offset,
            } && is_next_place(offset as int, (previous_offset + size) as nat))
        },
{
    lemma_surfaces(encoding, range, sizes.surface, capacity);
    if let Some(after) = encode::with_surfaces(encoding, range, sizes.surface, capacity) {
        let start = encoding.commands.len() as int;
        assert(after.commands[start + place] is Surface);
        if place > 0 {
            assert(after.commands[start + (place - 1)] is Surface);
        }
    }
}

spec fn surface_offset(encoding: Encoding, place: int) -> int {
    match encoding.commands[place] {
        DrawCommand::Surface { index, offset } => offset as int,
        _ => -1,
    }
}

proof fn lemma_surfaces(encoding: Encoding, range: PrimitiveRange, size: usize, capacity: nat)
    requires
        range.start <= range.end,
        encoding.used <= capacity <= usize::MAX,
    ensures
        encode::with_surfaces(encoding, range, size, capacity) matches Some(after) ==> {
            let start = encoding.commands.len() as int;
            &&& after.commands.len() == start + (range.end - range.start)
            &&& after.commands.take(start) == encoding.commands
            &&& encoding.used <= after.used <= capacity
            &&& forall|place: int|
                0 <= place < range.end - range.start ==> {
                    let step = #[trigger] after.commands[start + place];
                    let before = if place == 0 {
                        encoding.used as int
                    } else {
                        surface_offset(after, start + place - 1) + size
                    };
                    &&& step matches DrawCommand::Surface { index, offset }
                    &&& index == range.start + place
                    &&& before >= 0
                    &&& is_next_place(offset as int, before as nat)
                    &&& offset + size <= after.used
                }
        },
    decreases range.end - range.start,
{
    if range.start < range.end {
        lemma_next_place(encoding.used);
        let placed = instance_buffer::aligned(encoding.used, 256);
        if placed + size <= capacity {
            let first = DrawCommand::Surface { index: range.start, offset: placed as usize };
            let middle = Encoding {
                commands: encoding.commands.push(first),
                used: placed + size as nat,
            };
            let rest = PrimitiveRange { start: (range.start + 1) as usize, end: range.end };
            lemma_surfaces(middle, rest, size, capacity);
            if let Some(after) = encode::with_surfaces(middle, rest, size, capacity) {
                let start = encoding.commands.len() as int;
                assert(after.commands[start] == after.commands.take(start + 1)[start]);
                assert(after.commands.take(start) =~= after.commands.take(start + 1).take(start));
                assert(middle.commands.take(start) =~= encoding.commands);
                assert forall|place: int| 0 <= place < range.end - range.start implies {
                    let step = #[trigger] after.commands[start + place];
                    let before = if place == 0 {
                        encoding.used as int
                    } else {
                        surface_offset(after, start + place - 1) + size
                    };
                    &&& step matches DrawCommand::Surface { index, offset }
                    &&& index == range.start + place
                    &&& before >= 0
                    &&& is_next_place(offset as int, before as nat)
                    &&& offset + size <= after.used
                } by {
                    if place > 0 {
                        assert(after.commands[(start + 1) + (place - 1)] == after.commands[start
                            + place]);
                    }
                }
            }
        }
    } else {
        assert(encoding.commands.take(encoding.commands.len() as int) =~= encoding.commands);
    }
}

/// The batches of a scene are drawn one after the other: the steps of earlier batches
/// stay as they are, and a scene without batches takes no step.
pub proof fn law_batches_are_drawn_in_order(
    paths: Seq<ScenePath>,
    batches: Seq<PrimitiveBatch>,
    batch: PrimitiveBatch,
    sizes: InstanceSizes,
    has_path_texture: bool,
    capacity: nat,
)
    ensures
        encode::encoding_of(paths, Seq::empty(), sizes, has_path_texture, capacity) == Some(
            Encoding { commands: Seq::empty(), used: 0 },
        ),
        encode::encoding_of(paths, batches, sizes, has_path_texture, capacity) is None
            ==> encode::encoding_of(paths, batches.push(batch), sizes, has_path_texture, capacity)
            is None,
        encode::encoding_of(paths, batches, sizes, has_path_texture, capacity) matches Some(
            before,
        ) ==> encode::encoding_of(paths, batches.push(batch), sizes, has_path_texture, capacity)
            == encode::with_batch(before, paths, batch, sizes, has_path_texture, capacity),
{
    assert(batches.push(batch).drop_last() =~= batches);
}

/// A scene gets buffers in which it has room, doubled no more often than needed. Where
/// it gets none, it has no room even in the first ones that are not doubled any more.
pub proof fn law_buffers_are_doubled_as_needed(
    paths: Seq<ScenePath>,
    batches: Seq<PrimitiveBatch>,
    sizes: InstanceSizes,
    has_path_texture: bool,
    size: nat,
)
    requires
        size > 0,
    ensures
        match encode::fitting_size(paths, batches, sizes, has_path_texture, size) {
            Some(fitting) => {
                &&& encode::encoding_of(
                    paths,
                    batches,
                    sizes,
                    has_path_texture,
                    fitting,
                ) is Some
                &&& fitting >= size
                &&& fitting > size ==> fitting % 2 == 0 && encode::encoding_of(
                    paths,
                    batches,
                    sizes,
                    has_path_texture,
                    fitting / 2,
                ) is None && fitting / 2 < 268_435_456
            },
            None => {
                &&& encode::encoding_of(
                    paths,
                    batches,
                    sizes,
                    has_path_texture,
                    encode::largest_size(size),
                ) is None
                &&& encode::largest_size(size) >= 268_435_456
            },
        },
    decreases 2 * instance_buffer::MAX_INSTANCE_BUFFER_SIZE - size,
{
    if encode::encoding_of(paths, batches, sizes, has_path_texture, size) is None && size
        < instance_buffer::MAX_INSTANCE_BUFFER_SIZE {
        law_buffers_are_doubled_as_needed(paths, batches, sizes, has_path_texture, 2 * size);
    }
}

/// The vertices of paths are told path by path: the first path contributes as many as
/// it has, numbered from zero on, each with what is seen of that path.
pub proof fn law_vertices_come_path_by_path(paths: Seq<ScenePath>, start: int, end: int, vertex: int)
    requires
        0 <= start < end <= paths.len() <= usize::MAX,
        0 <= vertex < paths[end - 1].vertex_count,
    ensures
        ({
            let before = encode::vertices_between(paths, start, end - 1);
            let all = encode::vertices_between(paths, start, end);
            &&& encode::vertices_between(paths, start, start).len() == 0
            &&& all.len() == before.len() + paths[end - 1].vertex_count
            &&& all.take(before.len() as int) == before
            &&& all[before.len() + vertex].path == end - 1
            &&& all[before.len() + vertex].vertex == vertex
            &&& all[before.len() + vertex].bounds == paths[end - 1].clipped()
        }),
{
    let before = encode::vertices_between(paths, start, end - 1);
    let all = encode::vertices_between(paths, start, end);
    assert(all.take(before.len() as int) =~= before);
}

/// The vertices of some paths are as many as the paths have together.
pub proof fn law_vertices_add_up(paths: Seq<ScenePath>, path: ScenePath)
    ensures
        encode::vertex_total(Seq::empty()) == 0,
        encode::vertex_total(paths.push(path)) == encode::vertex_total(paths) + path.vertex_count,
{
    assert(paths.push(path).drop_last() =~= paths);
}

/// What is seen of a path lies in the path and in its mask, and is as large as that
/// allows: each of its edges is one of theirs.
pub proof fn law_paths_are_clipped(path: ScenePath)
    requires
        path.bounds.is_near(),
        path.content_mask.is_near(),
    ensures
        ({
            let seen = path.clipped();
            let mask = path.content_mask;
            let seen_right = seen.origin.x.0 + seen.size.width.0;
            let path_right = path.bounds.origin.x.0 + path.bounds.size.width.0;
            let mask_right = mask.origin.x.0 + mask.size.width.0;
            let seen_bottom = seen.origin.y.0 + seen.size.height.0;
            let path_bottom = path.bounds.origin.y.0 + path.bounds.size.height.0;
            let mask_bottom = mask.origin.y.0 + mask.size.height.0;
            &&& seen.origin.x.0 >= path.bounds.origin.x.0
            &&& seen.origin.x.0 >= mask.origin.x.0
            &&& seen.origin.x.0 == path.bounds.origin.x.0 || seen.origin.x.0 == mask.origin.x.0
            &&& seen.origin.y.0 >= path.bounds.origin.y.0
            &&& seen.origin.y.0 >= mask.origin.y.0
            &&& seen.origin.y.0 == path.bounds.origin.y.0 || seen.origin.y.0 == mask.origin.y.0
            &&& seen_right <= path_right && seen_right <= mask_right
            &&& seen_right == path_right || seen_right == mask_right
            &&& seen_bottom <= path_bottom && seen_bottom <= mask_bottom
            &&& seen_bottom == path_bottom || seen_bottom == mask_bottom
        }),
{
}

/// Where the last path has the order of the first, each is copied by itself. Where it
/// has another, one rectangle is copied, which covers what is seen of each, and each
/// of its edges is that of one of them.
pub proof fn law_copies_cover_the_paths(paths: Seq<ScenePath>)
    requires
        paths.len() > 0,
        forall|index: int|
            0 <= index < paths.len() ==> (#[trigger] paths[index]).bounds.is_near()
                && paths[index].content_mask.is_near(),
    ensures
        ({
            let sprites = encode::sprites_of(paths);
            &&& paths.last().order == paths[0].order ==> sprites.len() == paths.len() && forall|
                index: int,
            |
                0 <= index < paths.len() ==> (#[trigger] sprites[index]).bounds
                    == paths[index].clipped()
            &&& paths.last().order != paths[0].order ==> sprites.len() == 1 && is_frame_of(
                sprites[0].bounds,
                paths,
            )
        }),
{
    lemma_span(paths);
}

/// A rectangle covers what is seen of each path, and each of its edges is that of one
/// of them.
pub open spec fn is_frame_of(frame: Bounds<ScaledPixels>, paths: Seq<ScenePath>) -> bool {
    &&& forall|index: int|
        0 <= index < paths.len() ==> {
            let seen = (#[trigger] paths[index]).clipped();
            &&& frame.origin.x.0 <= seen.origin.x.0
            &&& frame.origin.y.0 <= seen.origin.y.0
            &&& frame.origin.x.0 + frame.size.width.0 >= seen.origin.x.0 + seen.size.width.0
            &&& frame.origin.y.0 + frame.size.height.0 >= seen.origin.y.0 + seen.size.height.0
        }
    &&& exists|index: int|
        0 <= index < paths.len() && (#[trigger] paths[index]).clipped().origin.x.0
            == frame.origin.x.0
    &&& exists|index: int|
        0 <= index < paths.len() && (#[trigger] paths[index]).clipped().origin.y.0
            == frame.origin.y.0
    &&& exists|index: int|
        0 <= index < paths.len() && (#[trigger] paths[index]).clipped().origin.x.0
            + paths[index].clipped().size.width.0 == frame.origin.x.0 + frame.size.width.0
    &&& exists|index: int|
        0 <= index < paths.len() && (#[trigger] paths[index]).clipped().origin.y.0
            + paths[index].clipped().size.height.0 == frame.origin.y.0 + frame.size.height.0
}

proof fn lemma_span(paths: Seq<ScenePath>)
    requires
        paths.len() > 0,
        forall|index: int|
            0 <= index < paths.len() ==> (#[trigger] paths[index]).bounds.is_near()
                && paths[index].content_mask.is_near(),
    ensures
        is_frame_of(encode::span_of(paths), paths),
        encode::span_of(paths).is_near(),
    decreases paths.len(),
{
    let frame = encode::span_of(paths);
    let last = paths.len() - 1;
    assert(paths[last].clipped().is_near());
    if paths.len() == 1 {
        assert(paths[0].clipped() == frame);
    } else {
        let fewer = paths.drop_last();
        assert forall|index: int| 0 <= index < fewer.len() implies (
        #[trigger] fewer[index]).bounds.is_near() && fewer[index].content_mask.is_near() by {
            assert(fewer[index] == paths[index]);
        }
        lemma_span(fewer);
        let inner = encode::span_of(fewer);
        assert forall|index: int| 0 <= index < paths.len() implies {
            let seen = (#[trigger] paths[index]).clipped();
            &&& frame.origin.x.0 <= seen.origin.x.0
            &&& frame.origin.y.0 <= seen.origin.y.0
            &&& frame.origin.x.0 + frame.size.width.0 >= seen.origin.x.0 + seen.size.width.0
            &&& frame.origin.y.0 + frame.size.height.0 >= seen.origin.y.0 + seen.size.height.0
        } by {
            if index < last {
                assert(fewer[index] == paths[index]);
            }
        }
        let left = choose|index: int|
            0 <= index < fewer.len() && (#[trigger] fewer[index]).clipped().origin.x.0
                == inner.origin.x.0;
        let top = choose|index: int|
            0 <= index < fewer.len() && (#[trigger] fewer[index]).clipped().origin.y.0
                == inner.origin.y.0;
        let right = choose|index: int|
            0 <= index < fewer.len() && (#[trigger] fewer[index]).clipped().origin.x.0
                + fewer[index].clipped().size.width.0 == inner.origin.x.0 + inner.size.width.0;
        let bottom = choose|index: int|
            0 <= index < fewer.len() && (#[trigger] fewer[index]).clipped().origin.y.0
                + fewer[index].clipped().size.height.0 == inner.origin.y.0 + inner.size.height.0;
        assert(fewer[left] == paths[left]);
        assert(fewer[top] == paths[top]);
        assert(fewer[right] == paths[right]);
        assert(fewer[bottom] == paths[bottom]);
        assert(paths[left].clipped().origin.x.0 == frame.origin.x.0
            || paths[last].clipped().origin.x.0 == frame.origin.x.0);
        assert(paths[top].clipped().origin.y.0 == frame.origin.y.0
            || paths[last].clipped().origin.y.0 == frame.origin.y.0);
    }
}

/// Of two GPUs at most one is preferred to the other, and preferences follow on one
/// another. One that is built in is preferred to one that is not; of two of a kind,
/// one that saves power is preferred to one that does not.
pub proof fn law_built_in_gpus_come_first(
    first: DeviceTraits,
    second: DeviceTraits,
    third: DeviceTraits,
)
    ensures
        !(resources::is_preferred(first, second) && resources::is_preferred(second, first)),
        resources::is_preferred(first, second) && resources::is_preferred(second, third)
            ==> resources::is_preferred(first, third),
        !first.is_removable && second.is_removable ==> resources::is_preferred(first, second),
        first.is_removable == second.is_removable ==> (resources::is_preferred(first, second)
            == (first.is_low_power && !second.is_low_power)),
{
}

/// Paths get a texture of the size of the surface where that has pixels, and one for
/// samples where a pixel has several, which an Apple GPU keeps to itself.
pub proof fn law_path_textures_fit_the_surface(size: Size<DevicePixels>, samples: u32, apple: bool)
    ensures
        ({
            let textures = resources::path_textures(size, samples, apple);
            let has_pixels = size.width.0 > 0 && size.height.0 > 0;
            &&& textures.intermediate is Some == has_pixels
            &&& has_pixels ==> textures.intermediate == Some(size)
            &&& textures.multisample is Some == (has_pixels && samples > 1)
            &&& textures.multisample matches Some(multisample) ==> multisample.sample_count
                == samples && (multisample.storage is Memoryless == apple)
        }),
{
}

/// In every pixel the first and the third byte change places and the others stay;
/// bytes behind the last whole pixel stay.
pub proof fn law_red_and_blue_change_places(pixels: Seq<u8>, pixel: int)
    requires
        0 <= pixel,
        4 * pixel + 3 < pixels.len(),
    ensures
        ({
            let swapped = resources::with_red_and_blue_swapped(pixels);
            &&& swapped.len() == pixels.len()
            &&& swapped[4 * pixel] == pixels[4 * pixel + 2]
            &&& swapped[4 * pixel + 1] == pixels[4 * pixel + 1]
            &&& swapped[4 * pixel + 2] == pixels[4 * pixel]
            &&& swapped[4 * pixel + 3] == pixels[4 * pixel + 3]
        }),
{
}

/// The surfaces of a batch are drawn from the first on: where that has no room, none of
/// the batch is drawn, and else the others are drawn behind it.
pub proof fn law_surfaces_need_room(
    encoding: Encoding,
    paths: Seq<ScenePath>,
    range: PrimitiveRange,
    sizes: InstanceSizes,
    has_path_texture: bool,
    capacity: nat,
    offset: usize,
)
    requires
        is_next_place(offset as int, encoding.used),
    ensures
        ({
            let drawn = encode::with_batch(
                encoding,
                paths,
                PrimitiveBatch::Surfaces(range),
                sizes,
                has_path_texture,
                capacity,
            );
            &&& range.start >= range.end ==> drawn == Some(encoding)
            &&& range.start < range.end && offset + sizes.surface > capacity ==> drawn is None
            &&& range.start < range.end && offset + sizes.surface <= capacity ==> drawn
                == encode::with_batch(
                Encoding {
                    commands: encoding.commands.push(
                        DrawCommand::Surface { index: range.start, offset },
                    ),
                    used: (offset + sizes.surface) as nat,
                },
                paths,
                PrimitiveBatch::Surfaces(
                    PrimitiveRange { start: (range.start + 1) as usize, end: range.end },
                ),
                sizes,
                has_path_texture,
                capacity,
            )
        }),
{
    lemma_next_place(encoding.used);
}

} // verus!
