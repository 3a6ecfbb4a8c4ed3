use editor_platform::atlas::{
    AtlasKey, AtlasTextureKind, AtlasTextureList, RenderGlyphParams, RenderImageParams,
    RenderSvgParams, TileId,
};
use editor_platform::geometry::{
    point, size, Bounds, DevicePixels, Pixels, Point, UNITS_PER_PIXEL,
};
use editor_platform::input::{InputHandler, PlatformInputHandler, UTF16Selection};
use editor_platform::text_system::{FontBounds, FontId, GlyphId, NoopTextSystem};
use editor_platform::window::options::TextRenderingMode;
use std::ops::Range;

#[test]
fn tiles_are_numbered_by_the_allocator() {
    let mut allocator = etagere::BucketedAtlasAllocator::new(etagere::size2(256, 256));
    for _ in 0..4 {
        let allocation = allocator.allocate(etagere::size2(20, 20)).expect("there is room");
        let tile = TileId::from(allocation.id);
        assert_eq!(tile, TileId(allocation.id.serialize()));
        assert_eq!(tile.alloc_id(), allocation.id);
        assert_eq!(TileId::through_allocator(tile.0), tile);
    }
    assert_eq!(TileId::through_allocator(12_345), TileId(12_345));
}

#[test]
fn images_go_to_textures_of_their_kind() {
    let glyph = |is_emoji, subpixel_rendering| {
        AtlasKey::from(RenderGlyphParams { font_id: 1, glyph_id: 2, is_emoji, subpixel_rendering })
            .texture_kind()
    };
    assert_eq!(glyph(true, false), AtlasTextureKind::Polychrome);
    assert_eq!(glyph(true, true), AtlasTextureKind::Polychrome);
    assert_eq!(glyph(false, true), AtlasTextureKind::Subpixel);
    assert_eq!(glyph(false, false), AtlasTextureKind::Monochrome);
    let svg = RenderSvgParams { path: 3, width: DevicePixels(4), height: DevicePixels(5) };
    assert_eq!(AtlasKey::from(svg).texture_kind(), AtlasTextureKind::Monochrome);
    let image = RenderImageParams { image_id: 6, frame_index: 0 };
    assert_eq!(AtlasKey::from(image).texture_kind(), AtlasTextureKind::Polychrome);
}

#[test]
fn walk_meets_every_texture() {
    let mut list = AtlasTextureList { textures: vec![Some('a'), None, Some('c')], free_list: vec![1] };
    assert_eq!(list.occupied(), vec![0, 2]);
    assert_eq!(list.index(1), &None);
    *list.get_mut(2) = Some('d');
    assert_eq!(list.index(2), &Some('d'));
    assert_eq!(list.drain(), vec![Some('a'), None, Some('d')]);
    assert!(list.textures.is_empty());
    assert!(list.free_list.is_empty());
    assert!(AtlasTextureList::<char>::default().occupied().is_empty());
}

#[test]
fn glyphs_follow_one_another() {
    let system = NoopTextSystem::default();
    let line = system.layout_line("a\u{e9}\u{1f600}b");
    assert_eq!(line.width, 5);
    assert_eq!(line.len, 8);
    assert_eq!(line.runs.len(), 1);
    assert_eq!(line.runs[0].font_id, FontId(0));
    let placed: Vec<(u32, usize, usize, bool)> = line.runs[0]
        .glyphs
        .iter()
        .map(|glyph| (glyph.id.0, glyph.position, glyph.index, glyph.is_emoji))
        .collect();
    assert_eq!(
        placed,
        vec![(1, 0, 0, false), (1, 1, 1, false), (2, 2, 3, true), (1, 4, 7, false)]
    );
    let empty = system.layout_line("");
    assert_eq!((empty.width, empty.len, empty.runs.len()), (0, 0, 0));
}

#[test]
fn every_font_measures_alike() {
    let system = NoopTextSystem::new();
    assert!(system.all_font_names().is_empty());
    assert_eq!(system.font_id(), FontId(1));
    let metrics = system.font_metrics(FontId(7));
    assert_eq!((metrics.units_per_em, metrics.ascent, metrics.descent), (1000, 1025, -275));
    assert_eq!(
        metrics.bounding_box,
        FontBounds { x: -260, y: -245, width: 1501, height: 1364 }
    );
    assert_eq!(
        system.typographic_bounds(FontId(1), GlyphId(1)),
        FontBounds { x: 54, y: 0, width: 392, height: 528 }
    );
    assert_eq!(system.advance(FontId(1), GlyphId(2)), 1200);
    assert_eq!(system.glyph_for_char(FontId(1), 'x'), Some(GlyphId(1)));
    assert_eq!(system.glyph_for_char(FontId(1), '\u{1f600}'), Some(GlyphId(2)));
    let bounds = Bounds {
        origin: point(DevicePixels(1), DevicePixels(2)),
        size: size(DevicePixels(3), DevicePixels(4)),
    };
    assert_eq!(system.glyph_raster_bounds().size, size(DevicePixels(0), DevicePixels(0)));
    assert_eq!(system.rasterize_glyph(bounds), (bounds.size, vec![]));
    assert_eq!(
        system.recommended_rendering_mode(FontId(1)),
        TextRenderingMode::Grayscale
    );
}

/// Text in lines of ten characters, ten pixels high.
struct Lines {
    marked: Option<Range<usize>>,
    selection: Option<(Range<usize>, bool)>,
    last: usize,
    typed: String,
}

fn caret(place: usize) -> Bounds<Pixels> {
    Bounds {
        origin: point(
            Pixels((place % 10) as i64 * UNITS_PER_PIXEL),
            Pixels((place / 10) as i64 * 10 * UNITS_PER_PIXEL),
        ),
        size: size(Pixels(0), Pixels(10 * UNITS_PER_PIXEL)),
    }
}

impl InputHandler for Lines {
    fn selected_text_range(&mut self, ignore_disabled_input: bool) -> Option<UTF16Selection> {
        if !ignore_disabled_input {
            return None;
        }
        self.selection
            .clone()
            .map(|(range, reversed)| UTF16Selection { range, reversed })
    }

    fn marked_text_range(&mut self) -> Option<Range<usize>> {
        self.marked.clone()
    }

    fn text_for_range(
        &mut self,
        range_utf16: Range<usize>,
        adjusted_range: &mut Option<Range<usize>>,
    ) -> Option<String> {
        *adjusted_range = Some(0..range_utf16.end);
        Some(self.typed.clone())
    }

    fn replace_text_in_range(&mut self, _replacement_range: Option<Range<usize>>, text: &str) {
        self.typed.push_str(text);
    }

    fn replace_and_mark_text_in_range(
        &mut self,
        range_utf16: Option<Range<usize>>,
        new_text: &str,
        _new_selected_range: Option<Range<usize>>,
    ) {
        self.marked = range_utf16;
        self.typed.push_str(new_text);
    }

    fn unmark_text(&mut self) {
        self.marked = None;
    }

    fn bounds_for_range(&self, range_utf16: Range<usize>) -> Option<Bounds<Pixels>> {
        if range_utf16.start <= self.last {
            Some(caret(range_utf16.start))
        } else {
            None
        }
    }

    fn character_index_for_point(&mut self, _point: Point<Pixels>) -> Option<usize> {
        Some(42)
    }
}

fn lines(marked: Option<Range<usize>>, selection: Option<(Range<usize>, bool)>) -> Lines {
    Lines { marked, selection, last: 99, typed: String::new() }
}

#[test]
fn candidates_stand_at_the_head_of_the_selection() {
    let mut input = PlatformInputHandler::new(lines(None, Some((3..7, false))));
    assert_eq!(input.ime_candidate_bounds(), Some(caret(7)));
    let mut reversed = PlatformInputHandler::new(lines(None, Some((3..7, true))));
    assert_eq!(reversed.selected_bounds(), Some(caret(3)));
    let mut nothing = PlatformInputHandler::new(lines(None, None));
    assert_eq!(nothing.ime_candidate_bounds(), None);
}

#[test]
fn candidates_stand_at_the_line_of_the_caret() {
    let mut one_line = PlatformInputHandler::new(lines(Some(12..18), Some((15..17, false))));
    assert_eq!(one_line.ime_candidate_bounds(), Some(caret(12)));
    let mut wrapped = PlatformInputHandler::new(lines(Some(5..28), Some((24..25, false))));
    assert_eq!(wrapped.ime_candidate_bounds(), Some(caret(20)));
    let mut unseen = PlatformInputHandler::new(Lines {
        last: 9,
        ..lines(Some(5..28), Some((24..25, false)))
    });
    assert_eq!(unseen.ime_candidate_bounds(), Some(caret(5)));
}

#[test]
fn carets_a_tenth_of_a_pixel_apart_share_a_line() {
    let selection = UTF16Selection { range: 2..2, reversed: false };
    let tilted = |step: i64| {
        PlatformInputHandler::<Lines>::compute_ime_candidate_bounds(
            Some(0..2),
            &selection,
            move |range: Range<usize>| {
                Some(Bounds {
                    origin: point(Pixels(0), Pixels(range.start as i64 * step)),
                    size: size(Pixels(0), Pixels(0)),
                })
            },
        )
        .map(|bounds| bounds.origin.y)
    };
    assert_eq!(tilted(UNITS_PER_PIXEL / 40), Some(Pixels(0)));
    assert_eq!(tilted(UNITS_PER_PIXEL / 12), Some(Pixels(UNITS_PER_PIXEL / 12)));
    assert_eq!(tilted(UNITS_PER_PIXEL / 8), Some(Pixels(2 * (UNITS_PER_PIXEL / 8))));
}

#[test]
fn handlers_are_asked_while_the_window_is_open() {
    let mut input = PlatformInputHandler::new(lines(Some(1..2), Some((3..4, false))));
    assert_eq!(input.marked_text_range(), Some(1..2));
    assert!(input.selected_text_range(false).is_none());
    assert_eq!(input.selected_text_range(true).map(|selection| selection.range), Some(3..4));
    input.replace_text_in_range(None, "ab");
    input.dispatch_input("c");
    let mut adjusted = None;
    assert_eq!(input.text_for_range(1..3, &mut adjusted), Some("abc".to_string()));
    assert_eq!(adjusted, Some(0..3));
    input.replace_and_mark_text_in_range(Some(5..6), "d", None);
    assert_eq!(input.marked_text_range(), Some(5..6));
    input.unmark_text();
    assert_eq!(input.marked_text_range(), None);
    assert_eq!(input.bounds_for_range(4..4), Some(caret(4)));
    assert_eq!(input.character_index_for_point(point(Pixels(0), Pixels(0))), Some(42));
    assert!(input.apple_press_and_hold_enabled());
    assert!(input.accepts_text_input());
    assert!(input.query_accepts_text_input());
    assert!(!input.query_prefers_ime_for_printable_keys());

    input.window_closed();
    assert!(input.selected_text_range(true).is_none());
    assert_eq!(input.marked_text_range(), None);
    assert_eq!(input.bounds_for_range(4..4), None);
    assert_eq!(input.character_index_for_point(point(Pixels(0), Pixels(0))), None);
    assert_eq!(input.text_for_range(1..3, &mut adjusted), None);
    assert_eq!(input.ime_candidate_bounds(), None);
    assert_eq!(input.selected_bounds(), Some(caret(4)));
    assert!(input.query_accepts_text_input());
    assert!(!input.query_prefers_ime_for_printable_keys());
}
