//! A text system without fonts: every character is as wide as any other, and those
//! that take two units of UTF-16 are twice as wide.

use crate::geometry::{Bounds, DevicePixels, Point, Size};
use crate::text::chars_of;
use crate::window::options::TextRenderingMode;
use vstd::prelude::*;

verus! {

/// A font.
#[derive(Clone, Copy, Debug, PartialEq, Eq, Structural)]
pub struct FontId(pub usize);

/// A glyph.
#[derive(Clone, Copy, Debug, PartialEq, Eq, Structural)]
pub struct GlyphId(pub u32);

/// A rectangle in units of a font.
#[derive(Clone, Copy, Debug, PartialEq, Eq, Structural)]
pub struct FontBounds {
    pub x: i32,
    pub y: i32,
    pub width: i32,
    pub height: i32,
}

/// The measures of a font, in its units.
#[derive(Clone, Copy, Debug, PartialEq, Eq, Structural)]
pub struct FontMetrics {
    pub units_per_em: u32,
    pub ascent: i32,
    pub descent: i32,
    pub line_gap: i32,
    pub underline_position: i32,
    pub underline_thickness: i32,
    pub cap_height: i32,
    pub x_height: i32,
    pub bounding_box: FontBounds,
}

/// A glyph at its place in a line.
#[derive(Clone, Copy, Debug, PartialEq, Eq, Structural)]
pub struct ShapedGlyph {
    pub id: GlyphId,
    /// How many ems it stands from the start of the line.
    pub position: usize,
    /// The byte of the text at which its character starts.
    pub index: usize,
    pub is_emoji: bool,
}

/// Glyphs of one font.
#[derive(Clone, Debug)]
pub struct ShapedRun {
    pub font_id: FontId,
    pub glyphs: Vec<ShapedGlyph>,
}

/// A line of text as it is set.
#[derive(Clone, Debug)]
pub struct LineLayout {
    /// How many ems the line is wide.
    pub width: usize,
    pub runs: Vec<ShapedRun>,
    /// How many bytes the text has.
    pub len: usize,
}

/// How many bytes a character takes in UTF-8.
pub open spec fn utf8_len(c: char) -> nat {
    if (c as u32) < 0x80 {
        1
    } else if (c as u32) < 0x800 {
        2
    } else if (c as u32) < 0x1_0000 {
        3
    } else {
        4
    }
}

/// How many units a character takes in UTF-16.
pub open spec fn utf16_len(c: char) -> nat {
    if (c as u32) < 0x1_0000 {
        1
    } else {
        2
    }
}

/// How many bytes some text takes in UTF-8.
pub open spec fn byte_len(text: Seq<char>) -> nat
    decreases text.len(),
{
    if text.len() == 0 {
        0
    } else {
        byte_len(text.drop_last()) + utf8_len(text.last())
    }
}

/// How many ems some text is wide: one for each unit of UTF-16.
pub open spec fn em_len(text: Seq<char>) -> nat
    decreases text.len(),
{
    if text.len() == 0 {
        0
    } else {
        em_len(text.drop_last()) + utf16_len(text.last())
    }
}

fn utf8_bytes(c: char) -> (bytes: usize)
    ensures
        bytes == utf8_len(c),
{
    let code: u32 = c as u32;
    if code < 0x80 {
        1
    } else if code < 0x800 {
        2
    } else if code < 0x1_0000 {
        3
    } else {
        4
    }
}

/// The glyph that stands for a character of a line, at its place.
pub open spec fn glyph_at(text: Seq<char>, place: int) -> ShapedGlyph {
    ShapedGlyph {
        id: GlyphId(utf16_len(text[place]) as u32),
        position: em_len(text.take(place)) as usize,
        index: byte_len(text.take(place)) as usize,
        is_emoji: utf16_len(text[place]) == 2,
    }
}

/// A text system without fonts.
#[derive(Clone, Copy, Debug, PartialEq, Eq, Structural)]
pub struct NoopTextSystem {}

impl NoopTextSystem {
    /// A text system without fonts.
    pub fn new() -> (system: Self)
        ensures
            system == (NoopTextSystem {  }),
    {
        NoopTextSystem {  }
    }

    /// The names of the fonts: there are none.
    pub fn all_font_names(&self) -> (names: Vec<String>)
        ensures
            names@.len() == 0,
    {
        Vec::new()
    }

    /// The font for a description: the same for all.
    pub fn font_id(&self) -> (font_id: FontId)
        ensures
            font_id == FontId(1),
    {
        FontId(1)
    }

    /// The measures of every font.
    pub fn font_metrics(&self, _font_id: FontId) -> (metrics: FontMetrics)
        ensures
            metrics.units_per_em == 1000,
            metrics.ascent == 1025,
            metrics.descent == -275,
            metrics.line_gap == 0,
            metrics.underline_position == -95,
            metrics.underline_thickness == 60,
            metrics.cap_height == 698,
            metrics.x_height == 516,
            metrics.bounding_box.x == -260,
            metrics.bounding_box.y == -245,
            metrics.bounding_box.width == 1501,
            metrics.bounding_box.height == 1364,
    {
        FontMetrics {
            units_per_em: 1000,
            ascent: 1025,
            descent: -275,
            line_gap: 0,
            underline_position: -95,
            underline_thickness: 60,
            cap_height: 698,
            x_height: 516,
            bounding_box: FontBounds { x: -260, y: -245, width: 1501, height: 1364 },
        }
    }

    /// The extent of every glyph, in units of its font.
    pub fn typographic_bounds(&self, _font_id: FontId, _glyph_id: GlyphId) -> (bounds: FontBounds)
        ensures
            bounds == (FontBounds { x: 54, y: 0, width: 392, height: 528 }),
    {
        FontBounds { x: 54, y: 0, width: 392, height: 528 }
    }

    /// How far a glyph moves the line on, in units of its font.
    pub fn advance(&self, _font_id: FontId, glyph_id: GlyphId) -> (units: u64)
        ensures
            units == 600 * glyph_id.0,
    {
        600 * glyph_id.0 as u64
    }

    /// The glyph of a character: numbered by how many units it takes in UTF-16.
    pub fn glyph_for_char(&self, _font_id: FontId, c: char) -> (glyph: Option<GlyphId>)
        ensures
            glyph == Some(GlyphId(utf16_len(c) as u32)),
    {
        let units: u32 = if (c as u32) < 0x1_0000 {
            1
        } else {
            2
        };
        Some(GlyphId(units))
    }

    /// The pixels of a glyph: none.
    pub fn glyph_raster_bounds(&self) -> (bounds: Bounds<DevicePixels>)
        ensures
            bounds == Bounds::spec_at_origin(
                (Size { width: DevicePixels(0), height: DevicePixels(0) }),
            ),
    {
        Bounds {
            origin: Point { x: DevicePixels(0), y: DevicePixels(0) },
            size: Size { width: DevicePixels(0), height: DevicePixels(0) },
        }
    }

    /// The image of a glyph: as large as asked, without pixels.
    pub fn rasterize_glyph(&self, raster_bounds: Bounds<DevicePixels>) -> (image: (
        Size<DevicePixels>,
        Vec<u8>,
    ))
        ensures
            image.0 == raster_bounds.size,
            image.1@.len() == 0,
    {
        (raster_bounds.size, Vec::new())
    }

    /// How glyphs are drawn.
    pub fn recommended_rendering_mode(&self, _font_id: FontId) -> (mode: TextRenderingMode)
        ensures
            mode == TextRenderingMode::Grayscale,
    {
        TextRenderingMode::Grayscale
    }

    /// Sets a line of text: one glyph for each character, in one run, none where there
    /// is no text.
    pub fn layout_line(&self, text: &str) -> (line: LineLayout)
        requires
            byte_len(text@) <= usize::MAX,
        ensures
            line.width == em_len(text@),
            line.len == byte_len(text@),
            if text@.len() == 0 {
                line.runs@.len() == 0
            } else {
                &&& line.runs@.len() == 1
                &&& line.runs@[0].font_id == FontId(0)
                &&& line.runs@[0].glyphs@ == Seq::new(
                    text@.len(),
                    |place: int| glyph_at(text@, place),
                )
            },
    {
        let chars: Vec<char> = chars_of(text);
        let mut glyphs: Vec<ShapedGlyph> = Vec::new();
        let mut position: usize = 0;
        let mut index: usize = 0;
        let mut place: usize = 0;
        proof {
            assert(text@.take(0) =~= Seq::<char>::empty());
        }
        while place < chars.len()
            invariant
                place <= chars@.len(),
                chars@ == text@,
                byte_len(text@) <= usize::MAX,
                position == em_len(text@.take(place as int)),
                index == byte_len(text@.take(place as int)),
                glyphs@ == Seq::new(place as nat, |done: int| glyph_at(text@, done)),
            decreases chars@.len() - place,
        {
            let c: char = chars[place];
            proof {
                lemma_lengths_grow(text@, (place + 1) as nat);
                assert(text@.take(place + 1).drop_last() =~= text@.take(place as int));
            }
            if let Some(glyph) = self.glyph_for_char(FontId(0), c) {
                let is_emoji: bool = glyph.0 == 2;
                glyphs.push(ShapedGlyph { id: glyph, position, index, is_emoji });
                position = position + if is_emoji {
                    2
                } else {
                    1
                };
            }
            index = index + utf8_bytes(c);
            place = place + 1;
            assert(glyphs@ =~= Seq::new(place as nat, |done: int| glyph_at(text@, done)));
        }
        assert(text@.take(place as int) =~= text@);
        let mut runs: Vec<ShapedRun> = Vec::new();
        if glyphs.len() > 0 {
            runs.push(ShapedRun { font_id: FontId(0), glyphs });
        }
        LineLayout { width: position, runs, len: index }
    }
}

impl Default for NoopTextSystem {
    fn default() -> (system: Self)
        ensures
            system == (NoopTextSystem {  }),
    {
        NoopTextSystem::new()
    }
}

proof fn lemma_lengths_grow(text: Seq<char>, count: nat)
    requires
        count <= text.len(),
    ensures
        byte_len(text.take(count as int)) <= byte_len(text),
        em_len(text.take(count as int)) <= byte_len(text.take(count as int)),
    decreases text.len(),
{
    if count == text.len() {
        assert(text.take(count as int) =~= text);
        if count > 0 {
            assert(text.drop_last().take(count - 1) =~= text.drop_last());
            lemma_lengths_grow(text.drop_last(), (count - 1) as nat);
        }
    } else {
        assert(text.drop_last().take(count as int) =~= text.take(count as int));
        lemma_lengths_grow(text.drop_last(), count);
    }
}

/// The glyphs of a line stand one behind the other: each starts where the one before
/// it ends.
pub proof fn law_glyphs_follow_one_another(text: Seq<char>, place: int)
    requires
        0 <= place < text.len() - 1,
        byte_len(text) <= usize::MAX,
    ensures
        glyph_at(text, place + 1).position == glyph_at(text, place).position + glyph_at(
            text,
            place,
        ).id.0,
        glyph_at(text, place + 1).index == glyph_at(text, place).index + utf8_len(text[place]),
{
    assert(text.take(place + 1).drop_last() =~= text.take(place));
    lemma_lengths_grow(text, place as nat);
    lemma_lengths_grow(text, (place + 1) as nat);
}

} // verus!
