//! The words, numbers and colours that captures and reports show.

use crate::brackets::auto_mode::BracketColorizationPaletteStrategy;
use crate::brackets::palette::{Appearance, Hsla, Measure};
use crate::text;
use vstd::prelude::*;

verus! {

/// `2^40`, the value of one in a [`Measure`].
pub const MEASURE_ONE: u128 = 1_099_511_627_776;

/// Ten to the power of a small exponent.
pub open spec fn power_of_ten(exponent: nat) -> nat
    decreases exponent,
{
    if exponent == 0 {
        1
    } else {
        10 * power_of_ten((exponent - 1) as nat)
    }
}

/// The number nearest to `numerator / denominator`; of two equally near ones,
/// the even one.
pub open spec fn rounded(numerator: nat, denominator: nat) -> nat {
    let quotient = numerator / denominator;
    let twice = 2 * (numerator % denominator);
    if twice > denominator || (twice == denominator && quotient % 2 == 1) {
        quotient + 1
    } else {
        quotient
    }
}

/// The last `places` digits of a number, with leading zeros.
pub open spec fn last_digits(value: nat, places: nat) -> Seq<char>
    decreases places,
{
    if places == 0 {
        Seq::empty()
    } else {
        last_digits(value / 10, (places - 1) as nat).push(text::digit((value % 10) as int))
    }
}

/// The absolute value of a measure.
pub open spec fn magnitude(value: Measure) -> nat {
    if value < 0 {
        (-value) as nat
    } else {
        value as nat
    }
}

/// A measure in decimal notation with `places` digits after the point. The
/// unbounded measure reads as the greatest single-precision number.
pub open spec fn measure_text(value: Measure, places: nat) -> Seq<char> {
    if value == i64::MAX {
        "340282346638528859811704183484516925440."@ + last_digits(0, places)
    } else {
        let scaled = rounded(magnitude(value) * power_of_ten(places), MEASURE_ONE as nat);
        let sign = if value < 0 {
            "-"@
        } else {
            ""@
        };
        sign + text::decimal(scaled / power_of_ten(places)) + "."@ + last_digits(
            scaled % power_of_ten(places),
            places,
        )
    }
}

fn push_last_digits(chars: &mut Vec<char>, value: u128, places: u8)
    ensures
        final(chars)@ == old(chars)@ + last_digits(value as nat, places as nat),
    decreases places,
{
    if places > 0 {
        push_last_digits(chars, value / 10, places - 1);
        text::push_decimal(chars, value % 10);
        proof {
            let last = (value % 10) as nat;
            assert(text::decimal(last) =~= seq![text::digit(last as int)]);
            assert(chars@ =~= old(chars)@ + last_digits(value as nat, places as nat));
        }
    } else {
        assert(chars@ =~= old(chars)@ + last_digits(value as nat, 0));
    }
}

/// Appends a measure with one to three digits after the point.
pub fn push_measure(chars: &mut Vec<char>, value: Measure, places: u8)
    requires
        places <= 3,
    ensures
        final(chars)@ == old(chars)@ + measure_text(value, places as nat),
{
    if value == i64::MAX {
        text::push_text(chars, "340282346638528859811704183484516925440.");
        push_last_digits(chars, 0, places);
        assert(chars@ =~= old(chars)@ + measure_text(value, places as nat));
        return;
    }
    proof {
        reveal_with_fuel(power_of_ten, 4);
        reveal_strlit("");
    }
    let scale: u128 = if places == 0 {
        1
    } else if places == 1 {
        10
    } else if places == 2 {
        100
    } else {
        1000
    };
    assert(scale == power_of_ten(places as nat));
    let size: u128 = if value < 0 {
        (-(value as i128)) as u128
    } else {
        value as u128
    };
    assert(size == magnitude(value));
    assert(size * scale <= 0x8000_0000_0000_0000 * 1000) by (nonlinear_arith)
        requires
            size <= 0x8000_0000_0000_0000,
            scale <= 1000,
    ;
    let numerator: u128 = size * scale;
    let quotient: u128 = numerator / MEASURE_ONE;
    let twice: u128 = 2 * (numerator % MEASURE_ONE);
    let scaled: u128 = if twice > MEASURE_ONE || (twice == MEASURE_ONE && quotient % 2 == 1) {
        quotient + 1
    } else {
        quotient
    };
    assert(scaled == rounded(magnitude(value) * power_of_ten(places as nat), MEASURE_ONE as nat));
    if value < 0 {
        text::push_text(chars, "-");
    }
    text::push_decimal(chars, scaled / scale);
    text::push_text(chars, ".");
    push_last_digits(chars, scaled % scale, places);
    assert(chars@ =~= old(chars)@ + measure_text(value, places as nat));
}

/// A colour by its red, green, blue and opacity.
#[derive(Clone, Copy, Debug, PartialEq, Eq, Structural)]
pub struct RgbaBytes {
    pub red: u8,
    pub green: u8,
    pub blue: u8,
    pub alpha: u8,
}

/// The upper-case hexadecimal digit of a value below sixteen.
pub open spec fn hex_digit(value: int) -> char {
    if value < 10 {
        (0x30 + value) as char
    } else {
        (0x37 + value) as char
    }
}

/// A byte as two hexadecimal digits.
pub open spec fn hex_byte(value: u8) -> Seq<char> {
    seq![hex_digit(value as int / 16), hex_digit(value as int % 16)]
}

/// A colour as a hash sign and its bytes; the opacity only where it is not full.
pub open spec fn color_text(color: RgbaBytes) -> Seq<char> {
    let opaque = "#"@ + hex_byte(color.red) + hex_byte(color.green) + hex_byte(color.blue);
    if color.alpha == 255 {
        opaque
    } else {
        opaque + hex_byte(color.alpha)
    }
}

fn hex_char(value: u8) -> (c: char)
    requires
        value < 16,
    ensures
        c == hex_digit(value as int),
{
    if value < 10 {
        (0x30 + value) as char
    } else {
        (0x37 + value) as char
    }
}

fn push_hex_byte(chars: &mut Vec<char>, value: u8)
    ensures
        final(chars)@ == old(chars)@ + hex_byte(value),
{
    chars.push(hex_char(value / 16));
    chars.push(hex_char(value % 16));
    assert(chars@ =~= old(chars)@ + hex_byte(value));
}

/// Appends a colour.
pub fn push_color(chars: &mut Vec<char>, color: RgbaBytes)
    ensures
        final(chars)@ == old(chars)@ + color_text(color),
{
    text::push_text(chars, "#");
    push_hex_byte(chars, color.red);
    push_hex_byte(chars, color.green);
    push_hex_byte(chars, color.blue);
    if color.alpha != 255 {
        push_hex_byte(chars, color.alpha);
    }
    assert(chars@ =~= old(chars)@ + color_text(color));
}

/// Writes a colour as it stands in a theme file.
pub fn format_color(color: RgbaBytes) -> (result: String)
    ensures
        result@ == color_text(color),
{
    let mut chars: Vec<char> = Vec::new();
    push_color(&mut chars, color);
    assert(chars@ =~= color_text(color));
    text::string_of(&chars)
}

/// Writes each colour of a palette, for a theme override.
pub fn analysis_palette_overrides(palette: &Vec<RgbaBytes>) -> (overrides: Vec<String>)
    ensures
        overrides@.len() == palette@.len(),
        forall|i: int| 0 <= i < palette@.len() ==> (#[trigger] overrides@[i])@ == color_text(palette@[i]),
{
    let mut overrides: Vec<String> = Vec::new();
    let mut i: usize = 0;
    while i < palette.len()
        invariant
            i <= palette@.len(),
            overrides@.len() == i,
            forall|k: int| 0 <= k < i ==> (#[trigger] overrides@[k])@ == color_text(palette@[k]),
        decreases palette@.len() - i,
    {
        overrides.push(format_color(palette[i]));
        i = i + 1;
    }
    overrides
}

/// Whether a strategy moved accents to other places.
pub open spec fn spec_strategy_reordered(strategy: BracketColorizationPaletteStrategy) -> bool {
    strategy == BracketColorizationPaletteStrategy::ReorderedWeakPalette || strategy
        == BracketColorizationPaletteStrategy::AdjustedBackgroundAndReorderedPalette
}

/// Whether a strategy moved accents to other places.
pub fn strategy_reordered(strategy: BracketColorizationPaletteStrategy) -> (reordered: bool)
    ensures
        reordered == spec_strategy_reordered(strategy),
{
    match strategy {
        BracketColorizationPaletteStrategy::ReorderedWeakPalette => true,
        BracketColorizationPaletteStrategy::AdjustedBackgroundAndReorderedPalette => true,
        _ => false,
    }
}

/// Whether a strategy changed accents that were too close to the background.
pub open spec fn spec_strategy_adjusted_background(
    strategy: BracketColorizationPaletteStrategy,
) -> bool {
    strategy == BracketColorizationPaletteStrategy::AdjustedBackgroundPalette || strategy
        == BracketColorizationPaletteStrategy::AdjustedBackgroundAndReorderedPalette
}

/// Whether a strategy changed accents that were too close to the background.
pub fn strategy_adjusted_background(strategy: BracketColorizationPaletteStrategy) -> (adjusted: bool)
    ensures
        adjusted == spec_strategy_adjusted_background(strategy),
{
    match strategy {
        BracketColorizationPaletteStrategy::AdjustedBackgroundPalette => true,
        BracketColorizationPaletteStrategy::AdjustedBackgroundAndReorderedPalette => true,
        _ => false,
    }
}

/// What was done to a palette, in a few words.
pub open spec fn treatments_text(strategy: BracketColorizationPaletteStrategy) -> Seq<char> {
    match (spec_strategy_reordered(strategy), spec_strategy_adjusted_background(strategy)) {
        (true, true) => "minimal per-accent background fix + adjacency reorder"@,
        (true, false) => "adjacency reorder only"@,
        (false, true) => "minimal per-accent background fix only"@,
        (false, false) => "unchanged"@,
    }
}

/// What was done to a palette, in a few words.
pub fn strategy_treatments_label(strategy: BracketColorizationPaletteStrategy) -> (label: &'static str)
    ensures
        label@ == treatments_text(strategy),
{
    match (strategy_reordered(strategy), strategy_adjusted_background(strategy)) {
        (true, true) => "minimal per-accent background fix + adjacency reorder",
        (true, false) => "adjacency reorder only",
        (false, true) => "minimal per-accent background fix only",
        (false, false) => "unchanged",
    }
}

/// A strategy as the report names it.
pub open spec fn strategy_text(strategy: BracketColorizationPaletteStrategy) -> Seq<char> {
    match strategy {
        BracketColorizationPaletteStrategy::ThemeOrder => "theme order"@,
        BracketColorizationPaletteStrategy::PreservedSmallPalette => "palette too small to reorder"@,
        BracketColorizationPaletteStrategy::PreservedStrongPalette => "contrast already sufficient"@,
        BracketColorizationPaletteStrategy::PreservedWeakPalette => "weak palette kept in theme order"@,
        BracketColorizationPaletteStrategy::AdjustedBackgroundPalette => "adjusted only the background-failing accents"@,
        BracketColorizationPaletteStrategy::ReorderedWeakPalette => "reordered weak palette"@,
        BracketColorizationPaletteStrategy::AdjustedBackgroundAndReorderedPalette => "adjusted background-failing accents, then reordered"@,
    }
}

/// A strategy as the report names it.
pub fn strategy_label(strategy: BracketColorizationPaletteStrategy) -> (label: &'static str)
    ensures
        label@ == strategy_text(strategy),
{
    match strategy {
        BracketColorizationPaletteStrategy::ThemeOrder => "theme order",
        BracketColorizationPaletteStrategy::PreservedSmallPalette => "palette too small to reorder",
        BracketColorizationPaletteStrategy::PreservedStrongPalette => "contrast already sufficient",
        BracketColorizationPaletteStrategy::PreservedWeakPalette => {
            "weak palette kept in theme order"
        },
        BracketColorizationPaletteStrategy::AdjustedBackgroundPalette => {
            "adjusted only the background-failing accents"
        },
        BracketColorizationPaletteStrategy::ReorderedWeakPalette => "reordered weak palette",
        BracketColorizationPaletteStrategy::AdjustedBackgroundAndReorderedPalette => {
            "adjusted background-failing accents, then reordered"
        },
    }
}

pub open spec fn appearance_text(appearance: Appearance) -> Seq<char> {
    match appearance {
        Appearance::Light => "light"@,
        Appearance::Dark => "dark"@,
    }
}

/// The name of an appearance.
pub fn appearance_label(appearance: Appearance) -> (label: &'static str)
    ensures
        label@ == appearance_text(appearance),
{
    match appearance {
        Appearance::Light => "light",
        Appearance::Dark => "dark",
    }
}

pub open spec fn yes_or_no_text(value: bool) -> Seq<char> {
    if value {
        "yes"@
    } else {
        "no"@
    }
}

/// `yes` or `no`.
pub fn yes_or_no(value: bool) -> (label: &'static str)
    ensures
        label@ == yes_or_no_text(value),
{
    if value {
        "yes"
    } else {
        "no"
    }
}

pub open spec fn threshold_result_text(value: Measure, threshold: Option<Measure>) -> Seq<char> {
    match threshold {
        Some(threshold) => if value >= threshold {
            "pass"@
        } else {
            "fail"@
        },
        None => "n/a"@,
    }
}

/// Whether a measurement reaches its threshold.
pub fn threshold_result(value: Measure, threshold: Option<Measure>) -> (label: &'static str)
    ensures
        label@ == threshold_result_text(value, threshold),
{
    match threshold {
        Some(threshold) => if value >= threshold {
            "pass"
        } else {
            "fail"
        },
        None => "n/a",
    }
}

/// A threshold, or `n/a` where there is none.
pub open spec fn optional_measure_text(value: Option<Measure>, places: nat) -> Seq<char> {
    match value {
        Some(value) => measure_text(value, places),
        None => "n/a"@,
    }
}

/// Appends a threshold, or `n/a` where there is none.
pub fn push_optional_measure(chars: &mut Vec<char>, value: Option<Measure>, places: u8)
    requires
        places <= 3,
    ensures
        final(chars)@ == old(chars)@ + optional_measure_text(value, places as nat),
{
    match value {
        Some(value) => push_measure(chars, value, places),
        None => text::push_text(chars, "n/a"),
    }
}

/// The caption of a capture of auto mode.
pub open spec fn auto_behavior_text(
    strategy: BracketColorizationPaletteStrategy,
    background_threshold: Option<Measure>,
    adjacent_threshold: Option<Measure>,
) -> Seq<char> {
    "Proposed Auto Behavior - "@ + treatments_text(strategy) + " [APCA "@ + optional_measure_text(
        background_threshold,
        1,
    ) + " | OKLab "@ + optional_measure_text(adjacent_threshold, 2) + "]"@
}

/// The caption of a capture of auto mode.
pub fn auto_behavior_label(
    strategy: BracketColorizationPaletteStrategy,
    background_threshold: Option<Measure>,
    adjacent_threshold: Option<Measure>,
) -> (label: String)
    ensures
        label@ == auto_behavior_text(strategy, background_threshold, adjacent_threshold),
{
    let mut chars: Vec<char> = text::chars_of("Proposed Auto Behavior - ");
    text::push_text(&mut chars, strategy_treatments_label(strategy));
    text::push_text(&mut chars, " [APCA ");
    push_optional_measure(&mut chars, background_threshold, 1);
    text::push_text(&mut chars, " | OKLab ");
    push_optional_measure(&mut chars, adjacent_threshold, 2);
    text::push_text(&mut chars, "]");
    text::string_of(&chars)
}

/// The caption of a capture in which each accent was adjusted on its own.
pub open spec fn upstream_behavior_text(threshold: Measure) -> Seq<char> {
    "Current Upstream Behavior - APCA "@ + measure_text(threshold, 1) + " per-accent adjustment"@
}

/// The caption of a capture in which each accent was adjusted on its own.
pub fn upstream_behavior_label(threshold: Measure) -> (label: String)
    ensures
        label@ == upstream_behavior_text(threshold),
{
    let mut chars: Vec<char> = text::chars_of("Current Upstream Behavior - APCA ");
    push_measure(&mut chars, threshold, 1);
    text::push_text(&mut chars, " per-accent adjustment");
    text::string_of(&chars)
}

/// One entry of a palette listing.
pub open spec fn palette_entry_text(index: int, color: RgbaBytes) -> Seq<char> {
    "`"@ + text::decimal((index + 1) as nat) + ":"@ + color_text(color) + "`"@
}

/// A palette as a numbered list.
pub open spec fn palette_text(palette: Seq<RgbaBytes>) -> Seq<char> {
    text::joined(
        Seq::new(palette.len(), |i: int| palette_entry_text(i, palette[i])),
        ", "@,
    )
}

/// Writes a palette as a numbered list.
pub fn format_palette(palette: &Vec<RgbaBytes>) -> (result: String)
    ensures
        result@ == palette_text(palette@),
{
    let mut entries: Vec<Vec<char>> = Vec::new();
    let ghost all = Seq::new(palette@.len(), |i: int| palette_entry_text(i, palette@[i]));
    let mut i: usize = 0;
    while i < palette.len()
        invariant
            i <= palette@.len(),
            all == Seq::new(palette@.len(), |k: int| palette_entry_text(k, palette@[k])),
            text::texts(entries@) == all.take(i as int),
        decreases palette@.len() - i,
    {
        let mut entry: Vec<char> = text::chars_of("`");
        text::push_decimal(&mut entry, i as u128 + 1);
        text::push_text(&mut entry, ":");
        push_color(&mut entry, palette[i]);
        text::push_text(&mut entry, "`");
        let ghost before = entries@;
        let ghost added = entry@;
        entries.push(entry);
        assert(text::texts(entries@) =~= text::texts(before).push(added));
        i = i + 1;
        assert(text::texts(entries@) =~= all.take(i as int));
    }
    assert(all.take(i as int) =~= all);
    let chars: Vec<char> = text::join(&entries, ", ");
    text::string_of(&chars)
}

/// The place of a colour's first occurrence, counted from one, or a question
/// mark where it does not occur.
pub open spec fn place_text(original: Seq<Hsla>, color: Hsla) -> Seq<char> {
    if original.contains(color) {
        text::decimal((original.index_of_first(color)->0 + 1) as nat)
    } else {
        "?"@
    }
}

/// Where each colour of the final palette stood in the original one.
pub open spec fn order_mapping_text(original: Seq<Hsla>, final_palette: Seq<Hsla>) -> Seq<char> {
    text::joined(
        Seq::new(final_palette.len(), |i: int| place_text(original, final_palette[i])),
        ", "@,
    )
}

/// Writes where each colour of the final palette stood in the original one.
pub fn format_order_mapping(original: &Vec<Hsla>, final_palette: &Vec<Hsla>) -> (result: String)
    ensures
        result@ == order_mapping_text(original@, final_palette@),
{
    let mut entries: Vec<Vec<char>> = Vec::new();
    let ghost all = Seq::new(final_palette@.len(), |i: int| place_text(original@, final_palette@[i]));
    let mut i: usize = 0;
    while i < final_palette.len()
        invariant
            i <= final_palette@.len(),
            all == Seq::new(
                final_palette@.len(),
                |k: int| place_text(original@, final_palette@[k]),
            ),
            text::texts(entries@) == all.take(i as int),
        decreases final_palette@.len() - i,
    {
        let color: Hsla = final_palette[i];
        let mut place: usize = 0;
        while place < original.len() && original[place] != color
            invariant
                place <= original@.len(),
                forall|k: int| 0 <= k < place ==> original@[k] != color,
            decreases original@.len() - place,
        {
            place = place + 1;
        }
        let mut entry: Vec<char> = Vec::new();
        if place < original.len() {
            text::push_decimal(&mut entry, place as u128 + 1);
            proof {
                assert(original@[place as int] == color);
                original@.index_of_first_ensures(color);
                let first = original@.index_of_first(color)->0;
                assert(first == place);
            }
        } else {
            text::push_text(&mut entry, "?");
        }
        assert(entry@ =~= place_text(original@, color));
        let ghost before = entries@;
        let ghost added = entry@;
        entries.push(entry);
        assert(text::texts(entries@) =~= text::texts(before).push(added));
        i = i + 1;
        assert(text::texts(entries@) =~= all.take(i as int));
    }
    assert(all.take(i as int) =~= all);
    let chars: Vec<char> = text::join(&entries, ", ");
    text::string_of(&chars)
}

} // verus!
