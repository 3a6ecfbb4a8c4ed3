//! Where windows open, what their buttons are, and what is written in them.

use crate::atlas::{AtlasKey, RenderGlyphParams, RenderImageParams, RenderSvgParams};
use crate::geometry::{Bounds, Pixels, Size};
use crate::laws;
use crate::text;
use crate::text_system;
use crate::window::button_layout::{WindowButton, WindowButtonLayout};
use crate::window::display::DisplayId;
use crate::window::options::{TitlebarOptions, WindowBounds};
use crate::window::prompt::PromptButton;
use crate::window::{button_layout, display, options};
use vstd::prelude::*;
use vstd::std_specs::convert::FromSpec;

verus! {

/// A window in the middle of a display has as much of it on one side as on the other, up
/// to one unit, and keeps its size.
pub proof fn law_windows_open_in_the_middle(shown: Bounds<Pixels>, size: Size<Pixels>)
    requires
        display::is_placeable(shown, size),
    ensures
        ({
            let bounds = display::centered_in(shown, size);
            let left = bounds.origin.x.0 - shown.origin.x.0;
            let right = shown.origin.x.0 + shown.size.width.0 - (bounds.origin.x.0
                + bounds.size.width.0);
            let above = bounds.origin.y.0 - shown.origin.y.0;
            let below = shown.origin.y.0 + shown.size.height.0 - (bounds.origin.y.0
                + bounds.size.height.0);
            &&& bounds.size == size
            &&& -1 <= left - right <= 1
            &&& -1 <= above - below <= 1
        }),
{
}

/// A window is cut down to its display where it is larger, each way by itself.
pub proof fn law_windows_are_no_larger_than_displays(wanted: Size<Pixels>, shown: Size<Pixels>)
    ensures
        ({
            let size = display::clipped_size(wanted, shown);
            &&& wanted.width.0 <= shown.width.0 ==> size.width == wanted.width
            &&& wanted.width.0 > shown.width.0 ==> size.width == shown.width
            &&& wanted.height.0 <= shown.height.0 ==> size.height == wanted.height
            &&& wanted.height.0 > shown.height.0 ==> size.height == shown.height
        }),
{
}

/// A display is named where its name has characters.
pub proof fn law_names_have_characters(name: String)
    ensures
        display::is_named(Some(name)) == (name@.len() > 0),
        !display::is_named(None),
{
}

/// A window goes back to the bounds it was given, however it opened; without any, it has
/// no extent and stands at the origin.
pub proof fn law_windows_go_back_to_their_bounds(bounds: Bounds<Pixels>)
    ensures
        WindowBounds::Windowed(bounds).inner() == bounds,
        WindowBounds::Maximized(bounds).inner() == bounds,
        WindowBounds::Fullscreen(bounds).inner() == bounds,
        options::no_bounds().origin.x.0 == 0,
        options::no_bounds().origin.y.0 == 0,
        options::no_bounds().size.width.0 == 0,
        options::no_bounds().size.height.0 == 0,
{
}

/// The words for agreeing and for leaving things as they are have buttons of their own,
/// in their usual writing; any other text stands on a button as it is.
pub proof fn law_usual_words_have_buttons(
    button: PromptButton,
    value: Seq<char>,
    lower: Seq<char>,
)
    requires
        button.stands_for(value, lower),
    ensures
        button is Okay == (lower == "ok"@),
        button is Cancel == (lower == "cancel"@),
        button is Okay ==> button.spec_label() == "OK"@,
        button is Cancel ==> button.spec_label() == "Cancel"@,
        button is Other ==> button.spec_label() == value,
{
    reveal_strlit("ok");
    reveal_strlit("cancel");
    assert("ok"@.len() == 2);
    assert("cancel"@.len() == 6);
}

/// Buttons of a window are known by their names.
pub proof fn law_window_buttons_have_names(name: Seq<char>)
    ensures
        WindowButton::Minimize.spec_id() == "minimize"@,
        WindowButton::Maximize.spec_id() == "maximize"@,
        WindowButton::Close.spec_id() == "close"@,
        WindowButton::spec_named("minimize"@) == Some(WindowButton::Minimize),
        WindowButton::spec_named("maximize"@) == Some(WindowButton::Maximize),
        WindowButton::spec_named("close"@) == Some(WindowButton::Close),
        WindowButton::spec_named(name) matches Some(button) ==> name == button.spec_id(),
{
    reveal_strlit("minimize");
    reveal_strlit("maximize");
    reveal_strlit("close");
    assert("minimize"@[1] == 'i');
    assert("maximize"@[1] == 'a');
    assert("close"@.len() == 5);
}

/// The first colon of a layout stands between its sides; without one all of it is the
/// right side.
pub proof fn law_layouts_are_split_at_the_first_colon(left: Seq<char>, right: Seq<char>)
    requires
        !left.contains(':'),
    ensures
        button_layout::left_side(left.push(':') + right) == left,
        button_layout::right_side(left.push(':') + right) == right,
        button_layout::left_side(left).len() == 0,
        button_layout::right_side(left) == left,
{
    let whole = left.push(':') + right;
    assert(whole[left.len() as int] == ':');
    assert(whole.contains(':'));
    whole.index_of_first_ensures(':');
    let colon = whole.index_of_first(':')->0;
    if colon < left.len() {
        assert(left[colon] == ':');
        assert(left.contains(':'));
    }
    assert(button_layout::left_side(whole) =~= left);
    assert(button_layout::right_side(whole) =~= right);
}

/// A name adds its button behind those of the names before it, unless that is there
/// already or taken; a name of no button adds none and is noted.
pub proof fn law_names_add_their_buttons(
    names: Seq<Seq<char>>,
    taken: Seq<WindowButton>,
    name: Seq<char>,
)
    ensures
        button_layout::buttons_of(Seq::empty(), taken).len() == 0,
        button_layout::unknown_names(Seq::empty()).len() == 0,
        ({
            let before = button_layout::buttons_of(names, taken);
            let after = button_layout::buttons_of(names.push(name), taken);
            let unknown = button_layout::unknown_names(names);
            let unknown_after = button_layout::unknown_names(names.push(name));
            match WindowButton::spec_named(name) {
                Some(button) => {
                    &&& unknown_after == unknown
                    &&& taken.contains(button) || before.contains(button) ==> after == before
                    &&& !taken.contains(button) && !before.contains(button) ==> after
                        == before.push(button)
                },
                None => after == before && unknown_after == unknown.push(name),
            }
        }),
{
    assert(names.push(name).drop_last() =~= names);
}

/// The names in a side hold no comma, are not empty, and have no white space at their
/// ends.
pub proof fn law_button_names_are_clean(side: Seq<char>, index: int)
    requires
        0 <= index < button_layout::names(side).len(),
    ensures
        ({
            let name = button_layout::names(side)[index];
            &&& name.len() > 0
            &&& !text::is_white_space(name[0])
            &&& !text::is_white_space(name.last())
            &&& !name.contains(',')
        }),
{
    assert(button_layout::names(side) == crate::capture::options::threshold_parts(side));
    laws::capture::law_threshold_parts_are_clean(side, index);
}

/// A layout has the buttons of its left side, then those of its right side that are not
/// on the left, and is refused exactly if it names something and none of it is a
/// button.
pub proof fn law_buttons_stand_on_one_side(layout: Seq<char>)
    ensures
        button_layout::left_buttons(layout) == button_layout::buttons_of(
            button_layout::names(button_layout::left_side(layout)),
            Seq::empty(),
        ),
        button_layout::right_buttons(layout) == button_layout::buttons_of(
            button_layout::names(button_layout::right_side(layout)),
            button_layout::left_buttons(layout),
        ),
        button_layout::is_refused(layout) == (button_layout::left_buttons(layout).len() == 0
            && button_layout::right_buttons(layout).len() == 0 && (button_layout::unknown_names(
            button_layout::names(button_layout::left_side(layout)),
        ).len() > 0 || button_layout::unknown_names(
            button_layout::names(button_layout::right_side(layout)),
        ).len() > 0)),
{
}

/// A layout is written as the names of its left buttons, a colon and the names of its
/// right buttons, with commas between names.
pub proof fn law_layouts_are_written_side_by_side(
    layout: WindowButtonLayout,
    buttons: Seq<WindowButton>,
    button: WindowButton,
)
    ensures
        button_layout::layout_text(layout) == button_layout::side_text(
            button_layout::filled(layout.left@),
        ) + ":"@ + button_layout::side_text(button_layout::filled(layout.right@)),
        button_layout::side_text(Seq::empty()).len() == 0,
        button_layout::side_text(buttons.push(button)) == if buttons.len() == 0 {
            button.spec_id()
        } else {
            button_layout::side_text(buttons) + ","@ + button.spec_id()
        },
{
    let ids = |button: WindowButton| button.spec_id();
    let more = buttons.push(button);
    assert(more.map_values(ids).drop_last() =~= buttons.map_values(ids));
}

/// The slots of a side hold its buttons from the first on, at most three, and nothing
/// behind them.
pub proof fn law_slots_are_filled_from_the_first(
    slots: [Option<WindowButton>; button_layout::MAX_BUTTONS_PER_SIDE],
    buttons: Seq<WindowButton>,
    place: int,
)
    requires
        button_layout::holds(slots, buttons),
        0 <= place < 3,
    ensures
        buttons.len() <= 3,
        place < buttons.len() ==> slots@[place] == Some(buttons[place]),
        place >= buttons.len() ==> slots@[place] is None,
{
}

/// Slots that are empty are passed over.
pub proof fn law_empty_slots_are_passed_over(
    slots: Seq<Option<WindowButton>>,
    button: WindowButton,
)
    ensures
        button_layout::filled(Seq::empty()).len() == 0,
        button_layout::filled(slots.push(None)) == button_layout::filled(slots),
        button_layout::filled(slots.push(Some(button))) == button_layout::filled(slots).push(
            button,
        ),
{
    assert(slots.push(None).drop_last() =~= slots);
    assert(slots.push(Some(button)).drop_last() =~= slots);
}

/// A character takes one byte in ASCII and up to four beyond, two units of UTF-16 where
/// it takes four bytes, and one else; a text takes what its characters take.
pub proof fn law_characters_take_bytes_and_units(words: Seq<char>, c: char)
    ensures
        (c as u32) < 128 ==> text_system::utf8_len(c) == 1,
        128 <= c as u32 && (c as u32) < 2048 ==> text_system::utf8_len(c) == 2,
        2048 <= c as u32 && (c as u32) < 65536 ==> text_system::utf8_len(c) == 3,
        65536 <= c as u32 ==> text_system::utf8_len(c) == 4,
        text_system::utf16_len(c) == if text_system::utf8_len(c) == 4 {
            2int
        } else {
            1
        },
        text_system::byte_len(Seq::empty()) == 0,
        text_system::em_len(Seq::empty()) == 0,
        text_system::byte_len(words.push(c)) == text_system::byte_len(words)
            + text_system::utf8_len(c),
        text_system::em_len(words.push(c)) == text_system::em_len(words) + text_system::utf16_len(
            c,
        ),
{
    assert(words.push(c).drop_last() =~= words);
}

/// The glyph of a character is numbered by its width, stands where the text before it
/// ends, and is an emoji exactly if it is two wide.
pub proof fn law_glyphs_stand_behind_the_text_before(words: Seq<char>, place: int)
    requires
        0 <= place < words.len(),
        text_system::byte_len(words.take(place)) <= usize::MAX,
        text_system::em_len(words.take(place)) <= usize::MAX,
    ensures
        ({
            let glyph = text_system::glyph_at(words, place);
            &&& glyph.id.0 == text_system::utf16_len(words[place])
            &&& glyph.position == text_system::em_len(words.take(place))
            &&& glyph.index == text_system::byte_len(words.take(place))
            &&& glyph.is_emoji == (glyph.id.0 == 2)
        }),
{
}

/// Images and emoji are kept in colour, glyphs that are drawn by parts of pixels by
/// these parts, and the rest by coverage alone.
pub proof fn law_tiles_are_kept_by_kind(
    glyph: RenderGlyphParams,
    drawing: RenderSvgParams,
    frame: RenderImageParams,
)
    ensures
        AtlasKey::Image(frame).spec_texture_kind() is Polychrome,
        AtlasKey::Svg(drawing).spec_texture_kind() is Monochrome,
        AtlasKey::Glyph(glyph).spec_texture_kind() is Polychrome == glyph.is_emoji,
        AtlasKey::Glyph(glyph).spec_texture_kind() is Subpixel == (!glyph.is_emoji
            && glyph.subpixel_rendering),
{
}

/// A title bar that nothing is asked of has no title, is seen, and leaves its buttons
/// where the platform puts them.
pub proof fn law_plain_title_bars_ask_nothing(titlebar: TitlebarOptions)
    ensures
        titlebar.is_plain() == (titlebar.title is None && !titlebar.appears_transparent
            && titlebar.traffic_light_position is None),
{
}

/// Displays and numbers stand for one another, and what a tile is found by becomes a key
/// of its own kind.
pub proof fn law_displays_are_known_by_number(
    number: u64,
    glyph: RenderGlyphParams,
    drawing: RenderSvgParams,
    frame: RenderImageParams,
)
    ensures
        <DisplayId as FromSpec<u64>>::from_spec(number).0 == number,
        <u64 as FromSpec<DisplayId>>::from_spec(
            <DisplayId as FromSpec<u64>>::from_spec(number),
        ) == number,
        <AtlasKey as FromSpec<RenderGlyphParams>>::from_spec(glyph) == AtlasKey::Glyph(glyph),
        <AtlasKey as FromSpec<RenderSvgParams>>::from_spec(drawing) == AtlasKey::Svg(drawing),
        <AtlasKey as FromSpec<RenderImageParams>>::from_spec(frame) == AtlasKey::Image(frame),
{
}

} // verus!
