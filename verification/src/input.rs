//! Text input: what the input method of the platform asks of the program, and where
//! it shows its candidates.

use crate::geometry::{Bounds, Pixels, Point};
use std::ops::Range;
use vstd::prelude::*;

verus! {

/// How far apart the tops of two carets in one line may be, in units of a pixel: a
/// tenth of a pixel in single precision.
pub const LINE_BREAK_UNITS: i64 = 109_951_164_416;

/// A selection in units of UTF-16, whose head may come before its tail.
#[derive(Debug)]
pub struct UTF16Selection {
    pub range: Range<usize>,
    /// The head is at the start of the range.
    pub reversed: bool,
}

/// What the input method of the platform asks of the program. Places in the text are
/// counted in units of UTF-16.
pub trait InputHandler: Sized {
    /// What is selected.
    fn selected_text_range(&mut self, ignore_disabled_input: bool) -> Option<UTF16Selection>;

    /// What is being composed.
    fn marked_text_range(&mut self) -> Option<Range<usize>>;

    /// The text of a range, and the range that it was cut to.
    fn text_for_range(
        &mut self,
        range_utf16: Range<usize>,
        adjusted_range: &mut Option<Range<usize>>,
    ) -> Option<String>;

    /// Puts other text in place of a range.
    fn replace_text_in_range(&mut self, replacement_range: Option<Range<usize>>, text: &str);

    /// Puts text that is being composed in place of a range.
    fn replace_and_mark_text_in_range(
        &mut self,
        range_utf16: Option<Range<usize>>,
        new_text: &str,
        new_selected_range: Option<Range<usize>>,
    );

    /// Nothing is being composed any more.
    fn unmark_text(&mut self);

    /// Where a range stands on the screen.
    fn bounds_for_range(&self, range_utf16: Range<usize>) -> Option<Bounds<Pixels>>;

    /// The place in the text below a point.
    fn character_index_for_point(&mut self, point: Point<Pixels>) -> Option<usize>;

    /// Whether keys that are held down are left to the platform.
    fn apple_press_and_hold_enabled(&mut self) -> (enabled: bool)
        default_ensures
            enabled,
    {
        true
    }

    /// Whether text can be put in.
    fn accepts_text_input(&mut self) -> (accepts: bool)
        default_ensures
            accepts,
    {
        true
    }

    /// Whether keys that print go to the input method before the key bindings.
    fn prefers_ime_for_printable_keys(&mut self) -> (prefers: bool)
        default_ensures
            !prefers,
    {
        false
    }
}

/// A place in the text, as a range without extent.
pub open spec fn at(place: usize) -> Range<usize> {
    Range { start: place, end: place }
}

/// A caret stands in another line than the one with a top.
pub open spec fn in_another_line(bounds: Option<Bounds<Pixels>>, top: Pixels) -> bool {
    bounds matches Some(bounds) && {
        ||| bounds.origin.y.0 - top.0 > LINE_BREAK_UNITS
        ||| top.0 - bounds.origin.y.0 > LINE_BREAK_UNITS
    }
}

fn is_in_another_line(bounds: &Option<Bounds<Pixels>>, top: Pixels) -> (other: bool)
    ensures
        other == in_another_line(*bounds, top),
{
    match bounds {
        Some(bounds) => {
            let distance: i128 = bounds.origin.y.0 as i128 - top.0 as i128;
            distance > LINE_BREAK_UNITS as i128 || -distance > LINE_BREAK_UNITS as i128
        },
        None => false,
    }
}

/// The program told where a place stands, and that is not in another line than the
/// one with a top.
pub open spec fn told_in_line(
    told: spec_fn(usize, Option<Bounds<Pixels>>) -> bool,
    place: usize,
    top: Pixels,
) -> bool {
    exists|bounds: Option<Bounds<Pixels>>| #[trigger]
        told(place, bounds) && !in_another_line(bounds, top)
}

/// The program told where a place stands, and that is in another line than the one
/// with a top.
pub open spec fn told_in_another_line(
    told: spec_fn(usize, Option<Bounds<Pixels>>) -> bool,
    place: usize,
    top: Pixels,
) -> bool {
    exists|bounds: Option<Bounds<Pixels>>| #[trigger]
        told(place, bounds) && in_another_line(bounds, top)
}

/// A place is where the line of the caret starts within what is being composed: the
/// start of that, or just behind the last place before the caret that stands in
/// another line.
pub open spec fn is_line_start(
    told: spec_fn(usize, Option<Bounds<Pixels>>) -> bool,
    marked_start: usize,
    caret: usize,
    top: Pixels,
    line_start: usize,
) -> bool {
    ||| {
        &&& line_start == marked_start
        &&& forall|place: usize|
            marked_start <= place < caret ==> #[trigger] told_in_line(told, place, top)
    }
    ||| {
        &&& marked_start < line_start <= caret
        &&& told_in_another_line(told, (line_start - 1) as usize, top)
        &&& forall|place: usize|
            line_start <= place < caret ==> #[trigger] told_in_line(told, place, top)
    }
}

/// Where the candidates of the input method are shown, by what the program told of
/// places in the text: at the start of the caret's line while text is being composed,
/// at the head of the selection otherwise.
pub open spec fn are_candidate_bounds(
    told: spec_fn(usize, Option<Bounds<Pixels>>) -> bool,
    marked_range: Option<Range<usize>>,
    selection: UTF16Selection,
    result: Option<Bounds<Pixels>>,
) -> bool {
    match marked_range {
        None => told(
            if selection.reversed {
                selection.range.start
            } else {
                selection.range.end
            },
            result,
        ),
        Some(marked) => {
            let caret = selection.range.end;
            ||| {
                &&& told(caret, None)
                &&& told(marked.start, result)
            }
            ||| exists|caret_bounds: Bounds<Pixels>, line_start: usize|
                {
                    &&& told(caret, Some(caret_bounds))
                    &&& #[trigger] is_line_start(
                        told,
                        marked.start,
                        caret,
                        caret_bounds.origin.y,
                        line_start,
                    )
                    &&& told(line_start, result)
                }
        },
    }
}

/// What a function tells of places in the text.
pub open spec fn told_by<F: Fn(Range<usize>) -> Option<Bounds<Pixels>>>(bounds_for_range: F) -> spec_fn(
    usize,
    Option<Bounds<Pixels>>,
) -> bool {
    |place: usize, bounds: Option<Bounds<Pixels>>| bounds_for_range.ensures((at(place),), bounds)
}

/// What a handler tells of places in the text.
pub open spec fn told_by_handler<H: InputHandler>(handler: H) -> spec_fn(
    usize,
    Option<Bounds<Pixels>>,
) -> bool {
    |place: usize, bounds: Option<Bounds<Pixels>>|
        call_ensures(H::bounds_for_range, (&handler, at(place)), bounds)
}

proof fn lemma_candidate_bounds_stay(
    told: spec_fn(usize, Option<Bounds<Pixels>>) -> bool,
    also_told: spec_fn(usize, Option<Bounds<Pixels>>) -> bool,
    marked_range: Option<Range<usize>>,
    selection: UTF16Selection,
    result: Option<Bounds<Pixels>>,
)
    requires
        are_candidate_bounds(told, marked_range, selection, result),
        forall|place: usize, bounds: Option<Bounds<Pixels>>| #[trigger]
            told(place, bounds) ==> also_told(place, bounds),
    ensures
        are_candidate_bounds(also_told, marked_range, selection, result),
{
    if let Some(marked) = marked_range {
        let caret = selection.range.end;
        if !(told(caret, None) && told(marked.start, result)) {
            let (caret_bounds, line_start) = choose|caret_bounds: Bounds<Pixels>, line_start: usize|
                {
                    &&& told(caret, Some(caret_bounds))
                    &&& #[trigger] is_line_start(
                        told,
                        marked.start,
                        caret,
                        caret_bounds.origin.y,
                        line_start,
                    )
                    &&& told(line_start, result)
                };
            let top = caret_bounds.origin.y;
            assert forall|place: usize| told_in_line(told, place, top) implies told_in_line(
                also_told,
                place,
                top,
            ) by {
                let bounds = choose|bounds: Option<Bounds<Pixels>>| #[trigger]
                    told(place, bounds) && !in_another_line(bounds, top);
                assert(also_told(place, bounds));
            }
            assert forall|place: usize| told_in_another_line(told, place, top) implies told_in_another_line(
            also_told, place, top) by {
                let bounds = choose|bounds: Option<Bounds<Pixels>>| #[trigger]
                    told(place, bounds) && in_another_line(bounds, top);
                assert(also_told(place, bounds));
            }
            assert(is_line_start(also_told, marked.start, caret, top, line_start));
        }
    }
}

/// The program's handler of text input, while its window is open.
pub struct PlatformInputHandler<H> {
    handler: H,
    window_open: bool,
}

/// The handler and whether its window is open.
impl<H> View for PlatformInputHandler<H> {
    type V = (H, bool);

    closed spec fn view(&self) -> (H, bool) {
        (self.handler, self.window_open)
    }
}

impl<H: InputHandler> PlatformInputHandler<H> {
    /// The handler of an open window.
    pub fn new(handler: H) -> (input: Self)
        ensures
            input@ == (handler, true),
    {
        PlatformInputHandler { handler, window_open: true }
    }

    /// The window was closed: nothing is asked of the handler any more.
    pub fn window_closed(&mut self)
        ensures
            final(self)@ == (old(self)@.0, false),
    {
        self.window_open = false;
    }

    /// Where the candidates of the input method are shown.
    pub fn compute_ime_candidate_bounds<F: Fn(Range<usize>) -> Option<Bounds<Pixels>>>(
        marked_range: Option<Range<usize>>,
        selection: &UTF16Selection,
        bounds_for_range: F,
    ) -> (result: Option<Bounds<Pixels>>)
        requires
            forall|range: Range<usize>| #[trigger] bounds_for_range.requires((range,)),
        ensures
            are_candidate_bounds(told_by(bounds_for_range), marked_range, *selection, result),
    {
        let ghost told = told_by(bounds_for_range);
        match marked_range {
            None => {
                let place: usize = if selection.reversed {
                    selection.range.start
                } else {
                    selection.range.end
                };
                let result: Option<Bounds<Pixels>> = bounds_for_range(place..place);
                assert(told(place, result));
                result
            },
            Some(marked) => {
                let start: usize = marked.start;
                let caret: usize = selection.range.end;
                let told_caret: Option<Bounds<Pixels>> = bounds_for_range(caret..caret);
                assert(told(caret, told_caret));
                let caret_bounds: Bounds<Pixels> = match told_caret {
                    Some(bounds) => bounds,
                    None => {
                        let result: Option<Bounds<Pixels>> = bounds_for_range(start..start);
                        assert(told(start, result));
                        return result;
                    },
                };
                let top: Pixels = caret_bounds.origin.y;
                let mut line_start: usize = start;
                let mut place: usize = caret;
                let mut searching: bool = true;
                while searching && place > start
                    invariant
                        forall|range: Range<usize>| #[trigger] bounds_for_range.requires((range,)),
                        told == told_by(bounds_for_range),
                        place <= caret,
                        searching ==> line_start == start && forall|seen: usize|
                            place <= seen < caret ==> #[trigger] told_in_line(
                                told,
                                seen,
                                top,
                            ),
                        !searching ==> {
                            &&& start < line_start <= caret
                            &&& told_in_another_line(told, (line_start - 1) as usize, top)
                            &&& forall|seen: usize|
                                line_start <= seen < caret ==> #[trigger] told_in_line(
                                    told,
                                    seen,
                                    top,
                                )
                        },
                    decreases place,
                {
                    let before: usize = place - 1;
                    let bounds: Option<Bounds<Pixels>> = bounds_for_range(before..before);
                    assert(told(before, bounds));
                    if is_in_another_line(&bounds, top) {
                        line_start = place;
                        searching = false;
                    } else {
                        assert(told_in_line(told, before, top));
                    }
                    place = before;
                }
                assert(is_line_start(told, start, caret, top, line_start));
                let result: Option<Bounds<Pixels>> = bounds_for_range(line_start..line_start);
                assert(told(line_start, result));
                result
            },
        }
    }

    /// What is selected, as the handler tells; nothing once the window is closed.
    pub fn selected_text_range(&mut self, ignore_disabled_input: bool) -> (selection: Option<
        UTF16Selection,
    >)
        ensures
            final(self)@.1 == old(self)@.1,
            if old(self)@.1 {
                exists|handler: &mut H|
                    {
                        &&& #[trigger] call_ensures(
                            H::selected_text_range,
                            (handler, ignore_disabled_input),
                            selection,
                        )
                        &&& *handler == old(self)@.0
                        &&& *final(handler) == final(self)@.0
                    }
            } else {
                selection is None && final(self)@ == old(self)@
            },
    {
        if self.window_open {
            self.handler.selected_text_range(ignore_disabled_input)
        } else {
            None
        }
    }

    /// What is being composed, as the handler tells; nothing once the window is closed.
    pub fn marked_text_range(&mut self) -> (range: Option<Range<usize>>)
        ensures
            final(self)@.1 == old(self)@.1,
            if old(self)@.1 {
                exists|handler: &mut H|
                    {
                        &&& #[trigger] call_ensures(H::marked_text_range, (handler,), range)
                        &&& *handler == old(self)@.0
                        &&& *final(handler) == final(self)@.0
                    }
            } else {
                range is None && final(self)@ == old(self)@
            },
    {
        if self.window_open {
            self.handler.marked_text_range()
        } else {
            None
        }
    }

    /// The text of a range, as the handler tells; nothing once the window is closed.
    pub fn text_for_range(
        &mut self,
        range_utf16: Range<usize>,
        adjusted: &mut Option<Range<usize>>,
    ) -> (text: Option<String>)
        ensures
            final(self)@.1 == old(self)@.1,
            if old(self)@.1 {
                exists|handler: &mut H, cut: &mut Option<Range<usize>>|
                    {
                        &&& #[trigger] call_ensures(
                            H::text_for_range,
                            (handler, range_utf16, cut),
                            text,
                        )
                        &&& *handler == old(self)@.0
                        &&& *final(handler) == final(self)@.0
                        &&& *cut == *old(adjusted)
                        &&& *final(cut) == *final(adjusted)
                    }
            } else {
                text is None && final(self)@ == old(self)@ && *final(adjusted) == *old(adjusted)
            },
    {
        if self.window_open {
            self.handler.text_for_range(range_utf16, adjusted)
        } else {
            None
        }
    }

    /// Has the handler put other text in place of a range, while the window is open.
    pub fn replace_text_in_range(&mut self, replacement_range: Option<Range<usize>>, text: &str)
        ensures
            final(self)@.1 == old(self)@.1,
            if old(self)@.1 {
                exists|handler: &mut H|
                    {
                        &&& #[trigger] call_ensures(
                            H::replace_text_in_range,
                            (handler, replacement_range, text),
                            (),
                        )
                        &&& *handler == old(self)@.0
                        &&& *final(handler) == final(self)@.0
                    }
            } else {
                final(self)@ == old(self)@
            },
    {
        if self.window_open {
            self.handler.replace_text_in_range(replacement_range, text);
        }
    }

    /// Has the handler put text that is being composed in place of a range, while the
    /// window is open.
    pub fn replace_and_mark_text_in_range(
        &mut self,
        range_utf16: Option<Range<usize>>,
        new_text: &str,
        new_selected_range: Option<Range<usize>>,
    )
        ensures
            final(self)@.1 == old(self)@.1,
            if old(self)@.1 {
                exists|handler: &mut H|
                    {
                        &&& #[trigger] call_ensures(
                            H::replace_and_mark_text_in_range,
                            (handler, range_utf16, new_text, new_selected_range),
                            (),
                        )
                        &&& *handler == old(self)@.0
                        &&& *final(handler) == final(self)@.0
                    }
            } else {
                final(self)@ == old(self)@
            },
    {
        if self.window_open {
            self.handler.replace_and_mark_text_in_range(range_utf16, new_text, new_selected_range);
        }
    }

    /// Has the handler end what is being composed, while the window is open.
    pub fn unmark_text(&mut self)
        ensures
            final(self)@.1 == old(self)@.1,
            if old(self)@.1 {
                exists|handler: &mut H|
                    {
                        &&& #[trigger] call_ensures(H::unmark_text, (handler,), ())
                        &&& *handler == old(self)@.0
                        &&& *final(handler) == final(self)@.0
                    }
            } else {
                final(self)@ == old(self)@
            },
    {
        if self.window_open {
            self.handler.unmark_text();
        }
    }

    /// Where a range stands on the screen, as the handler tells; nowhere once the window
    /// is closed.
    pub fn bounds_for_range(&self, range_utf16: Range<usize>) -> (bounds: Option<Bounds<Pixels>>)
        ensures
            if self@.1 {
                call_ensures(H::bounds_for_range, (&self@.0, range_utf16), bounds)
            } else {
                bounds is None
            },
    {
        if self.window_open {
            self.handler.bounds_for_range(range_utf16)
        } else {
            None
        }
    }

    /// Whether keys that are held down are left to the platform, as the handler tells.
    pub fn apple_press_and_hold_enabled(&mut self) -> (enabled: bool)
        ensures
            final(self)@.1 == old(self)@.1,
            exists|handler: &mut H|
                {
                    &&& #[trigger] call_ensures(H::apple_press_and_hold_enabled, (handler,), enabled)
                    &&& *handler == old(self)@.0
                    &&& *final(handler) == final(self)@.0
                },
    {
        self.handler.apple_press_and_hold_enabled()
    }

    /// Has the handler put in some text at the selection.
    pub fn dispatch_input(&mut self, input: &str)
        ensures
            final(self)@.1 == old(self)@.1,
            exists|handler: &mut H|
                {
                    &&& #[trigger] call_ensures(
                        H::replace_text_in_range,
                        (handler, None, input),
                        (),
                    )
                    &&& *handler == old(self)@.0
                    &&& *final(handler) == final(self)@.0
                },
    {
        self.handler.replace_text_in_range(None, input);
    }

    /// The place in the text below a point, as the handler tells; none once the window is
    /// closed.
    pub fn character_index_for_point(&mut self, point: Point<Pixels>) -> (index: Option<usize>)
        ensures
            final(self)@.1 == old(self)@.1,
            if old(self)@.1 {
                exists|handler: &mut H|
                    {
                        &&& #[trigger] call_ensures(
                            H::character_index_for_point,
                            (handler, point),
                            index,
                        )
                        &&& *handler == old(self)@.0
                        &&& *final(handler) == final(self)@.0
                    }
            } else {
                index is None && final(self)@ == old(self)@
            },
    {
        if self.window_open {
            self.handler.character_index_for_point(point)
        } else {
            None
        }
    }

    /// Whether text can be put in, as the handler tells.
    pub fn accepts_text_input(&mut self) -> (accepts: bool)
        ensures
            final(self)@.1 == old(self)@.1,
            exists|handler: &mut H|
                {
                    &&& #[trigger] call_ensures(H::accepts_text_input, (handler,), accepts)
                    &&& *handler == old(self)@.0
                    &&& *final(handler) == final(self)@.0
                },
    {
        self.handler.accepts_text_input()
    }

    /// Whether text can be put in, as the handler tells; it can once the window is
    /// closed.
    pub fn query_accepts_text_input(&mut self) -> (accepts: bool)
        ensures
            final(self)@.1 == old(self)@.1,
            if old(self)@.1 {
                exists|handler: &mut H|
                    {
                        &&& #[trigger] call_ensures(H::accepts_text_input, (handler,), accepts)
                        &&& *handler == old(self)@.0
                        &&& *final(handler) == final(self)@.0
                    }
            } else {
                accepts && final(self)@ == old(self)@
            },
    {
        if self.window_open {
            self.handler.accepts_text_input()
        } else {
            true
        }
    }

    /// Whether keys that print go to the input method first, as the handler tells; they
    /// do not once the window is closed.
    pub fn query_prefers_ime_for_printable_keys(&mut self) -> (prefers: bool)
        ensures
            final(self)@.1 == old(self)@.1,
            if old(self)@.1 {
                exists|handler: &mut H|
                    {
                        &&& #[trigger] call_ensures(
                            H::prefers_ime_for_printable_keys,
                            (handler,),
                            prefers,
                        )
                        &&& *handler == old(self)@.0
                        &&& *final(handler) == final(self)@.0
                    }
            } else {
                !prefers && final(self)@ == old(self)@
            },
    {
        if self.window_open {
            self.handler.prefers_ime_for_printable_keys()
        } else {
            false
        }
    }

    /// Where the candidates of the input method are shown, by what a handler tells of its
    /// text, what is being composed and what is selected: nowhere without a selection.
    fn candidate_bounds(
        handler: &H,
        marked_range: Option<Range<usize>>,
        selection: &Option<UTF16Selection>,
    ) -> (bounds: Option<Bounds<Pixels>>)
        ensures
            match selection {
                None => bounds is None,
                Some(selection) => are_candidate_bounds(
                    told_by_handler(*handler),
                    marked_range,
                    *selection,
                    bounds,
                ),
            },
    {
        match selection {
            None => None,
            Some(selection) => {
                let told = |range: Range<usize>| -> (bounds: Option<Bounds<Pixels>>)
                    ensures
                        call_ensures(H::bounds_for_range, (handler, range), bounds),
                    { handler.bounds_for_range(range) };
                let ghost ranges = marked_range;
                let bounds: Option<Bounds<Pixels>> = Self::compute_ime_candidate_bounds(
                    marked_range,
                    selection,
                    told,
                );
                proof {
                    lemma_candidate_bounds_stay(
                        told_by(told),
                        told_by_handler(*handler),
                        ranges,
                        *selection,
                        bounds,
                    );
                }
                bounds
            },
        }
    }

    /// Where the candidates of the input method are shown, by what the handler tells of
    /// its text: nowhere without a selection, and nowhere once the window is closed.
    pub fn ime_candidate_bounds(&mut self) -> (bounds: Option<Bounds<Pixels>>)
        ensures
            final(self)@.1 == old(self)@.1,
            if old(self)@.1 {
                exists|
                    first: &mut H,
                    marked: Option<Range<usize>>,
                    second: &mut H,
                    selection: Option<UTF16Selection>,
                |
                    {
                        &&& #[trigger] call_ensures(H::marked_text_range, (first,), marked)
                        &&& *first == old(self)@.0
                        &&& #[trigger] call_ensures(H::selected_text_range, (second, true), selection)
                        &&& *second == *final(first)
                        &&& *final(second) == final(self)@.0
                        &&& match selection {
                            None => bounds is None,
                            Some(selection) => are_candidate_bounds(
                                told_by_handler(final(self)@.0),
                                marked,
                                selection,
                                bounds,
                            ),
                        }
                    }
            } else {
                bounds is None && final(self)@ == old(self)@
            },
    {
        if self.window_open {
            self.selected_bounds()
        } else {
            None
        }
    }

    /// Where the candidates of the input method are shown, by what the handler tells of
    /// its text: nowhere without a selection.
    pub fn selected_bounds(&mut self) -> (bounds: Option<Bounds<Pixels>>)
        ensures
            final(self)@.1 == old(self)@.1,
            exists|
                first: &mut H,
                marked: Option<Range<usize>>,
                second: &mut H,
                selection: Option<UTF16Selection>,
            |
                {
                    &&& #[trigger] call_ensures(H::marked_text_range, (first,), marked)
                    &&& *first == old(self)@.0
                    &&& #[trigger] call_ensures(H::selected_text_range, (second, true), selection)
                    &&& *second == *final(first)
                    &&& *final(second) == final(self)@.0
                    &&& match selection {
                        None => bounds is None,
                        Some(selection) => are_candidate_bounds(
                            told_by_handler(final(self)@.0),
                            marked,
                            selection,
                            bounds,
                        ),
                    }
                },
    {
        let marked_range: Option<Range<usize>> = self.handler.marked_text_range();
        let selection: Option<UTF16Selection> = self.handler.selected_text_range(true);
        Self::candidate_bounds(&self.handler, marked_range, &selection)
    }
}

} // verus!
