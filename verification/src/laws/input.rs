//! Where the candidates of an input method are shown, told by where the text stands.

use crate::geometry::{Bounds, Pixels};
use crate::input;
use crate::input::UTF16Selection;
use std::ops::Range;
use vstd::prelude::*;

verus! {

/// A program tells of every place in the text where it stands, always the same.
pub open spec fn tells(
    told: spec_fn(usize, Option<Bounds<Pixels>>) -> bool,
    stands: spec_fn(usize) -> Option<Bounds<Pixels>>,
) -> bool {
    forall|place: usize, bounds: Option<Bounds<Pixels>>| #[trigger]
        told(place, bounds) <==> bounds == stands(place)
}

/// The tops of two places lie more than a tenth of a pixel apart, in single precision.
pub open spec fn is_apart(bounds: Option<Bounds<Pixels>>, top: int) -> bool {
    bounds is Some && (bounds->0.origin.y.0 > top + 109_951_164_416 || bounds->0.origin.y.0 < top
        - 109_951_164_416)
}

/// Carets stand in the same line where their tops lie no more than a tenth of a pixel
/// apart; a place that stands nowhere is in no other line. A place is asked for as a
/// range without extent.
pub proof fn law_lines_are_told_by_their_tops(
    bounds: Option<Bounds<Pixels>>,
    top: Pixels,
    place: usize,
)
    ensures
        input::in_another_line(bounds, top) == is_apart(bounds, top.0 as int),
        0 <= 10 * 109_951_164_416 - 1_099_511_627_776 <= 32_768,
        input::at(place).start == place,
        input::at(place).end == place,
{
}

/// Without composed text the candidates are shown at the head of the selection: at its
/// start where it is reversed, else at its end.
pub proof fn law_candidates_follow_the_head(
    told: spec_fn(usize, Option<Bounds<Pixels>>) -> bool,
    stands: spec_fn(usize) -> Option<Bounds<Pixels>>,
    selection: UTF16Selection,
    result: Option<Bounds<Pixels>>,
)
    requires
        tells(told, stands),
        input::are_candidate_bounds(told, None, selection, result),
    ensures
        selection.reversed ==> result == stands(selection.range.start),
        !selection.reversed ==> result == stands(selection.range.end),
{
}

/// While text is composed the candidates are shown at the start of the caret's line in
/// it: the first place of the composed text from which on, up to the caret, no place
/// stands in another line than the caret. Where the caret stands nowhere they are shown
/// at the start of the composed text.
pub proof fn law_candidates_stand_at_the_line_start(
    told: spec_fn(usize, Option<Bounds<Pixels>>) -> bool,
    stands: spec_fn(usize) -> Option<Bounds<Pixels>>,
    marked: Range<usize>,
    selection: UTF16Selection,
    result: Option<Bounds<Pixels>>,
    start: usize,
)
    requires
        tells(told, stands),
        input::are_candidate_bounds(told, Some(marked), selection, result),
        stands(selection.range.end) is Some ==> {
            let top = stands(selection.range.end)->0.origin.y.0 as int;
            let caret = selection.range.end;
            &&& marked.start <= start
            &&& start <= caret || start == marked.start
            &&& start > marked.start ==> is_apart(stands((start - 1) as usize), top)
            &&& forall|place: usize|
                start <= place < caret ==> !is_apart(#[trigger] stands(place), top)
        },
    ensures
        stands(selection.range.end) is None ==> result == stands(marked.start),
        stands(selection.range.end) is Some ==> result == stands(start),
{
    let caret = selection.range.end;
    assert(told(caret, None) <==> stands(caret) is None);
    assert(told(marked.start, result) <==> result == stands(marked.start));
    if stands(caret) is Some {
        let (caret_bounds, line_start) = choose|caret_bounds: Bounds<Pixels>, line_start: usize|
            {
                &&& told(caret, Some(caret_bounds))
                &&& #[trigger] input::is_line_start(
                    told,
                    marked.start,
                    caret,
                    caret_bounds.origin.y,
                    line_start,
                )
                &&& told(line_start, result)
            };
        assert(Some(caret_bounds) == stands(caret));
        assert(result == stands(line_start));
        let top = caret_bounds.origin.y;
        if line_start < start {
            let last = (start - 1) as usize;
            assert(last < caret);
            assert(input::told_in_line(told, last, top));
            let bounds = choose|bounds: Option<Bounds<Pixels>>| #[trigger]
                told(last, bounds) && !input::in_another_line(bounds, top);
            assert(bounds == stands(last));
            assert(false);
        }
        if line_start > start {
            let last = (line_start - 1) as usize;
            assert(input::told_in_another_line(told, last, top));
            let bounds = choose|bounds: Option<Bounds<Pixels>>| #[trigger]
                told(last, bounds) && input::in_another_line(bounds, top);
            assert(bounds == stands(last));
            assert(!is_apart(stands(last), top.0 as int));
            assert(false);
        }
    }
}

} // verus!
