//! Which accent a bracket ends up with: the one of its pair's depth.

use crate::brackets::colorize::{BracketHighlight, Pass, VisibleExcerpt};
use crate::brackets::palette::{BracketColorizationMode, Hsla};
use crate::brackets::ranges::{AnchorRange, BracketChunk, BracketMatch, RowRange};
use crate::brackets::{colorize, fetched, highlights, ranges};
use vstd::prelude::*;

verus! {

/// A range is one of a pair's two brackets, shown from end to end.
pub open spec fn is_shown_bracket(pair: BracketMatch, range: AnchorRange) -> bool {
    pair.anchors matches Some(anchors) && {
        ||| anchors.open_start == Some(range.start) && anchors.open_end == Some(range.end)
        ||| anchors.close_start == Some(range.start) && anchors.close_end == Some(range.end)
    }
}

/// A shown bracket of a pair whose depth falls on an accent.
spec fn falls_on(pair: BracketMatch, count: usize, accent: usize, range: AnchorRange) -> bool {
    &&& pair.color_index matches Some(depth)
    &&& depth % count == accent
    &&& is_shown_bracket(pair, range)
}

/// A chunk of an excerpt is not fetched yet when a pass comes to it.
pub open spec fn is_new_chunk(seen: Set<RowRange>, chunks: Seq<BracketChunk>, chunk: int) -> bool {
    0 <= chunk < chunks.len() && !ranges::fetched_after(seen, chunks.take(chunk)).contains(
        chunks[chunk].rows,
    )
}

/// A pass comes to a pair of a new chunk in an excerpt that is coloured, and a shown
/// bracket of it falls on the accent that a key stands for. The pair is found by the
/// places of its excerpt, of the chunk in it, and of the pair in that.
pub open spec fn colors_bracket(
    start: Pass,
    excerpts: Seq<VisibleExcerpt>,
    theme_count: usize,
    auto_count: usize,
    place: (int, int, int),
    key: usize,
    range: AnchorRange,
) -> bool {
    let (at, chunk, pair) = place;
    let excerpt = excerpts[at];
    let before = colorize::pass_over_all(start, excerpts.take(at), theme_count, auto_count);
    let seen = fetched::fetched_of(before.fetched, excerpt.excerpt_id);
    let count = highlights::spec_accent_count(excerpt.mode, theme_count, auto_count);
    &&& 0 <= at < excerpts.len()
    &&& excerpt.colorize_brackets
    &&& count > 0
    &&& is_new_chunk(seen, excerpt.chunks@, chunk)
    &&& 0 <= pair < excerpt.chunks@[chunk].pairs@.len()
    &&& colors_pair(excerpt.mode, excerpt.chunks@[chunk].pairs@[pair], count, key, range)
}

/// A shown bracket of a pair falls on the accent that a key stands for in a mode.
pub open spec fn colors_pair(
    mode: BracketColorizationMode,
    pair: BracketMatch,
    count: usize,
    key: usize,
    range: AnchorRange,
) -> bool {
    &&& pair.color_index matches Some(depth)
    &&& key == highlights::spec_highlight_key(mode, (depth % count) as int)
    &&& is_shown_bracket(pair, range)
}

spec fn is_listed(
    added: Seq<(usize, Seq<AnchorRange>)>,
    accent: usize,
    range: AnchorRange,
) -> bool {
    exists|i: int|
        0 <= i < added.len() && (#[trigger] added[i]).0 == accent && added[i].1.contains(range)
}

proof fn lemma_starts_before_is_a_place(ranges: Seq<AnchorRange>, start: u64)
    ensures
        0 <= highlights::starts_before(ranges, start) <= ranges.len(),
    decreases ranges.len(),
{
    if ranges.len() > 0 {
        lemma_starts_before_is_a_place(ranges.drop_last(), start);
    }
}

proof fn lemma_with_ranges_holds(
    ranges: Seq<AnchorRange>,
    added: Seq<AnchorRange>,
    range: AnchorRange,
)
    ensures
        highlights::with_ranges(ranges, added).contains(range) <==> ranges.contains(range)
            || added.contains(range),
    decreases added.len(),
{
    if added.len() > 0 {
        let rest = added.drop_last();
        let before = highlights::with_ranges(ranges, rest);
        lemma_with_ranges_holds(ranges, rest, range);
        lemma_starts_before_is_a_place(before, added.last().start);
        let place = highlights::starts_before(before, added.last().start);
        let after = highlights::with_ranges(ranges, added);
        assert(after == before.insert(place, added.last()));
        if after.contains(range) {
            let i = choose|i: int| 0 <= i < after.len() && after[i] == range;
            if i < place {
                assert(before[i] == range);
            } else if i > place {
                assert(before[i - 1] == range);
            } else {
                assert(added[added.len() - 1] == range);
            }
            if rest.contains(range) {
                let j = choose|j: int| 0 <= j < rest.len() && rest[j] == range;
                assert(added[j] == range);
            }
        }
        if before.contains(range) {
            let i = choose|i: int| 0 <= i < before.len() && before[i] == range;
            if i < place {
                assert(after[i] == range);
            } else {
                assert(after[i + 1] == range);
            }
        }
        if added.contains(range) {
            let j = choose|j: int| 0 <= j < added.len() && added[j] == range;
            if j < rest.len() {
                assert(rest[j] == range);
            } else {
                assert(after[place] == range);
            }
        }
    }
}

/// The ranges under a key after some were added: those before, and those added for
/// the accent that the key stands for.
proof fn lemma_added_ranges(
    ranges: Map<usize, Seq<AnchorRange>>,
    mode: BracketColorizationMode,
    added: Seq<(usize, Seq<AnchorRange>)>,
    count: usize,
    key: usize,
    range: AnchorRange,
)
    requires
        count <= usize::MAX / 2,
        forall|i: int| 0 <= i < added.len() ==> (#[trigger] added[i]).0 < count,
    ensures
        highlights::ranges_under(
            colorize::with_accent_ranges(ranges, mode, added),
            key,
        ).contains(range) <==> {
            ||| highlights::ranges_under(ranges, key).contains(range)
            ||| exists|accent: usize| #[trigger]
                is_listed(added, accent, range) && key == highlights::spec_highlight_key(
                    mode,
                    accent as int,
                )
        },
    decreases added.len(),
{
    let after = colorize::with_accent_ranges(ranges, mode, added);
    if added.len() == 0 {
        assert forall|accent: usize| !#[trigger] is_listed(added, accent, range) by {}
    } else {
        let rest = added.drop_last();
        let last = added.last();
        assert(added[added.len() - 1].0 < count);
        assert forall|i: int| 0 <= i < rest.len() implies (#[trigger] rest[i]).0 < count by {
            assert(rest[i] == added[i]);
        }
        lemma_added_ranges(ranges, mode, rest, count, key, range);
        let before = colorize::with_accent_ranges(ranges, mode, rest);
        let own = highlights::spec_highlight_key(mode, last.0 as int);
        assert(own <= usize::MAX);
        lemma_with_ranges_holds(highlights::ranges_under(before, key), last.1, range);
        assert forall|accent: usize| #[trigger] is_listed(added, accent, range) <==> is_listed(
            rest,
            accent,
            range,
        ) || (last.0 == accent && last.1.contains(range)) by {
            if is_listed(added, accent, range) {
                let i = choose|i: int|
                    0 <= i < added.len() && (#[trigger] added[i]).0 == accent && added[i].1.contains(
                        range,
                    );
                if i < rest.len() {
                    assert(rest[i] == added[i]);
                }
            }
            if is_listed(rest, accent, range) {
                let i = choose|i: int|
                    0 <= i < rest.len() && (#[trigger] rest[i]).0 == accent && rest[i].1.contains(
                        range,
                    );
                assert(added[i] == rest[i]);
            }
            if last.0 == accent && last.1.contains(range) {
                assert(added[added.len() - 1] == last);
            }
        }
        if last.1.contains(range) {
            assert(is_listed(added, last.0, range));
        }
        if exists|accent: usize| #[trigger]
            is_listed(rest, accent, range) && key == highlights::spec_highlight_key(
                mode,
                accent as int,
            ) {
            let accent = choose|accent: usize| #[trigger]
                is_listed(rest, accent, range) && key == highlights::spec_highlight_key(
                    mode,
                    accent as int,
                );
            assert(is_listed(added, accent, range));
        }
    }
}

proof fn lemma_pair_ranges(pair: BracketMatch, count: usize, accent: usize, range: AnchorRange)
    ensures
        falls_on(pair, count, accent, range) <==> {
            &&& ranges::pair_ranges(pair, count) matches Some(found)
            &&& found.0 == accent
            &&& found.1.contains(range)
        },
{
    if let (Some(depth), Some(anchors)) = (pair.color_index, pair.anchors) {
        let opening = ranges::shown_range(anchors.open_start, anchors.open_end);
        let closing = ranges::shown_range(anchors.close_start, anchors.close_end);
        let both = opening + closing;
        if anchors.open_start == Some(range.start) && anchors.open_end == Some(range.end) {
            assert(both[0] == range);
        }
        if anchors.close_start == Some(range.start) && anchors.close_end == Some(range.end) {
            assert(both[opening.len() as int] == range);
        }
    }
}

proof fn lemma_listed_pairs(
    pairs: Seq<BracketMatch>,
    count: usize,
    accent: usize,
    range: AnchorRange,
)
    ensures
        is_listed(ranges::all_pair_ranges(pairs, count), accent, range) <==> exists|pair: int|
            0 <= pair < pairs.len() && falls_on(#[trigger] pairs[pair], count, accent, range),
    decreases pairs.len(),
{
    let all = ranges::all_pair_ranges(pairs, count);
    if pairs.len() > 0 {
        let rest = pairs.drop_last();
        let before = ranges::all_pair_ranges(rest, count);
        lemma_listed_pairs(rest, count, accent, range);
        lemma_pair_ranges(pairs.last(), count, accent, range);
        if is_listed(all, accent, range) {
            let i = choose|i: int|
                0 <= i < all.len() && (#[trigger] all[i]).0 == accent && all[i].1.contains(range);
            if i < before.len() {
                assert(before[i] == all[i]);
                assert(is_listed(before, accent, range));
                let pair = choose|pair: int|
                    0 <= pair < rest.len() && falls_on(
                        #[trigger] rest[pair],
                        count,
                        accent,
                        range,
                    );
                assert(falls_on(pairs[pair], count, accent, range));
            } else {
                assert(falls_on(pairs[pairs.len() - 1], count, accent, range));
            }
        }
        if exists|pair: int|
            0 <= pair < pairs.len() && falls_on(#[trigger] pairs[pair], count, accent, range) {
            let pair = choose|pair: int|
                0 <= pair < pairs.len() && falls_on(#[trigger] pairs[pair], count, accent, range);
            if pair < rest.len() {
                assert(falls_on(rest[pair], count, accent, range));
                let i = choose|i: int|
                    0 <= i < before.len() && (#[trigger] before[i]).0 == accent
                        && before[i].1.contains(range);
                assert(all[i] == before[i]);
            } else {
                assert(all[all.len() - 1].1.contains(range));
            }
        }
    }
}

spec fn falls_in_chunk(
    seen: Set<RowRange>,
    chunks: Seq<BracketChunk>,
    count: usize,
    accent: usize,
    range: AnchorRange,
    chunk: int,
    pair: int,
) -> bool {
    &&& is_new_chunk(seen, chunks, chunk)
    &&& 0 <= pair < chunks[chunk].pairs@.len()
    &&& falls_on(chunks[chunk].pairs@[pair], count, accent, range)
}

proof fn lemma_listed_chunks(
    seen: Set<RowRange>,
    chunks: Seq<BracketChunk>,
    count: usize,
    accent: usize,
    range: AnchorRange,
)
    ensures
        is_listed(ranges::new_ranges(seen, chunks, count), accent, range) <==> exists|
            chunk: int,
            pair: int,
        | #[trigger]
            falls_in_chunk(seen, chunks, count, accent, range, chunk, pair),
    decreases chunks.len(),
{
    let all = ranges::new_ranges(seen, chunks, count);
    if chunks.len() > 0 {
        let rest = chunks.drop_last();
        let last = chunks.len() - 1;
        let before = ranges::new_ranges(seen, rest, count);
        let own = ranges::all_pair_ranges(chunks[last].pairs@, count);
        lemma_listed_chunks(seen, rest, count, accent, range);
        lemma_listed_pairs(chunks[last].pairs@, count, accent, range);
        assert(chunks.take(last) =~= rest);
        assert forall|chunk: int, pair: int|
            0 <= chunk < last implies (#[trigger] falls_in_chunk(
            seen,
            chunks,
            count,
            accent,
            range,
            chunk,
            pair,
        ) <==> falls_in_chunk(seen, rest, count, accent, range, chunk, pair)) by {
            assert(rest.take(chunk) =~= chunks.take(chunk));
            assert(rest[chunk] == chunks[chunk]);
        }
        if is_listed(all, accent, range) {
            let i = choose|i: int|
                0 <= i < all.len() && (#[trigger] all[i]).0 == accent && all[i].1.contains(range);
            if i < before.len() {
                assert(before[i] == all[i]);
                assert(is_listed(before, accent, range));
                let (chunk, pair) = choose|chunk: int, pair: int| #[trigger]
                    falls_in_chunk(seen, rest, count, accent, range, chunk, pair);
                assert(falls_in_chunk(seen, chunks, count, accent, range, chunk, pair));
            } else {
                assert(own[i - before.len()] == all[i]);
                assert(is_listed(own, accent, range));
                let pair = choose|pair: int|
                    0 <= pair < chunks[last].pairs@.len() && falls_on(
                        #[trigger] chunks[last].pairs@[pair],
                        count,
                        accent,
                        range,
                    );
                assert(falls_in_chunk(seen, chunks, count, accent, range, last, pair));
            }
        }
        if exists|chunk: int, pair: int| #[trigger]
            falls_in_chunk(seen, chunks, count, accent, range, chunk, pair) {
            let (chunk, pair) = choose|chunk: int, pair: int| #[trigger]
                falls_in_chunk(seen, chunks, count, accent, range, chunk, pair);
            if chunk < last {
                assert(falls_in_chunk(seen, rest, count, accent, range, chunk, pair));
                let i = choose|i: int|
                    0 <= i < before.len() && (#[trigger] before[i]).0 == accent
                        && before[i].1.contains(range);
                assert(all[i] == before[i]);
            } else {
                assert(falls_on(chunks[last].pairs@[pair], count, accent, range));
                let i = choose|i: int|
                    0 <= i < own.len() && (#[trigger] own[i]).0 == accent && own[i].1.contains(
                        range,
                    );
                assert(all[before.len() + i] == own[i]);
            }
        }
    } else {
        assert(all.len() == 0);
    }
}

/// The ranges under a key after a pass that started without any are the brackets
/// whose depth falls on the accent of the key.
proof fn lemma_pass_colors(
    start: Pass,
    excerpts: Seq<VisibleExcerpt>,
    theme_count: usize,
    auto_count: usize,
    key: usize,
    range: AnchorRange,
)
    requires
        start.ranges == Map::<usize, Seq<AnchorRange>>::empty(),
        theme_count <= usize::MAX / 2,
        auto_count <= usize::MAX / 2,
    ensures
        highlights::ranges_under(
            colorize::pass_over_all(start, excerpts, theme_count, auto_count).ranges,
            key,
        ).contains(range) <==> exists|place: (int, int, int)| #[trigger]
            colors_bracket(start, excerpts, theme_count, auto_count, place, key, range),
    decreases excerpts.len(),
{
    if excerpts.len() > 0 {
        let rest = excerpts.drop_last();
        let last = excerpts.len() - 1;
        let excerpt = excerpts[last];
        let before = colorize::pass_over_all(start, rest, theme_count, auto_count);
        let after = colorize::pass_over_all(start, excerpts, theme_count, auto_count);
        let count = highlights::spec_accent_count(excerpt.mode, theme_count, auto_count);
        let seen = fetched::fetched_of(before.fetched, excerpt.excerpt_id);
        let added = ranges::new_ranges(seen, excerpt.chunks@, count);
        lemma_pass_colors(start, rest, theme_count, auto_count, key, range);
        assert(excerpts.take(last) =~= rest);
        assert forall|place: (int, int, int)| place.0 < last implies (#[trigger] colors_bracket(
            start,
            excerpts,
            theme_count,
            auto_count,
            place,
            key,
            range,
        ) <==> colors_bracket(start, rest, theme_count, auto_count, place, key, range)) by {
            if 0 <= place.0 {
                assert(rest.take(place.0) =~= excerpts.take(place.0));
                assert(rest[place.0] == excerpts[place.0]);
            }
        }
        if excerpt.colorize_brackets && count > 0 {
            colorize::lemma_new_ranges_name_accents(seen, excerpt.chunks@, count);
            lemma_added_ranges(before.ranges, excerpt.mode, added, count, key, range);
        }
        if highlights::ranges_under(after.ranges, key).contains(range) {
            if highlights::ranges_under(before.ranges, key).contains(range) {
                let place = choose|place: (int, int, int)| #[trigger]
                    colors_bracket(start, rest, theme_count, auto_count, place, key, range);
                assert(colors_bracket(start, excerpts, theme_count, auto_count, place, key, range));
            } else {
                let accent = choose|accent: usize| #[trigger]
                    is_listed(added, accent, range) && key == highlights::spec_highlight_key(
                        excerpt.mode,
                        accent as int,
                    );
                lemma_listed_chunks(seen, excerpt.chunks@, count, accent, range);
                let (chunk, pair) = choose|chunk: int, pair: int| #[trigger]
                    falls_in_chunk(seen, excerpt.chunks@, count, accent, range, chunk, pair);
                assert(colors_bracket(
                    start,
                    excerpts,
                    theme_count,
                    auto_count,
                    (last, chunk, pair),
                    key,
                    range,
                ));
            }
        }
        if exists|place: (int, int, int)| #[trigger]
            colors_bracket(start, excerpts, theme_count, auto_count, place, key, range) {
            let place = choose|place: (int, int, int)| #[trigger]
                colors_bracket(start, excerpts, theme_count, auto_count, place, key, range);
            if place.0 < last {
                assert(colors_bracket(start, rest, theme_count, auto_count, place, key, range));
            } else {
                let pair = excerpt.chunks@[place.1].pairs@[place.2];
                let accent = (pair.color_index->0 % count) as usize;
                assert(falls_in_chunk(
                    seen,
                    excerpt.chunks@,
                    count,
                    accent,
                    range,
                    place.1,
                    place.2,
                ));
                lemma_listed_chunks(seen, excerpt.chunks@, count, accent, range);
                assert(is_listed(added, accent, range));
            }
        }
    } else {
        assert(!highlights::ranges_under(start.ranges, key).contains(range));
    }
}

/// A pass gives each shown bracket that it comes to the accent of its pair's depth,
/// counted round the accents of the excerpt's mode, and highlights no other range.
/// What it comes to are the pairs with a depth in chunks that are not fetched yet, of
/// excerpts that are coloured in a mode with accents.
pub proof fn law_brackets_get_the_accent_of_their_depth(
    start: Pass,
    excerpts: Seq<VisibleExcerpt>,
    theme_accents: Seq<Hsla>,
    auto_accents: Seq<Hsla>,
    shown: Seq<BracketHighlight>,
)
    requires
        start.ranges == Map::<usize, Seq<AnchorRange>>::empty(),
        theme_accents.len() <= usize::MAX / 2,
        auto_accents.len() <= usize::MAX / 2,
        colorize::shows_all(
            shown,
            colorize::pass_over_all(
                start,
                excerpts,
                theme_accents.len() as usize,
                auto_accents.len() as usize,
            ).ranges,
            theme_accents,
            auto_accents,
        ),
    ensures
        forall|place: (int, int, int), key: usize, range: AnchorRange| #[trigger]
            colors_bracket(
                start,
                excerpts,
                theme_accents.len() as usize,
                auto_accents.len() as usize,
                place,
                key,
                range,
            ) ==> {
                let excerpt = excerpts[place.0];
                let depth = excerpt.chunks@[place.1].pairs@[place.2].color_index->0 as int;
                exists|i: int|
                    0 <= i < shown.len() && (#[trigger] shown[i]).key == key
                        && shown[i].ranges@.contains(range) && shown[i].color
                        == match excerpt.mode {
                        BracketColorizationMode::Theme => theme_accents[depth
                            % theme_accents.len() as int],
                        BracketColorizationMode::Auto => auto_accents[depth
                            % auto_accents.len() as int],
                    }
            },
        forall|i: int, range: AnchorRange|
            0 <= i < shown.len() && #[trigger] shown[i].ranges@.contains(range) ==> exists|
                place: (int, int, int),
            | #[trigger]
                colors_bracket(
                    start,
                    excerpts,
                    theme_accents.len() as usize,
                    auto_accents.len() as usize,
                    place,
                    shown[i].key,
                    range,
                ),
{
    let theme_count = theme_accents.len() as usize;
    let auto_count = auto_accents.len() as usize;
    let done = colorize::pass_over_all(start, excerpts, theme_count, auto_count).ranges;
    assert forall|place: (int, int, int), key: usize, range: AnchorRange| #[trigger]
        colors_bracket(start, excerpts, theme_count, auto_count, place, key, range) implies {
        let excerpt = excerpts[place.0];
        let depth = excerpt.chunks@[place.1].pairs@[place.2].color_index->0 as int;
        exists|i: int|
            0 <= i < shown.len() && (#[trigger] shown[i]).key == key && shown[i].ranges@.contains(
                range,
            ) && shown[i].color == match excerpt.mode {
                BracketColorizationMode::Theme => theme_accents[depth % theme_accents.len() as int],
                BracketColorizationMode::Auto => auto_accents[depth % auto_accents.len() as int],
            }
    } by {
        lemma_pass_colors(start, excerpts, theme_count, auto_count, key, range);
        assert(done.dom().contains(key));
        let i = choose|i: int| 0 <= i < shown.len() && (#[trigger] shown[i]).key == key;
        assert(colorize::is_highlight(shown[i], done, theme_accents, auto_accents));
        let excerpt = excerpts[place.0];
        let depth = excerpt.chunks@[place.1].pairs@[place.2].color_index->0;
        let count = highlights::spec_accent_count(excerpt.mode, theme_count, auto_count);
        highlights::law_key_yields_its_accent(
            excerpt.mode,
            (depth % count) as int,
            theme_accents,
            auto_accents,
        );
    }
    assert forall|i: int, range: AnchorRange|
        0 <= i < shown.len() && #[trigger] shown[i].ranges@.contains(range) implies exists|
        place: (int, int, int),
    | #[trigger]
        colors_bracket(start, excerpts, theme_count, auto_count, place, shown[i].key, range) by {
        assert(colorize::is_highlight(shown[i], done, theme_accents, auto_accents));
        lemma_pass_colors(start, excerpts, theme_count, auto_count, shown[i].key, range);
    }
}

} // verus!
