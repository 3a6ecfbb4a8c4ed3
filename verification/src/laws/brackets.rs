//! What is coloured of fetched brackets, told by the brackets.

use crate::brackets::auto_mode::BracketColorizationPaletteAnalysis;
use crate::brackets::colorize::{BracketHighlight, Pass, VisibleExcerpt};
use crate::brackets::fetched::FetchedChunks;
use crate::brackets::palette::{
    Appearance, AutoBracketColorizationConfig, BracketColorizationMode, Hsla, MeasuredPalette,
};
use crate::brackets::highlights::HighlightRanges;
use crate::brackets::ranges::{
    AccentRanges, AnchorRange, BracketChunk, BracketMatch, PairAnchors, RowRange,
};
use crate::brackets::{auto_mode, colorize, fetched, highlights, palette, ranges, single};
use crate::laws;
use crate::rounding;
use vstd::prelude::*;

verus! {

/// The brackets of a pair are coloured where they are shown from end to end, the opening
/// one first, with the accent of the pair's depth counted round the accents. A pair
/// without depth, or without a shown bracket, is not coloured.
pub proof fn law_pairs_color_their_shown_brackets(
    depth: usize,
    anchors: PairAnchors,
    count: usize,
)
    requires
        count > 0,
    ensures
        ({
            let opens = anchors.open_start is Some && anchors.open_end is Some;
            let closes = anchors.close_start is Some && anchors.close_end is Some;
            let colored = ranges::pair_ranges(
                BracketMatch { color_index: Some(depth), anchors: Some(anchors) },
                count,
            );
            &&& ranges::pair_ranges(
                BracketMatch { color_index: None, anchors: Some(anchors) },
                count,
            ) is None
            &&& ranges::pair_ranges(
                BracketMatch { color_index: Some(depth), anchors: None },
                count,
            ) is None
            &&& colored is Some == (opens || closes)
            &&& colored matches Some((accent, shown)) ==> {
                &&& accent < count
                &&& (depth - accent) % (count as int) == 0
                &&& shown.len() == laws::report::one_if(opens) + laws::report::one_if(closes)
                &&& opens ==> shown[0] == (AnchorRange {
                    start: anchors.open_start->0,
                    end: anchors.open_end->0,
                })
                &&& closes ==> shown.last() == (AnchorRange {
                    start: anchors.close_start->0,
                    end: anchors.close_end->0,
                })
            }
        }),
{
    let accent = depth % count;
    vstd::arithmetic::div_mod::lemma_fundamental_div_mod(depth as int, count as int);
    vstd::arithmetic::div_mod::lemma_mod_multiples_basic(
        depth as int / count as int,
        count as int,
    );
    assert((count as int) * (depth as int / count as int) == (depth as int / count as int) * (
    count as int)) by (nonlinear_arith);
}

/// The pairs of a chunk are coloured in their order, each on its own.
pub proof fn law_pairs_are_colored_in_order(
    pairs: Seq<BracketMatch>,
    pair: BracketMatch,
    count: usize,
)
    ensures
        ranges::all_pair_ranges(Seq::empty(), count).len() == 0,
        ranges::all_pair_ranges(pairs.push(pair), count) == match ranges::pair_ranges(
            pair,
            count,
        ) {
            Some(colored) => ranges::all_pair_ranges(pairs, count).push(colored),
            None => ranges::all_pair_ranges(pairs, count),
        },
{
    assert(pairs.push(pair).drop_last() =~= pairs);
}

/// After a pass exactly those blocks are fetched that were fetched before or were come
/// to.
pub proof fn law_what_is_come_to_is_fetched(
    seen: Set<RowRange>,
    chunks: Seq<BracketChunk>,
    rows: RowRange,
)
    ensures
        ranges::fetched_after(seen, chunks).contains(rows) == (seen.contains(rows) || exists|
            index: int,
        |
            0 <= index < chunks.len() && (#[trigger] chunks[index]).rows == rows),
    decreases chunks.len(),
{
    if chunks.len() > 0 {
        let fewer = chunks.drop_last();
        law_what_is_come_to_is_fetched(seen, fewer, rows);
        assert(chunks.last() == chunks[chunks.len() - 1]);
        if ranges::fetched_after(seen, fewer).contains(rows) && !seen.contains(rows) {
            let index = choose|index: int|
                0 <= index < fewer.len() && (#[trigger] fewer[index]).rows == rows;
            assert(chunks[index].rows == rows);
        }
        if exists|index: int| 0 <= index < chunks.len() && (#[trigger] chunks[index]).rows == rows {
            let index = choose|index: int|
                0 <= index < chunks.len() && (#[trigger] chunks[index]).rows == rows;
            if index < fewer.len() {
                assert(fewer[index].rows == rows);
            }
        }
    }
}

/// A chunk whose rows were fetched before, or come earlier in the same list, adds
/// nothing; any other adds all its pairs behind those of the chunks before it.
pub proof fn law_each_block_is_colored_once(
    seen: Set<RowRange>,
    chunks: Seq<BracketChunk>,
    chunk: BracketChunk,
    count: usize,
)
    ensures
        ranges::new_ranges(seen, Seq::empty(), count).len() == 0,
        ranges::new_ranges(seen, chunks.push(chunk), count) == if seen.contains(chunk.rows) || (
        exists|index: int|
            0 <= index < chunks.len() && (#[trigger] chunks[index]).rows == chunk.rows) {
            ranges::new_ranges(seen, chunks, count)
        } else {
            ranges::new_ranges(seen, chunks, count) + ranges::all_pair_ranges(
                chunk.pairs@,
                count,
            )
        },
{
    assert(chunks.push(chunk).drop_last() =~= chunks);
    law_what_is_come_to_is_fetched(seen, chunks, chunk.rows);
}

/// What was fetched of an excerpt is remembered by its number; of one that was never
/// come to, nothing was.
pub proof fn law_excerpts_are_remembered_by_number(
    all: Map<u64, Set<RowRange>>,
    id: u64,
    rows: RowRange,
)
    ensures
        fetched::fetched_of(all, id).contains(rows) == (all.contains_key(id) && all[id].contains(
            rows,
        )),
{
}

/// A range is put before the first one that does not start before it.
pub proof fn law_ranges_are_put_in_their_place(list: Seq<AnchorRange>, range: AnchorRange)
    requires
        highlights::sorted_by_start(list),
    ensures
        exists|place: int| #[trigger] is_put_at(list, range, place),
{
    let place = highlights::starts_before(list, range.start);
    lemma_split(list, range.start);
    let after = highlights::with_range(list, range);
    assert(after.take(place) =~= list.take(place));
    assert(after.skip(place + 1) =~= list.skip(place));
    assert(is_put_at(list, range, place));
}

/// A range stands at a place, with those before it that start before it, and behind it
/// those that do not.
pub open spec fn is_put_at(list: Seq<AnchorRange>, range: AnchorRange, place: int) -> bool {
    let after = highlights::with_range(list, range);
    &&& 0 <= place <= list.len()
    &&& after.len() == list.len() + 1
    &&& after[place] == range
    &&& after.take(place) == list.take(place)
    &&& after.skip(place + 1) == list.skip(place)
    &&& forall|index: int| 0 <= index < place ==> (#[trigger] list[index]).start < range.start
    &&& forall|index: int|
        place <= index < list.len() ==> (#[trigger] list[index]).start >= range.start
}

proof fn lemma_split(list: Seq<AnchorRange>, start: u64)
    requires
        highlights::sorted_by_start(list),
    ensures
        0 <= highlights::starts_before(list, start) <= list.len(),
        forall|index: int|
            0 <= index < highlights::starts_before(list, start) ==> (#[trigger] list[index]).start
                < start,
        forall|index: int|
            highlights::starts_before(list, start) <= index < list.len() ==> (
            #[trigger] list[index]).start >= start,
    decreases list.len(),
{
    if list.len() > 0 {
        let fewer = list.drop_last();
        assert(highlights::sorted_by_start(fewer));
        lemma_split(fewer, start);
        if list.last().start < start {
            assert forall|index: int| 0 <= index < list.len() implies (
            #[trigger] list[index]).start < start by {
                assert(list[index].start <= list[list.len() - 1].start);
            }
        } else {
            assert forall|index: int|
                0 <= index < highlights::starts_before(list, start) implies (
            #[trigger] list[index]).start < start by {
                assert(fewer[index] == list[index]);
            }
            assert forall|index: int|
                highlights::starts_before(list, start) <= index < list.len() implies (
            #[trigger] list[index]).start >= start by {
                if index < fewer.len() {
                    assert(fewer[index] == list[index]);
                }
            }
        }
    }
}

/// Accents of the theme have even keys and those of auto mode odd ones, in their order,
/// and each mode counts its own accents.
pub proof fn law_keys_alternate_between_modes(accent: int, theme: usize, auto: usize)
    ensures
        highlights::spec_highlight_key(BracketColorizationMode::Theme, accent) == 2 * accent,
        highlights::spec_highlight_key(BracketColorizationMode::Auto, accent) == 2 * accent + 1,
        highlights::spec_accent_count(BracketColorizationMode::Theme, theme, auto) == theme,
        highlights::spec_accent_count(BracketColorizationMode::Auto, theme, auto) == auto,
{
}

/// The mean distance of a palette's score is that of the distances from each accent to
/// the next, the last being followed by the first, and the mean contrast that of the
/// contrasts.
pub proof fn law_scores_hold_the_means(measured: &MeasuredPalette)
    requires
        measured.well_formed(),
        measured.accents@.len() >= 2,
    ensures
        ({
            let n = measured.accents@.len() as int;
            let around = Seq::new(
                n as nat,
                |i: int| measured.distances@[i]@[if i == n - 1 { 0 } else { i + 1 }],
            );
            let score = measured.spec_score();
            &&& score.average_adjacent_distance == single::rounded_mean(around) as i64
            &&& score.average_background_contrast == single::rounded_mean(measured.contrasts@) as i64
        }),
{
    let n = measured.accents@.len() as int;
    let around = Seq::new(
        n as nat,
        |i: int| measured.distances@[i]@[if i == n - 1 { 0 } else { i + 1 }],
    );
    assert(measured.adjacent_distances() =~= around);
}

/// A light theme's accents are reordered from five thousandths below its threshold on,
/// where that difference has a single-precision number of its own.
pub proof fn law_light_themes_are_left_alone_longer(config: AutoBracketColorizationConfig)
    requires
        config.minimum_adjacent_oklab_light > 5_497_558_016,
        single::rounded(config.minimum_adjacent_oklab_light - 5_497_558_016)
            == config.minimum_adjacent_oklab_light - 5_497_558_016,
    ensures
        palette::spec_minimum_adjacent_intervention_distance(Appearance::Light, config)
            == config.minimum_adjacent_oklab_light - 5_497_558_016,
        -32_768_000 <= 1000 * 5_497_558_016 - 5 * 1_099_511_627_776 <= 32_768_000,
{
}

/// In the mode of the theme nothing is changed and nothing is demanded.
pub proof fn law_the_theme_is_kept_in_its_mode(
    analysis: BracketColorizationPaletteAnalysis,
    original: &MeasuredPalette,
    appearance: Appearance,
)
    requires
        analysis.is_theme_analysis(original, appearance),
    ensures
        analysis.mode is Theme,
        analysis.appearance == appearance,
        analysis.original_palette@ == original.accents@,
        analysis.final_palette@ == original.accents@,
        analysis.original_score == original.spec_score(),
        analysis.final_score == original.spec_score(),
        analysis.adjacent_threshold is None,
        analysis.background_threshold is None,
        !analysis.changed,
        analysis.strategy is ThemeOrder,
{
}

/// A palette that auto mode reordered is scored in the order that it ends with: its
/// least distance is that of two neighbours there, and no two are closer.
pub proof fn law_reordered_palettes_are_scored_anew(
    analysis: BracketColorizationPaletteAnalysis,
    original: &MeasuredPalette,
    adjusted: &MeasuredPalette,
    appearance: Appearance,
    config: AutoBracketColorizationConfig,
)
    requires
        adjusted.well_formed(),
        adjusted.accents@.len() == original.accents@.len(),
        analysis.is_auto_analysis(original, adjusted, appearance, config),
        analysis.strategy is ReorderedWeakPalette
            || analysis.strategy is AdjustedBackgroundAndReorderedPalette,
    ensures
        analysis.mode is Auto,
        analysis.appearance == appearance,
        ({
            let order = adjusted.separated_order();
            let n = adjusted.accents@.len() as int;
            &&& order.len() == n
            &&& forall|i: int|
                0 <= i < n ==> analysis.final_score.min_adjacent_distance
                    <= adjusted.distances@[(#[trigger] order[i]) as int]@[order[if i == n - 1 {
                    0
                } else {
                    i + 1
                }] as int]
            &&& exists|i: int|
                0 <= i < n && analysis.final_score.min_adjacent_distance == adjusted.distances@[(
                #[trigger] order[i]) as int]@[order[if i == n - 1 {
                    0
                } else {
                    i + 1
                }] as int]
            &&& analysis.final_score.average_adjacent_distance == single::rounded_mean(
                Seq::new(
                    n as nat,
                    |i: int|
                        adjusted.distances@[order[i] as int]@[order[if i == n - 1 {
                            0
                        } else {
                            i + 1
                        }] as int],
                ),
            ) as i64
        }),
{
    assert(auto_mode::reorders(adjusted, appearance, config));
    palette::law_separated_order_fits(adjusted);
    let order = adjusted.separated_order();
    let n = adjusted.accents@.len() as int;
    let adjacent = adjusted.adjacent_distances_in(order);
    laws::palette::lemma_least(adjacent);
    let around = Seq::new(
        n as nat,
        |i: int|
            adjusted.distances@[order[i] as int]@[order[if i == n - 1 {
                0
            } else {
                i + 1
            }] as int],
    );
    assert(adjacent =~= around);
    assert forall|i: int| 0 <= i < n implies analysis.final_score.min_adjacent_distance
        <= adjusted.distances@[(#[trigger] order[i]) as int]@[order[if i == n - 1 {
        0
    } else {
        i + 1
    }] as int] by {
        assert(adjacent[i] == around[i]);
    }
    let at = choose|i: int| 0 <= i < adjacent.len() && #[trigger] adjacent[i] == palette::least(
        adjacent,
    );
    assert(around[at] == adjusted.distances@[order[at] as int]@[order[if at == n - 1 {
        0
    } else {
        at + 1
    }] as int]);
}

/// An excerpt whose language does not ask for coloured brackets is passed over. In a
/// mode without accents nothing new is fetched. Else what is come to is fetched, and
/// its ranges are added. Other excerpts keep what was fetched of them.
pub proof fn law_excerpts_are_passed_over_by_mode(
    pass: Pass,
    excerpt: VisibleExcerpt,
    theme: usize,
    auto: usize,
    other: u64,
)
    ensures
        ({
            let next = colorize::pass_over(pass, excerpt, theme, auto);
            let id = excerpt.excerpt_id;
            let seen = fetched::fetched_of(pass.fetched, id);
            let count = match excerpt.mode {
                BracketColorizationMode::Theme => theme,
                BracketColorizationMode::Auto => auto,
            };
            &&& !excerpt.colorize_brackets ==> next == pass
            &&& excerpt.colorize_brackets ==> {
                &&& next.fetched.contains_key(id)
                &&& count == 0 ==> next.fetched[id] == seen && next.ranges == pass.ranges
                &&& count > 0 ==> {
                    &&& next.fetched[id] == ranges::fetched_after(seen, excerpt.chunks@)
                    &&& next.ranges == colorize::with_accent_ranges(
                        pass.ranges,
                        excerpt.mode,
                        ranges::new_ranges(seen, excerpt.chunks@, count),
                    )
                }
                &&& other != id ==> next.fetched.contains_key(other)
                    == pass.fetched.contains_key(other) && fetched::fetched_of(
                    next.fetched,
                    other,
                ) == fetched::fetched_of(pass.fetched, other)
            }
        }),
{
}

/// Excerpts are passed over in their order, and ranges are added in theirs, each under
/// the key of its accent and mode.
pub proof fn law_passes_go_in_order(
    pass: Pass,
    excerpts: Seq<VisibleExcerpt>,
    excerpt: VisibleExcerpt,
    theme: usize,
    auto: usize,
    held: Map<usize, Seq<AnchorRange>>,
    mode: BracketColorizationMode,
    added: Seq<(usize, Seq<AnchorRange>)>,
    accent: usize,
    shown: Seq<AnchorRange>,
    other: usize,
)
    requires
        accent <= (usize::MAX - 1) / 2,
    ensures
        colorize::pass_over_all(pass, Seq::empty(), theme, auto) == pass,
        colorize::pass_over_all(pass, excerpts.push(excerpt), theme, auto) == colorize::pass_over(
            colorize::pass_over_all(pass, excerpts, theme, auto),
            excerpt,
            theme,
            auto,
        ),
        colorize::with_accent_ranges(held, mode, Seq::empty()) == held,
        ({
            let before = colorize::with_accent_ranges(held, mode, added);
            let after = colorize::with_accent_ranges(held, mode, added.push((accent, shown)));
            let key = match mode {
                BracketColorizationMode::Theme => (2 * accent) as usize,
                BracketColorizationMode::Auto => (2 * accent + 1) as usize,
            };
            &&& after.contains_key(key)
            &&& before.contains_key(key) ==> after[key] == highlights::with_ranges(
                before[key],
                shown,
            )
            &&& !before.contains_key(key) ==> after[key] == highlights::with_ranges(
                Seq::empty(),
                shown,
            )
            &&& other != key ==> after.contains_key(other) == before.contains_key(other)
                && after[other] == before[other]
        }),
{
    assert(excerpts.push(excerpt).drop_last() =~= excerpts);
    assert(added.push((accent, shown)).drop_last() =~= added);
}

/// Several ranges are put in their places one after the other.
pub proof fn law_ranges_are_added_one_by_one(
    list: Seq<AnchorRange>,
    added: Seq<AnchorRange>,
    range: AnchorRange,
)
    ensures
        highlights::with_ranges(list, Seq::empty()) == list,
        highlights::with_ranges(list, added.push(range)) == highlights::with_range(
            highlights::with_ranges(list, added),
            range,
        ),
{
    assert(added.push(range).drop_last() =~= added);
}

/// Highlights show each key once, with all its ranges in the order of their starts, in
/// the colour of the accent that the key is double or one more than double of.
pub proof fn law_highlights_show_their_ranges(
    shown: Seq<BracketHighlight>,
    held: Map<usize, Seq<AnchorRange>>,
    theme_accents: Seq<Hsla>,
    auto_accents: Seq<Hsla>,
    place: int,
    other: int,
    key: usize,
)
    requires
        colorize::shows_all(shown, held, theme_accents, auto_accents),
        0 <= place < shown.len(),
        0 <= other < shown.len(),
    ensures
        held.contains_key(shown[place].key),
        shown[place].ranges@ == held[shown[place].key],
        forall|first: int, second: int|
            0 <= first <= second < shown[place].ranges@.len() ==> (
            #[trigger] shown[place].ranges@[first]).start <= (
            #[trigger] shown[place].ranges@[second]).start,
        shown[place].key % 2 == 0 ==> shown[place].color == theme_accents[shown[place].key as int
            / 2],
        shown[place].key % 2 == 1 ==> shown[place].color == auto_accents[shown[place].key as int
            / 2],
        place != other ==> shown[place].key != shown[other].key,
        held.contains_key(key) ==> exists|index: int|
            0 <= index < shown.len() && (#[trigger] shown[index]).key == key,
{
    assert(colorize::is_highlight(shown[place], held, theme_accents, auto_accents));
}

/// A pass that starts over has fetched nothing; any other goes on from what was fetched.
/// Neither starts with highlights.
pub proof fn law_passes_may_start_over(chunks: FetchedChunks)
    ensures
        chunks.pass_start(true).fetched == Map::<u64, Set<RowRange>>::empty(),
        chunks.pass_start(false).fetched == chunks@,
        chunks.pass_start(true).ranges == Map::<usize, Seq<AnchorRange>>::empty(),
        chunks.pass_start(false).ranges == Map::<usize, Seq<AnchorRange>>::empty(),
{
}

/// A number is rounded to the nearest of single precision: it keeps its sign, is kept
/// where it has no more than 24 bits, and else moves by no more than half of the
/// spacing, of which it holds at least eight million.
pub proof fn law_measures_are_rounded_to_single_precision(value: int)
    ensures
        ({
            let rounded = single::rounded(value);
            let size = if value < 0 {
                -value
            } else {
                value
            };
            &&& single::rounded(-value) == -rounded
            &&& -16_777_216 < value < 16_777_216 ==> rounded == value
            &&& exists|spaced: nat| #[trigger]
                is_within_half(value, rounded, spaced) && (spaced > 1 ==> 8_388_608 * spaced
                    <= size)
        }),
{
    let size = if value < 0 {
        (-value) as nat
    } else {
        value as nat
    };
    let limit = single::SINGLE_LIMIT as nat;
    rounding::lemma_quotient_error(size, 1, limit);
    rounding::lemma_spacing_covers(size, limit);
    assert(size / 1 == size);
    let spaced = rounding::spacing(size, limit);
    if size < 16_777_216 {
        rounding::lemma_small_numbers_are_kept(size, limit);
    }
    assert(rounding::nearest_quotient(0, 1, limit) == 0) by {
        rounding::lemma_small_numbers_are_kept(0, limit);
    }
    assert(is_within_half(value, single::rounded(value), spaced));
}

/// Two numbers lie no further apart than half of a spacing.
pub open spec fn is_within_half(left: int, right: int, spaced: nat) -> bool {
    -(spaced as int) <= 2 * (right - left) <= spaced
}

/// A sum is rounded after each number that is added.
pub proof fn law_sums_are_rounded_step_by_step(values: Seq<i64>, value: i64)
    ensures
        single::rounded_sum(Seq::empty()) == 0,
        single::rounded_sum(values.push(value)) == single::rounded(
            single::rounded_sum(values) + value,
        ),
{
    assert(values.push(value).drop_last() =~= values);
}

/// What is coloured is read as it is held.
pub proof fn law_colored_ranges_are_read_as_held(
    entry: AccentRanges,
    held: HighlightRanges,
    key: usize,
)
    ensures
        entry@.0 == entry.accent,
        entry@.1 == entry.ranges@,
        held@.contains_key(key) == held.entries@.contains_key(key),
        held.entries@.contains_key(key) ==> held@[key] == held.entries@[key]@,
{
}

} // verus!
