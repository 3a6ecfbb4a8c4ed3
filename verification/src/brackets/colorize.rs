//! The pass that turns fetched brackets into coloured highlights.

use crate::brackets::fetched::FetchedChunks;
use crate::brackets::highlights::{
    accent_count_for_mode, bracket_color_for_highlight_key, highlight_key_for_mode, HighlightRanges,
};
use crate::brackets::palette::{BracketColorizationMode, Hsla};
use crate::brackets::ranges::{
    compute_bracket_ranges, AccentRanges, AnchorRange, BracketChunk, BracketMatch, ChunkSet, RowRange,
};
use crate::brackets::{fetched, highlights, ranges};
use vstd::prelude::*;

verus! {

/// An excerpt on screen and the brackets found in it.
#[derive(Clone, Debug)]
pub struct VisibleExcerpt {
    pub excerpt_id: u64,
    /// Whether the settings of the excerpt's language ask for coloured brackets.
    pub colorize_brackets: bool,
    pub mode: BracketColorizationMode,
    pub chunks: Vec<BracketChunk>,
}

/// Ranges to highlight in one colour.
#[derive(Clone, Debug)]
pub struct BracketHighlight {
    pub key: usize,
    pub color: Hsla,
    pub ranges: Vec<AnchorRange>,
}

/// What the editor does after a pass.
#[derive(Clone, Debug)]
pub struct ColorizedBrackets {
    /// Remove every bracket highlight before adding the new ones.
    pub clear_highlights: bool,
    pub highlights: Vec<BracketHighlight>,
}

/// What is fetched, and what is highlighted under each key, part way through.
pub struct Pass {
    pub fetched: Map<u64, Set<RowRange>>,
    pub ranges: Map<usize, Seq<AnchorRange>>,
}

/// Ranges added pair by pair, each under the key of its accent.
pub open spec fn with_accent_ranges(
    ranges: Map<usize, Seq<AnchorRange>>,
    mode: BracketColorizationMode,
    added: Seq<(usize, Seq<AnchorRange>)>,
) -> Map<usize, Seq<AnchorRange>>
    decreases added.len(),
{
    if added.len() == 0 {
        ranges
    } else {
        let before = with_accent_ranges(ranges, mode, added.drop_last());
        let key = highlights::spec_highlight_key(mode, added.last().0 as int) as usize;
        before.insert(
            key,
            highlights::with_ranges(
                highlights::ranges_under(before, key),
                added.last().1,
            ),
        )
    }
}

/// The pass over one excerpt: one without coloured brackets is passed over;
/// else its new chunks are fetched and their ranges added. Where the mode has no
/// accents, nothing is fetched.
pub open spec fn pass_over(
    pass: Pass,
    excerpt: VisibleExcerpt,
    theme_count: usize,
    auto_count: usize,
) -> Pass {
    let id = excerpt.excerpt_id;
    let seen = fetched::fetched_of(pass.fetched, id);
    let count = highlights::spec_accent_count(
        excerpt.mode,
        theme_count,
        auto_count,
    );
    if !excerpt.colorize_brackets {
        pass
    } else if count == 0 {
        Pass { fetched: pass.fetched.insert(id, seen), ranges: pass.ranges }
    } else {
        Pass {
            fetched: pass.fetched.insert(id, ranges::fetched_after(seen, excerpt.chunks@)),
            ranges: with_accent_ranges(
                pass.ranges,
                excerpt.mode,
                ranges::new_ranges(seen, excerpt.chunks@, count),
            ),
        }
    }
}

/// The pass over every excerpt in turn.
pub open spec fn pass_over_all(
    pass: Pass,
    excerpts: Seq<VisibleExcerpt>,
    theme_count: usize,
    auto_count: usize,
) -> Pass
    decreases excerpts.len(),
{
    if excerpts.len() == 0 {
        pass
    } else {
        pass_over(
            pass_over_all(pass, excerpts.drop_last(), theme_count, auto_count),
            excerpts.last(),
            theme_count,
            auto_count,
        )
    }
}

/// Every key names an accent of its mode.
pub open spec fn keys_in_range(
    ranges: Map<usize, Seq<AnchorRange>>,
    theme_count: usize,
    auto_count: usize,
) -> bool {
    forall|key: usize| #[trigger]
        ranges.dom().contains(key) ==> highlights::key_in_range(
            key as int,
            theme_count as int,
            auto_count as int,
        )
}

pub(crate) proof fn lemma_new_ranges_name_accents(
    fetched: Set<RowRange>,
    chunks: Seq<BracketChunk>,
    accents_count: usize,
)
    requires
        accents_count > 0,
    ensures
        forall|i: int|
            0 <= i < ranges::new_ranges(fetched, chunks, accents_count).len() ==> (#[trigger] ranges::new_ranges(
                fetched,
                chunks,
                accents_count,
            )[i]).0 < accents_count,
    decreases chunks.len(),
{
    if chunks.len() > 0 {
        let before = ranges::new_ranges(fetched, chunks.drop_last(), accents_count);
        let added = ranges::all_pair_ranges(chunks.last().pairs@, accents_count);
        let all = ranges::new_ranges(fetched, chunks, accents_count);
        lemma_new_ranges_name_accents(fetched, chunks.drop_last(), accents_count);
        lemma_pair_ranges_name_accents(chunks.last().pairs@, accents_count);
        assert forall|i: int| 0 <= i < all.len() implies (#[trigger] all[i]).0 < accents_count by {
            if i < before.len() {
                assert(all[i] == before[i]);
            } else {
                assert(all[i] == added[i - before.len()]);
            }
        }
    }
}

proof fn lemma_pair_ranges_name_accents(
    pairs: Seq<BracketMatch>,
    accents_count: usize,
)
    requires
        accents_count > 0,
    ensures
        forall|i: int|
            0 <= i < ranges::all_pair_ranges(pairs, accents_count).len() ==> (
            #[trigger] ranges::all_pair_ranges(pairs, accents_count)[i]).0
                < accents_count,
    decreases pairs.len(),
{
    if pairs.len() > 0 {
        let before = ranges::all_pair_ranges(pairs.drop_last(), accents_count);
        let all = ranges::all_pair_ranges(pairs, accents_count);
        lemma_pair_ranges_name_accents(pairs.drop_last(), accents_count);
        assert forall|i: int| 0 <= i < all.len() implies (#[trigger] all[i]).0 < accents_count by {
            if i < before.len() {
                assert(all[i] == before[i]);
            }
        }
    }
}

/// The ranges to highlight, by key, over all visible excerpts; the chunks that
/// were looked at count as fetched.
pub fn bracket_matches_by_accent(
    excerpts: &Vec<VisibleExcerpt>,
    fetched: &mut FetchedChunks,
    theme_count: usize,
    auto_count: usize,
) -> (matches: HighlightRanges)
    requires
        theme_count <= usize::MAX / 2,
        auto_count <= usize::MAX / 2,
    ensures
        matches.well_formed(),
        ({
            let done = pass_over_all(
                (Pass { fetched: old(fetched)@, ranges: Map::empty() }),
                excerpts@,
                theme_count,
                auto_count,
            );
            final(fetched)@ == done.fetched && matches@ == done.ranges
        }),
        keys_in_range(matches@, theme_count, auto_count),
{
    let mut matches: HighlightRanges = HighlightRanges::new();
    let ghost start = Pass { fetched: fetched@, ranges: Map::empty() };
    let mut e: usize = 0;
    assert(excerpts@.take(0) =~= Seq::empty());
    while e < excerpts.len()
        invariant
            e <= excerpts@.len(),
            theme_count <= usize::MAX / 2,
            auto_count <= usize::MAX / 2,
            matches.well_formed(),
            (Pass { fetched: fetched@, ranges: matches@ }) == pass_over_all(
                start,
                excerpts@.take(e as int),
                theme_count,
                auto_count,
            ),
            keys_in_range(matches@, theme_count, auto_count),
        decreases excerpts@.len() - e,
    {
        let excerpt: &VisibleExcerpt = &excerpts[e];
        let ghost before = Pass { fetched: fetched@, ranges: matches@ };
        proof {
            let taken = excerpts@.take(e as int + 1);
            assert(taken.drop_last() =~= excerpts@.take(e as int));
            assert(taken.last() == excerpt);
        }
        if excerpt.colorize_brackets {
            let mut chunks: ChunkSet = fetched.take(excerpt.excerpt_id);
            let ghost seen = chunks@;
            let count: usize = accent_count_for_mode(excerpt.mode, theme_count, auto_count);
            if count == 0 {
                fetched.put(excerpt.excerpt_id, chunks);
                assert(fetched@ =~= before.fetched.insert(excerpt.excerpt_id, seen));
            } else {
                let found: Vec<AccentRanges> = compute_bracket_ranges(
                    &excerpt.chunks,
                    &mut chunks,
                    count,
                );
                let ghost added = ranges::new_ranges(seen, excerpt.chunks@, count);
                proof {
                    lemma_new_ranges_name_accents(seen, excerpt.chunks@, count);
                }
                fetched.put(excerpt.excerpt_id, chunks);
                assert(fetched@ =~= before.fetched.insert(
                    excerpt.excerpt_id,
                    ranges::fetched_after(seen, excerpt.chunks@),
                ));
                let mut i: usize = 0;
                assert(added.take(0) =~= Seq::empty());
                while i < found.len()
                    invariant
                        i <= found@.len(),
                        theme_count <= usize::MAX / 2,
                        auto_count <= usize::MAX / 2,
                        count == highlights::spec_accent_count(
                            excerpt.mode,
                            theme_count,
                            auto_count,
                        ),
                        ranges::views(found@) == added,
                        forall|k: int| 0 <= k < added.len() ==> (#[trigger] added[k]).0 < count,
                        matches.well_formed(),
                        matches@ == with_accent_ranges(
                            before.ranges,
                            excerpt.mode,
                            added.take(i as int),
                        ),
                        keys_in_range(matches@, theme_count, auto_count),
                    decreases found@.len() - i,
                {
                    proof {
                        assert(added[i as int] == found@[i as int]@);
                        assert(added.take(i as int + 1).drop_last() =~= added.take(i as int));
                        assert(added.take(i as int + 1).last() == added[i as int]);
                    }
                    let key: usize = highlight_key_for_mode(excerpt.mode, found[i].accent);
                    matches.add_ranges(key, &found[i].ranges);
                    i = i + 1;
                }
                assert(added.take(i as int) =~= added);
            }
        }
        e = e + 1;
    }
    assert(excerpts@.take(e as int) =~= excerpts@);
    matches
}

/// A highlight shows the ranges collected under its key, in the key's colour.
pub open spec fn is_highlight(
    highlight: BracketHighlight,
    ranges: Map<usize, Seq<AnchorRange>>,
    theme_accents: Seq<Hsla>,
    auto_accents: Seq<Hsla>,
) -> bool {
    &&& ranges.dom().contains(highlight.key)
    &&& highlight.ranges@ == ranges[highlight.key]
    &&& highlights::sorted_by_start(highlight.ranges@)
    &&& highlights::key_in_range(
        highlight.key as int,
        theme_accents.len() as int,
        auto_accents.len() as int,
    )
    &&& highlight.color == highlights::spec_color_for_key(
        highlight.key as int,
        theme_accents,
        auto_accents,
    )
}

/// The highlights show every key once.
pub open spec fn shows_all(
    highlights: Seq<BracketHighlight>,
    ranges: Map<usize, Seq<AnchorRange>>,
    theme_accents: Seq<Hsla>,
    auto_accents: Seq<Hsla>,
) -> bool {
    &&& forall|i: int|
        0 <= i < highlights.len() ==> is_highlight(
            #[trigger] highlights[i],
            ranges,
            theme_accents,
            auto_accents,
        )
    &&& forall|i: int, j: int|
        0 <= i < j < highlights.len() ==> (#[trigger] highlights[i]).key != (
        #[trigger] highlights[j]).key
    &&& forall|key: usize| #[trigger]
        ranges.dom().contains(key) ==> exists|i: int|
            0 <= i < highlights.len() && (#[trigger] highlights[i]).key == key
}

/// Every chunk of an excerpt that is coloured has been fetched.
pub open spec fn is_covered(
    fetched: Map<u64, Set<RowRange>>,
    excerpt: VisibleExcerpt,
    theme_count: usize,
    auto_count: usize,
) -> bool {
    excerpt.colorize_brackets ==> {
        &&& fetched.dom().contains(excerpt.excerpt_id)
        &&& highlights::spec_accent_count(excerpt.mode, theme_count, auto_count) > 0 ==> forall|c: int|
            0 <= c < excerpt.chunks@.len() ==> fetched[excerpt.excerpt_id].contains(
                (#[trigger] excerpt.chunks@[c]).rows,
            )
    }
}

proof fn lemma_fetched_after_grows(seen: Set<RowRange>, chunks: Seq<BracketChunk>)
    ensures
        seen.subset_of(ranges::fetched_after(seen, chunks)),
        forall|c: int|
            0 <= c < chunks.len() ==> ranges::fetched_after(seen, chunks).contains(
                (#[trigger] chunks[c]).rows,
            ),
    decreases chunks.len(),
{
    if chunks.len() > 0 {
        let earlier = chunks.drop_last();
        lemma_fetched_after_grows(seen, earlier);
        assert forall|c: int| 0 <= c < chunks.len() implies ranges::fetched_after(
            seen,
            chunks,
        ).contains((#[trigger] chunks[c]).rows) by {
            if c < earlier.len() {
                assert(earlier[c] == chunks[c]);
            }
        }
    }
}

proof fn lemma_pass_covers(
    pass: Pass,
    excerpts: Seq<VisibleExcerpt>,
    theme_count: usize,
    auto_count: usize,
)
    ensures
        forall|i: int|
            0 <= i < excerpts.len() ==> is_covered(
                pass_over_all(pass, excerpts, theme_count, auto_count).fetched,
                #[trigger] excerpts[i],
                theme_count,
                auto_count,
            ),
    decreases excerpts.len(),
{
    if excerpts.len() > 0 {
        let earlier = excerpts.drop_last();
        let last = excerpts.last();
        let before = pass_over_all(pass, earlier, theme_count, auto_count);
        let after = pass_over_all(pass, excerpts, theme_count, auto_count);
        lemma_pass_covers(pass, earlier, theme_count, auto_count);
        lemma_fetched_after_grows(
            fetched::fetched_of(before.fetched, last.excerpt_id),
            last.chunks@,
        );
        assert forall|i: int| 0 <= i < excerpts.len() implies is_covered(
            after.fetched,
            #[trigger] excerpts[i],
            theme_count,
            auto_count,
        ) by {
            if i < earlier.len() {
                assert(earlier[i] == excerpts[i]);
                assert(is_covered(before.fetched, earlier[i], theme_count, auto_count));
            }
        }
    }
}

proof fn lemma_covered_pass_adds_nothing(
    pass: Pass,
    excerpts: Seq<VisibleExcerpt>,
    theme_count: usize,
    auto_count: usize,
)
    requires
        forall|i: int|
            0 <= i < excerpts.len() ==> is_covered(
                pass.fetched,
                #[trigger] excerpts[i],
                theme_count,
                auto_count,
            ),
    ensures
        pass_over_all(pass, excerpts, theme_count, auto_count) == pass,
    decreases excerpts.len(),
{
    if excerpts.len() > 0 {
        let earlier = excerpts.drop_last();
        let last = excerpts.last();
        assert forall|i: int| 0 <= i < earlier.len() implies is_covered(
            pass.fetched,
            #[trigger] earlier[i],
            theme_count,
            auto_count,
        ) by {
            assert(earlier[i] == excerpts[i]);
        }
        lemma_covered_pass_adds_nothing(pass, earlier, theme_count, auto_count);
        assert(is_covered(pass.fetched, excerpts[excerpts.len() - 1], theme_count, auto_count));
        let id = last.excerpt_id;
        let seen = fetched::fetched_of(pass.fetched, id);
        let count = highlights::spec_accent_count(last.mode, theme_count, auto_count);
        if last.colorize_brackets {
            assert(pass.fetched.insert(id, seen) =~= pass.fetched);
            if count > 0 {
                ranges::lemma_known_chunks_yield_nothing(seen, last.chunks@, count);
                assert(ranges::new_ranges(seen, last.chunks@, count) =~= Seq::empty());
            }
        }
    }
}

/// A pass over excerpts that were passed over before finds nothing new: it adds
/// no highlight and leaves what is fetched as it is.
pub proof fn law_second_pass_adds_nothing(
    pass: Pass,
    excerpts: Seq<VisibleExcerpt>,
    theme_count: usize,
    auto_count: usize,
)
    ensures
        ({
            let fetched = pass_over_all(pass, excerpts, theme_count, auto_count).fetched;
            pass_over_all(
                Pass { fetched, ranges: Map::empty() },
                excerpts,
                theme_count,
                auto_count,
            ) == (Pass { fetched, ranges: Map::empty() })
        }),
{
    let fetched = pass_over_all(pass, excerpts, theme_count, auto_count).fetched;
    lemma_pass_covers(pass, excerpts, theme_count, auto_count);
    lemma_covered_pass_adds_nothing(
        Pass { fetched, ranges: Map::empty() },
        excerpts,
        theme_count,
        auto_count,
    );
}

impl FetchedChunks {
    /// The state that a pass starts from: nothing is fetched where it starts over.
    pub open spec fn pass_start(&self, invalidate: bool) -> Pass {
        Pass {
            fetched: if invalidate {
                Map::empty()
            } else {
                self@
            },
            ranges: Map::empty(),
        }
    }

    /// Colours the brackets of the visible excerpts. An editor that is not a
    /// full one gets nothing. With `invalidate` all earlier work is dropped:
    /// every chunk is looked at again and the old highlights are removed.
    pub fn colorize_brackets(
        &mut self,
        full_mode: bool,
        invalidate: bool,
        excerpts: &Vec<VisibleExcerpt>,
        theme_accents: &Vec<Hsla>,
        auto_accents: &Vec<Hsla>,
    ) -> (colorized: Option<ColorizedBrackets>)
        requires
            theme_accents@.len() <= usize::MAX / 2,
            auto_accents@.len() <= usize::MAX / 2,
        ensures
            !full_mode ==> colorized is None && *final(self) == *old(self),
            full_mode ==> colorized is Some,
            full_mode ==> ({
                let done = pass_over_all(
                    old(self).pass_start(invalidate),
                    excerpts@,
                    theme_accents@.len() as usize,
                    auto_accents@.len() as usize,
                );
                &&& final(self)@ == done.fetched
                &&& colorized->0.clear_highlights == invalidate
                &&& shows_all(
                    colorized->0.highlights@,
                    done.ranges,
                    theme_accents@,
                    auto_accents@,
                )
            }),
    {
        if !full_mode {
            return None;
        }
        if invalidate {
            self.clear();
        }
        let matches: HighlightRanges = bracket_matches_by_accent(
            excerpts,
            self,
            theme_accents.len(),
            auto_accents.len(),
        );
        let highlights: Vec<BracketHighlight> = highlights_of(matches, theme_accents, auto_accents);
        Some(ColorizedBrackets { clear_highlights: invalidate, highlights })
    }
}

/// Gives each list of ranges the colour of its key.
fn highlights_of(
    matches: HighlightRanges,
    theme_accents: &Vec<Hsla>,
    auto_accents: &Vec<Hsla>,
) -> (highlights: Vec<BracketHighlight>)
    requires
        matches.well_formed(),
        keys_in_range(matches@, theme_accents@.len() as usize, auto_accents@.len() as usize),
    ensures
        shows_all(highlights@, matches@, theme_accents@, auto_accents@),
{
    broadcast use vstd::std_specs::hash::group_hash_axioms;

    let mut highlights: Vec<BracketHighlight> = Vec::new();
    let entries = matches.entries.iter();
    let ghost pairs = vstd::std_specs::iter::IteratorSpec::remaining(&entries);
    proof {
        assert forall|k: int| 0 <= k < pairs.len() implies matches@.dom().contains(
            *(#[trigger] pairs[k]).0,
        ) && matches@[*pairs[k].0] == pairs[k].1@ by {
            assert(matches.entries@.contains_key(*pairs[k].0));
        }
    }
    for entry in walk: entries
        invariant
            walk.seq() == pairs,
            matches.well_formed(),
            forall|k: int|
                0 <= k < pairs.len() ==> matches@.dom().contains(*(#[trigger] pairs[k]).0)
                    && matches@[*pairs[k].0] == pairs[k].1@,
            keys_in_range(matches@, theme_accents@.len() as usize, auto_accents@.len() as usize),
            highlights@.len() == walk.index(),
            forall|k: int|
                0 <= k < walk.index() ==> is_highlight(
                    #[trigger] highlights@[k],
                    matches@,
                    theme_accents@,
                    auto_accents@,
                ) && highlights@[k].key == *pairs[k].0,
    {
        let (key, ranges) = entry;
        assert((key, ranges) == pairs[walk.index()]);
        let ranges: Vec<AnchorRange> = copy_ranges(ranges);
        let color: Hsla = bracket_color_for_highlight_key(*key, theme_accents, auto_accents);
        highlights.push(BracketHighlight { key: *key, color, ranges });
    }
    proof {
        assert forall|key: usize| #[trigger] matches@.dom().contains(key) implies exists|k: int|
            0 <= k < highlights@.len() && (#[trigger] highlights@[k]).key == key by {
            assert(matches.entries@.contains_key(key));
            let k = choose|k: int| 0 <= k < pairs.len() && pairs[k] == (&key, &matches.entries@[key]);
            assert(highlights@[k].key == key);
        }
        assert forall|a: int, b: int| 0 <= a < b < highlights@.len() implies (
        #[trigger] highlights@[a]).key != (#[trigger] highlights@[b]).key by {
            assert(pairs[a] != pairs[b]);
        }
    }
    highlights
}

fn copy_ranges(ranges: &Vec<AnchorRange>) -> (copy: Vec<AnchorRange>)
    ensures
        copy@ == ranges@,
{
    let mut copy: Vec<AnchorRange> = Vec::new();
    let mut i: usize = 0;
    while i < ranges.len()
        invariant
            i <= ranges@.len(),
            copy@ == ranges@.take(i as int),
        decreases ranges@.len() - i,
    {
        copy.push(ranges[i]);
        i = i + 1;
        assert(copy@ =~= ranges@.take(i as int));
    }
    assert(copy@ =~= ranges@);
    copy
}

} // verus!
