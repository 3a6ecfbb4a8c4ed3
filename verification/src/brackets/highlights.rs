//! Highlight keys, the ranges collected under each key, and the pass that
//! turns fetched brackets into coloured highlights.

use crate::brackets::palette::{BracketColorizationMode, Hsla};
use crate::brackets::ranges::AnchorRange;
use std::collections::HashMap;
use vstd::prelude::*;

verus! {

/// How many accents a mode chooses from.
pub fn accent_count_for_mode(
    mode: BracketColorizationMode,
    theme_count: usize,
    auto_count: usize,
) -> (count: usize)
    ensures
        count == spec_accent_count(mode, theme_count, auto_count),
{
    match mode {
        BracketColorizationMode::Theme => theme_count,
        BracketColorizationMode::Auto => auto_count,
    }
}

pub open spec fn spec_accent_count(
    mode: BracketColorizationMode,
    theme_count: usize,
    auto_count: usize,
) -> usize {
    match mode {
        BracketColorizationMode::Theme => theme_count,
        BracketColorizationMode::Auto => auto_count,
    }
}

/// The key of an accent in a mode: even keys belong to theme mode, odd ones to
/// auto mode.
pub open spec fn spec_highlight_key(mode: BracketColorizationMode, accent_number: int) -> int {
    accent_number * 2 + match mode {
        BracketColorizationMode::Theme => 0int,
        BracketColorizationMode::Auto => 1int,
    }
}

/// The key under which an accent's ranges are highlighted in a mode.
pub fn highlight_key_for_mode(mode: BracketColorizationMode, accent_number: usize) -> (key: usize)
    requires
        accent_number <= (usize::MAX - 1) / 2,
    ensures
        key == spec_highlight_key(mode, accent_number as int),
{
    accent_number * 2 + match mode {
        BracketColorizationMode::Theme => 0,
        BracketColorizationMode::Auto => 1,
    }
}

/// A key stands for exactly one mode and one accent.
pub proof fn law_highlight_keys_are_distinct(
    left_mode: BracketColorizationMode,
    left_accent: int,
    right_mode: BracketColorizationMode,
    right_accent: int,
)
    requires
        spec_highlight_key(left_mode, left_accent) == spec_highlight_key(right_mode, right_accent),
    ensures
        left_mode == right_mode,
        left_accent == right_accent,
{
}

/// The colour that a key stands for.
pub open spec fn spec_color_for_key(
    highlight_key: int,
    theme_accents: Seq<Hsla>,
    auto_accents: Seq<Hsla>,
) -> Hsla {
    if highlight_key % 2 == 0 {
        theme_accents[highlight_key / 2]
    } else {
        auto_accents[highlight_key / 2]
    }
}

/// The accent that a key names exists.
pub open spec fn key_in_range(highlight_key: int, theme_count: int, auto_count: int) -> bool {
    0 <= highlight_key / 2 < if highlight_key % 2 == 0 {
        theme_count
    } else {
        auto_count
    }
}

/// The colour of the accent that a key stands for.
pub fn bracket_color_for_highlight_key(
    highlight_key: usize,
    theme_accents: &Vec<Hsla>,
    auto_accents: &Vec<Hsla>,
) -> (color: Hsla)
    requires
        key_in_range(
            highlight_key as int,
            theme_accents@.len() as int,
            auto_accents@.len() as int,
        ),
    ensures
        color == spec_color_for_key(highlight_key as int, theme_accents@, auto_accents@),
{
    let accent_number: usize = highlight_key / 2;
    if highlight_key % 2 == 0 {
        theme_accents[accent_number]
    } else {
        auto_accents[accent_number]
    }
}

/// The key of an accent yields that accent's colour in that mode's palette.
pub proof fn law_key_yields_its_accent(
    mode: BracketColorizationMode,
    accent_number: int,
    theme_accents: Seq<Hsla>,
    auto_accents: Seq<Hsla>,
)
    requires
        0 <= accent_number < match mode {
            BracketColorizationMode::Theme => theme_accents.len(),
            BracketColorizationMode::Auto => auto_accents.len(),
        },
    ensures
        key_in_range(
            spec_highlight_key(mode, accent_number),
            theme_accents.len() as int,
            auto_accents.len() as int,
        ),
        spec_color_for_key(spec_highlight_key(mode, accent_number), theme_accents, auto_accents)
            == match mode {
            BracketColorizationMode::Theme => theme_accents[accent_number],
            BracketColorizationMode::Auto => auto_accents[accent_number],
        },
{
}

/// Ranges in the order of their starts.
pub open spec fn sorted_by_start(ranges: Seq<AnchorRange>) -> bool {
    forall|i: int, j: int| 0 <= i <= j < ranges.len() ==> ranges[i].start <= ranges[j].start
}

/// How many of a sorted list of ranges start before `start`.
pub open spec fn starts_before(ranges: Seq<AnchorRange>, start: u64) -> int
    decreases ranges.len(),
{
    if ranges.len() == 0 {
        0
    } else if ranges.last().start < start {
        ranges.len() as int
    } else {
        starts_before(ranges.drop_last(), start)
    }
}

/// The list with `range` added in front of the first range that does not start
/// before it.
pub open spec fn with_range(ranges: Seq<AnchorRange>, range: AnchorRange) -> Seq<AnchorRange> {
    ranges.insert(starts_before(ranges, range.start), range)
}

/// The list with each of `added` put in its place in turn.
pub open spec fn with_ranges(ranges: Seq<AnchorRange>, added: Seq<AnchorRange>) -> Seq<AnchorRange>
    decreases added.len(),
{
    if added.len() == 0 {
        ranges
    } else {
        with_range(with_ranges(ranges, added.drop_last()), added.last())
    }
}

proof fn lemma_starts_before(ranges: Seq<AnchorRange>, start: u64, position: int)
    requires
        0 <= position <= ranges.len(),
        forall|i: int| 0 <= i < position ==> (#[trigger] ranges[i]).start < start,
        forall|i: int| position <= i < ranges.len() ==> start <= (#[trigger] ranges[i]).start,
    ensures
        starts_before(ranges, start) == position,
    decreases ranges.len(),
{
    if ranges.len() > 0 {
        if position == ranges.len() {
            assert(ranges[ranges.len() - 1].start < start);
        } else {
            assert(start <= ranges[ranges.len() - 1].start);
            lemma_starts_before(ranges.drop_last(), start, position);
        }
    }
}

proof fn lemma_starts_before_splits(ranges: Seq<AnchorRange>, start: u64)
    requires
        sorted_by_start(ranges),
    ensures
        0 <= starts_before(ranges, start) <= ranges.len(),
        forall|i: int|
            0 <= i < starts_before(ranges, start) ==> (#[trigger] ranges[i]).start < start,
        forall|i: int|
            starts_before(ranges, start) <= i < ranges.len() ==> start <= (#[trigger] ranges[i]).start,
    decreases ranges.len(),
{
    if ranges.len() > 0 {
        let rest = ranges.drop_last();
        lemma_starts_before_splits(rest, start);
        if ranges.last().start < start {
            assert forall|i: int| 0 <= i < ranges.len() implies (#[trigger] ranges[i]).start < start by {
                assert(ranges[i].start <= ranges[ranges.len() - 1].start);
            }
        } else {
            assert forall|i: int| 0 <= i < starts_before(ranges, start) implies (
            #[trigger] ranges[i]).start < start by {
                assert(rest[i] == ranges[i]);
            }
            assert forall|i: int| starts_before(ranges, start) <= i < ranges.len() implies start <= (
            #[trigger] ranges[i]).start by {
                if i < rest.len() {
                    assert(rest[i] == ranges[i]);
                }
            }
        }
    }
}

/// Adding a range keeps a list in order and every range in it.
pub proof fn law_adding_keeps_order(ranges: Seq<AnchorRange>, range: AnchorRange)
    requires
        sorted_by_start(ranges),
    ensures
        sorted_by_start(with_range(ranges, range)),
        with_range(ranges, range).to_multiset() == ranges.to_multiset().insert(range),
{
    lemma_starts_before_splits(ranges, range.start);
    let position = starts_before(ranges, range.start);
    let result = with_range(ranges, range);
    assert forall|i: int, j: int| 0 <= i <= j < result.len() implies result[i].start
        <= result[j].start by {
        if i < position {
            assert(result[i] == ranges[i]);
        } else if i > position {
            assert(result[i] == ranges[i - 1]);
        }
        if j < position {
            assert(result[j] == ranges[j]);
        } else if j > position {
            assert(result[j] == ranges[j - 1]);
        }
    }
    broadcast use vstd::seq_lib::group_to_multiset_ensures;

    assert(result.remove(position) =~= ranges);
    assert(result[position] == range);
    assert(result.to_multiset().remove(range) =~= ranges.to_multiset());
    assert(result.contains(range));
    assert(result.to_multiset() =~= ranges.to_multiset().insert(range));
}

proof fn lemma_adding_all_keeps_order(ranges: Seq<AnchorRange>, added: Seq<AnchorRange>)
    requires
        sorted_by_start(ranges),
    ensures
        sorted_by_start(with_ranges(ranges, added)),
    decreases added.len(),
{
    if added.len() > 0 {
        lemma_adding_all_keeps_order(ranges, added.drop_last());
        law_adding_keeps_order(with_ranges(ranges, added.drop_last()), added.last());
    }
}

/// Puts a range in its place in a sorted list.
fn insert_range(ranges: &mut Vec<AnchorRange>, range: AnchorRange)
    requires
        sorted_by_start(old(ranges)@),
    ensures
        final(ranges)@ == with_range(old(ranges)@, range),
        sorted_by_start(final(ranges)@),
{
    let mut low: usize = 0;
    let mut high: usize = ranges.len();
    while low < high
        invariant
            low <= high <= ranges@.len(),
            ranges@ == old(ranges)@,
            sorted_by_start(ranges@),
            forall|i: int| 0 <= i < low ==> (#[trigger] ranges@[i]).start < range.start,
            forall|i: int| high <= i < ranges@.len() ==> range.start <= (#[trigger] ranges@[i]).start,
        decreases high - low,
    {
        let middle: usize = low + (high - low) / 2;
        if ranges[middle].start < range.start {
            low = middle + 1;
        } else {
            high = middle;
        }
    }
    proof {
        lemma_starts_before(ranges@, range.start, low as int);
        law_adding_keeps_order(ranges@, range);
    }
    ranges.insert(low, range);
}

/// The ranges collected so far, by key.
#[derive(Clone, Debug)]
pub struct HighlightRanges {
    pub entries: HashMap<usize, Vec<AnchorRange>>,
}

impl View for HighlightRanges {
    type V = Map<usize, Seq<AnchorRange>>;

    open spec fn view(&self) -> Map<usize, Seq<AnchorRange>> {
        self.entries@.map_values(|ranges: Vec<AnchorRange>| ranges@)
    }
}

/// The ranges under a key, none where the key is new.
pub open spec fn ranges_under(ranges: Map<usize, Seq<AnchorRange>>, key: usize) -> Seq<AnchorRange> {
    if ranges.dom().contains(key) {
        ranges[key]
    } else {
        Seq::empty()
    }
}

impl HighlightRanges {
    /// Each list is in order.
    pub open spec fn well_formed(&self) -> bool {
        forall|key: usize| #[trigger]
            self@.dom().contains(key) ==> sorted_by_start(self@[key])
    }

    /// No ranges under any key.
    pub fn new() -> (ranges: Self)
        ensures
            ranges.well_formed(),
            ranges@ == Map::<usize, Seq<AnchorRange>>::empty(),
    {
        let ranges: HighlightRanges = HighlightRanges { entries: HashMap::new() };
        assert(ranges@ =~= Map::<usize, Seq<AnchorRange>>::empty());
        ranges
    }

    /// Adds ranges under a key, each in its place.
    pub fn add_ranges(&mut self, key: usize, added: &Vec<AnchorRange>)
        requires
            old(self).well_formed(),
        ensures
            final(self).well_formed(),
            final(self)@ == old(self)@.insert(
                key,
                with_ranges(ranges_under(old(self)@, key), added@),
            ),
    {
        broadcast use vstd::std_specs::hash::group_hash_axioms;

        let mut ranges: Vec<AnchorRange> = match self.entries.remove(&key) {
            Some(ranges) => ranges,
            None => Vec::new(),
        };
        let ghost start = ranges@;
        assert(start =~= ranges_under(old(self)@, key));
        assert(sorted_by_start(start)) by {
            if old(self)@.dom().contains(key) {
                assert(sorted_by_start(old(self)@[key]));
            }
        }
        let mut i: usize = 0;
        while i < added.len()
            invariant
                i <= added@.len(),
                sorted_by_start(ranges@),
                ranges@ == with_ranges(start, added@.take(i as int)),
            decreases added@.len() - i,
        {
            assert(added@.take(i as int + 1).drop_last() =~= added@.take(i as int));
            insert_range(&mut ranges, added[i]);
            i = i + 1;
        }
        assert(added@.take(i as int) =~= added@);
        self.entries.insert(key, ranges);
        assert(self@ =~= old(self)@.insert(
            key,
            with_ranges(ranges_under(old(self)@, key), added@),
        ));
    }
}

} // verus!
