//! Which text ranges are highlighted with which accent.

use std::collections::HashSet;
use vstd::prelude::*;

verus! {

/// A block of buffer rows whose brackets are fetched together.
#[derive(Clone, Copy, Debug, PartialEq, Eq, Structural)]
pub struct RowRange {
    pub start: u32,
    pub end: u32,
}

/// A range of the text by the positions of its ends, which order as the ends
/// stand in the text.
#[derive(Clone, Copy, Debug, PartialEq, Eq, Structural)]
pub struct AnchorRange {
    pub start: u64,
    pub end: u64,
}

/// Where the ends of a pair's brackets stand in the shown text; an end that is
/// not shown has no position.
#[derive(Clone, Copy, Debug, PartialEq, Eq, Structural)]
pub struct PairAnchors {
    pub open_start: Option<u64>,
    pub open_end: Option<u64>,
    pub close_start: Option<u64>,
    pub close_end: Option<u64>,
}

/// A pair of brackets found in a buffer.
#[derive(Clone, Copy, Debug, PartialEq, Eq, Structural)]
pub struct BracketMatch {
    /// The pair's nesting depth; a pair without one is not coloured.
    pub color_index: Option<usize>,
    /// `None` where the excerpt that holds the pair is no longer shown.
    pub anchors: Option<PairAnchors>,
}

/// The pairs of one block of rows.
#[derive(Clone, Debug)]
pub struct BracketChunk {
    pub rows: RowRange,
    pub pairs: Vec<BracketMatch>,
}

/// The number that stands for a row block.
spec fn block_number(rows: RowRange) -> u64 {
    (rows.start * 0x1_0000_0000 + rows.end) as u64
}

fn number_of_block(rows: RowRange) -> (number: u64)
    ensures
        number == block_number(rows),
{
    rows.start as u64 * 0x1_0000_0000 + rows.end as u64
}

/// A set of row blocks.
#[derive(Debug)]
pub struct ChunkSet {
    chunks: HashSet<u64>,
}

impl View for ChunkSet {
    type V = Set<RowRange>;

    closed spec fn view(&self) -> Set<RowRange> {
        Set::new(|rows: RowRange| self.chunks@.contains(block_number(rows)))
    }
}

impl ChunkSet {
    /// The set without any block.
    pub fn new() -> (set: Self)
        ensures
            set@ == Set::<RowRange>::empty(),
    {
        let set: ChunkSet = ChunkSet { chunks: HashSet::new() };
        assert(set@ =~= Set::<RowRange>::empty());
        set
    }

    /// Whether the set holds `rows`.
    pub fn contains(&self, rows: RowRange) -> (found: bool)
        ensures
            found == self@.contains(rows),
    {
        broadcast use vstd::std_specs::hash::group_hash_axioms;

        self.chunks.contains(&number_of_block(rows))
    }

    /// Adds `rows` and tells whether they were not in the set before.
    pub fn insert(&mut self, rows: RowRange) -> (inserted: bool)
        ensures
            inserted == !old(self)@.contains(rows),
            final(self)@ == old(self)@.insert(rows),
    {
        broadcast use vstd::std_specs::hash::group_hash_axioms;

        let inserted: bool = self.chunks.insert(number_of_block(rows));
        assert(self@ =~= old(self)@.insert(rows));
        inserted
    }
}

/// The ranges of one bracket pair, and the accent they get.
#[derive(Clone, Debug)]
pub struct AccentRanges {
    pub accent: usize,
    pub ranges: Vec<AnchorRange>,
}

impl View for AccentRanges {
    type V = (usize, Seq<AnchorRange>);

    open spec fn view(&self) -> (usize, Seq<AnchorRange>) {
        (self.accent, self.ranges@)
    }
}

/// The range between two positions, if both are shown.
pub open spec fn shown_range(start: Option<u64>, end: Option<u64>) -> Seq<AnchorRange> {
    match (start, end) {
        (Some(start), Some(end)) => seq![AnchorRange { start, end }],
        _ => Seq::empty(),
    }
}

/// The accent and the ranges of a pair: those of its brackets that are shown
/// from end to end. A pair without depth, or with neither bracket shown, has none.
pub open spec fn pair_ranges(pair: BracketMatch, accents_count: usize) -> Option<
    (usize, Seq<AnchorRange>),
> {
    match (pair.color_index, pair.anchors) {
        (Some(color_index), Some(anchors)) => {
            let ranges = shown_range(anchors.open_start, anchors.open_end) + shown_range(
                anchors.close_start,
                anchors.close_end,
            );
            if ranges.len() == 0 {
                None
            } else {
                Some((color_index % accents_count, ranges))
            }
        },
        _ => None,
    }
}

/// The accents and ranges of a list of pairs.
pub open spec fn all_pair_ranges(pairs: Seq<BracketMatch>, accents_count: usize) -> Seq<
    (usize, Seq<AnchorRange>),
>
    decreases pairs.len(),
{
    if pairs.len() == 0 {
        Seq::empty()
    } else {
        let before = all_pair_ranges(pairs.drop_last(), accents_count);
        match pair_ranges(pairs.last(), accents_count) {
            Some(ranges) => before.push(ranges),
            None => before,
        }
    }
}

/// The blocks that are fetched once `chunks` have been added.
pub open spec fn fetched_after(fetched: Set<RowRange>, chunks: Seq<BracketChunk>) -> Set<RowRange>
    decreases chunks.len(),
{
    if chunks.len() == 0 {
        fetched
    } else {
        fetched_after(fetched, chunks.drop_last()).insert(chunks.last().rows)
    }
}

/// The accents and ranges of those chunks that were not fetched before.
pub open spec fn new_ranges(
    fetched: Set<RowRange>,
    chunks: Seq<BracketChunk>,
    accents_count: usize,
) -> Seq<(usize, Seq<AnchorRange>)>
    decreases chunks.len(),
{
    if chunks.len() == 0 {
        Seq::empty()
    } else {
        let earlier = chunks.drop_last();
        let before = new_ranges(fetched, earlier, accents_count);
        if fetched_after(fetched, earlier).contains(chunks.last().rows) {
            before
        } else {
            before + all_pair_ranges(chunks.last().pairs@, accents_count)
        }
    }
}

/// What a list of accent ranges stands for.
pub open spec fn views(ranges: Seq<AccentRanges>) -> Seq<(usize, Seq<AnchorRange>)> {
    ranges.map_values(|r: AccentRanges| r@)
}

fn push_shown_range(ranges: &mut Vec<AnchorRange>, start: Option<u64>, end: Option<u64>)
    ensures
        final(ranges)@ == old(ranges)@ + shown_range(start, end),
{
    match (start, end) {
        (Some(start), Some(end)) => {
            ranges.push(AnchorRange { start, end });
            assert(ranges@ =~= old(ranges)@ + shown_range(Some(start), Some(end)));
        },
        _ => {
            assert(ranges@ =~= old(ranges)@ + shown_range(start, end));
        },
    }
}

/// The accents and ranges of the pairs in those chunks that are not fetched
/// yet; the chunks count as fetched from then on.
pub fn compute_bracket_ranges(
    chunks: &Vec<BracketChunk>,
    fetched: &mut ChunkSet,
    accents_count: usize,
) -> (ranges: Vec<AccentRanges>)
    requires
        accents_count > 0,
    ensures
        views(ranges@) == new_ranges(old(fetched)@, chunks@, accents_count),
        final(fetched)@ == fetched_after(old(fetched)@, chunks@),
{
    let mut result: Vec<AccentRanges> = Vec::new();
    let mut c: usize = 0;
    assert(views(result@) =~= Seq::empty());
    assert(chunks@.take(0) =~= Seq::empty());
    while c < chunks.len()
        invariant
            c <= chunks@.len(),
            accents_count > 0,
            views(result@) == new_ranges(old(fetched)@, chunks@.take(c as int), accents_count),
            fetched@ == fetched_after(old(fetched)@, chunks@.take(c as int)),
        decreases chunks@.len() - c,
    {
        let chunk: &BracketChunk = &chunks[c];
        let ghost taken = chunks@.take(c as int + 1);
        let ghost before = views(result@);
        assert(taken.drop_last() =~= chunks@.take(c as int));
        assert(taken.last() == chunk);
        if fetched.insert(chunk.rows) {
            let mut p: usize = 0;
            assert(chunk.pairs@.take(0) =~= Seq::empty());
            assert(views(result@) =~= before + all_pair_ranges(chunk.pairs@.take(0), accents_count));
            while p < chunk.pairs.len()
                invariant
                    p <= chunk.pairs@.len(),
                    accents_count > 0,
                    views(result@) == before + all_pair_ranges(
                        chunk.pairs@.take(p as int),
                        accents_count,
                    ),
                decreases chunk.pairs@.len() - p,
            {
                let pair: BracketMatch = chunk.pairs[p];
                let ghost so_far = result@;
                proof {
                    let pairs = chunk.pairs@.take(p as int + 1);
                    assert(pairs.drop_last() =~= chunk.pairs@.take(p as int));
                    assert(pairs.last() == pair);
                }
                if let (Some(color_index), Some(anchors)) = (pair.color_index, pair.anchors) {
                    let mut ranges: Vec<AnchorRange> = Vec::new();
                    push_shown_range(&mut ranges, anchors.open_start, anchors.open_end);
                    push_shown_range(&mut ranges, anchors.close_start, anchors.close_end);
                    assert(ranges@ =~= shown_range(anchors.open_start, anchors.open_end)
                        + shown_range(anchors.close_start, anchors.close_end));
                    if ranges.len() > 0 {
                        let entry: AccentRanges = AccentRanges {
                            accent: color_index % accents_count,
                            ranges,
                        };
                        let ghost entry_view = entry@;
                        result.push(entry);
                        assert(views(result@) =~= views(so_far).push(entry_view));
                    }
                }
                p = p + 1;
                assert(views(result@) =~= before + all_pair_ranges(
                    chunk.pairs@.take(p as int),
                    accents_count,
                ));
            }
            assert(chunk.pairs@.take(p as int) =~= chunk.pairs@);
        }
        c = c + 1;
    }
    assert(chunks@.take(c as int) =~= chunks@);
    result
}

/// Fetching the same chunks again yields nothing and changes nothing.
pub proof fn law_fetching_again_yields_nothing(
    fetched: Set<RowRange>,
    chunks: Seq<BracketChunk>,
    accents_count: usize,
)
    ensures
        new_ranges(fetched_after(fetched, chunks), chunks, accents_count).len() == 0,
        fetched_after(fetched_after(fetched, chunks), chunks) == fetched_after(fetched, chunks),
{
    assert forall|i: int| 0 <= i < chunks.len() implies fetched_after(fetched, chunks).contains(
        (#[trigger] chunks[i]).rows,
    ) by {
        lemma_fetched_after_contains(fetched, chunks, i);
    }
    lemma_known_chunks_yield_nothing(fetched_after(fetched, chunks), chunks, accents_count);
}

proof fn lemma_fetched_after_contains(fetched: Set<RowRange>, chunks: Seq<BracketChunk>, i: int)
    requires
        0 <= i < chunks.len(),
    ensures
        fetched_after(fetched, chunks).contains(chunks[i].rows),
    decreases chunks.len(),
{
    if i < chunks.len() - 1 {
        lemma_fetched_after_contains(fetched, chunks.drop_last(), i);
    }
}

/// Chunks that are all fetched already yield no ranges.
pub proof fn lemma_known_chunks_yield_nothing(
    fetched: Set<RowRange>,
    chunks: Seq<BracketChunk>,
    accents_count: usize,
)
    ensures
        (forall|i: int| 0 <= i < chunks.len() ==> fetched.contains((#[trigger] chunks[i]).rows)) ==> {
            &&& new_ranges(fetched, chunks, accents_count).len() == 0
            &&& fetched_after(fetched, chunks) == fetched
        },
    decreases chunks.len(),
{
    if chunks.len() > 0 && (forall|i: int|
        0 <= i < chunks.len() ==> fetched.contains((#[trigger] chunks[i]).rows)) {
        let earlier = chunks.drop_last();
        assert forall|i: int| 0 <= i < earlier.len() implies fetched.contains(
            (#[trigger] earlier[i]).rows,
        ) by {
            assert(earlier[i] == chunks[i]);
        }
        lemma_known_chunks_yield_nothing(fetched, earlier, accents_count);
        assert(chunks.last() == chunks[chunks.len() - 1]);
        assert(fetched.insert(chunks.last().rows) =~= fetched);
    }
}

} // verus!
