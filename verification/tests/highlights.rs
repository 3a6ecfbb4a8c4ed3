use editor_platform::brackets::colorize::{
    bracket_matches_by_accent, BracketHighlight, ColorizedBrackets, VisibleExcerpt,
};
use editor_platform::brackets::fetched::FetchedChunks;
use editor_platform::brackets::highlights::{
    accent_count_for_mode, bracket_color_for_highlight_key, highlight_key_for_mode,
    HighlightRanges,
};
use editor_platform::brackets::palette::{BracketColorizationMode, Hsla};
use editor_platform::brackets::ranges::{
    compute_bracket_ranges, AnchorRange, BracketChunk, BracketMatch, ChunkSet, PairAnchors,
    RowRange,
};

fn color(h: u32) -> Hsla {
    Hsla { h, s: 1, l: 2, a: 3 }
}

fn range(start: u64, end: u64) -> AnchorRange {
    AnchorRange { start, end }
}

fn rows(start: u32, end: u32) -> RowRange {
    RowRange { start, end }
}

fn pair(depth: usize, open: u64, close: u64) -> BracketMatch {
    BracketMatch {
        color_index: Some(depth),
        anchors: Some(PairAnchors {
            open_start: Some(open),
            open_end: Some(open + 1),
            close_start: Some(close),
            close_end: Some(close + 1),
        }),
    }
}

/// The brackets of `fn main() { () }`, by depth.
fn chunk() -> BracketChunk {
    BracketChunk {
        rows: rows(0, 50),
        pairs: vec![pair(0, 7, 8), pair(0, 10, 15), pair(1, 12, 13)],
    }
}

fn excerpt(id: u64, mode: BracketColorizationMode, chunks: Vec<BracketChunk>) -> VisibleExcerpt {
    VisibleExcerpt { excerpt_id: id, colorize_brackets: true, mode, chunks }
}

fn shown(colorized: &ColorizedBrackets) -> Vec<(usize, u32, Vec<AnchorRange>)> {
    let mut shown: Vec<(usize, u32, Vec<AnchorRange>)> = colorized
        .highlights
        .iter()
        .map(|BracketHighlight { key, color, ranges }| (*key, color.h, ranges.clone()))
        .collect();
    shown.sort_by_key(|entry| entry.0);
    shown
}

#[test]
fn brackets_are_colored_by_depth() {
    let mut fetched = FetchedChunks::new();
    let excerpts = vec![excerpt(1, BracketColorizationMode::Theme, vec![chunk()])];
    let colorized = fetched
        .colorize_brackets(true, false, &excerpts, &vec![color(10), color(20)], &vec![color(30)])
        .expect("the editor is a full one");
    assert!(!colorized.clear_highlights);
    assert_eq!(
        shown(&colorized),
        vec![
            (0, 10, vec![range(7, 8), range(8, 9), range(10, 11), range(15, 16)]),
            (2, 20, vec![range(12, 13), range(13, 14)]),
        ]
    );
}

#[test]
fn depths_beyond_the_accents_start_over() {
    let mut fetched = FetchedChunks::new();
    let excerpts = vec![excerpt(1, BracketColorizationMode::Auto, vec![chunk()])];
    let colorized = fetched
        .colorize_brackets(true, false, &excerpts, &vec![color(10), color(20)], &vec![color(30)])
        .expect("the editor is a full one");
    assert_eq!(
        shown(&colorized),
        vec![(
            1,
            30,
            vec![
                range(7, 8),
                range(8, 9),
                range(10, 11),
                range(12, 13),
                range(13, 14),
                range(15, 16),
            ]
        )]
    );
}

#[test]
fn second_pass_adds_nothing_until_invalidated() {
    let mut fetched = FetchedChunks::new();
    let excerpts = vec![excerpt(1, BracketColorizationMode::Theme, vec![chunk()])];
    let accents = vec![color(10), color(20)];
    let first = fetched.colorize_brackets(true, false, &excerpts, &accents, &accents);
    assert_eq!(first.map(|pass| pass.highlights.len()), Some(2));
    let second = fetched.colorize_brackets(true, false, &excerpts, &accents, &accents);
    assert_eq!(second.map(|pass| pass.highlights.len()), Some(0));
    let third = fetched
        .colorize_brackets(true, true, &excerpts, &accents, &accents)
        .expect("the editor is a full one");
    assert!(third.clear_highlights);
    assert_eq!(third.highlights.len(), 2);
}

#[test]
fn only_full_editors_with_accents_are_colored() {
    let mut fetched = FetchedChunks::new();
    let excerpts = vec![excerpt(1, BracketColorizationMode::Theme, vec![chunk()])];
    let accents = vec![color(10)];
    assert!(fetched.colorize_brackets(false, true, &excerpts, &accents, &accents).is_none());
    let none = fetched.colorize_brackets(true, false, &excerpts, &vec![], &accents);
    assert_eq!(none.map(|pass| pass.highlights.len()), Some(0));
    let off = vec![VisibleExcerpt { colorize_brackets: false, ..excerpts[0].clone() }];
    let off = fetched.colorize_brackets(true, false, &off, &accents, &accents);
    assert_eq!(off.map(|pass| pass.highlights.len()), Some(0));
    let on = fetched.colorize_brackets(true, false, &excerpts, &accents, &accents);
    assert_eq!(on.map(|pass| pass.highlights.len()), Some(1));
}

#[test]
fn excerpts_are_fetched_on_their_own() {
    let mut fetched = FetchedChunks::new();
    let excerpts = vec![
        excerpt(1, BracketColorizationMode::Theme, vec![chunk()]),
        excerpt(2, BracketColorizationMode::Auto, vec![chunk()]),
        excerpt(1, BracketColorizationMode::Theme, vec![chunk()]),
    ];
    let matches = bracket_matches_by_accent(&excerpts, &mut fetched, 2, 2);
    let mut keys: Vec<usize> = matches.entries.keys().copied().collect();
    keys.sort();
    assert_eq!(keys, vec![0, 1, 2, 3]);
    let total: usize = matches.entries.values().map(Vec::len).sum();
    assert_eq!(total, 12);
    assert!(fetched.take(2).contains(rows(0, 50)));
}

#[test]
fn pairs_out_of_sight_are_left_out() {
    let half = BracketMatch {
        color_index: Some(0),
        anchors: Some(PairAnchors {
            open_start: Some(1),
            open_end: None,
            close_start: Some(5),
            close_end: Some(6),
        }),
    };
    let uncolored = BracketMatch { color_index: None, ..pair(0, 20, 21) };
    let unresolved = BracketMatch { color_index: Some(3), anchors: None };
    let chunks = vec![BracketChunk {
        rows: rows(0, 9),
        pairs: vec![half, uncolored, unresolved, pair(5, 30, 40)],
    }];
    let mut fetched = ChunkSet::new();
    let ranges = compute_bracket_ranges(&chunks, &mut fetched, 3);
    assert_eq!(ranges.len(), 2);
    assert_eq!((ranges[0].accent, ranges[0].ranges.clone()), (0, vec![range(5, 6)]));
    assert_eq!(
        (ranges[1].accent, ranges[1].ranges.clone()),
        (2, vec![range(30, 31), range(40, 41)])
    );
    assert!(fetched.contains(rows(0, 9)));
    assert!(compute_bracket_ranges(&chunks, &mut fetched, 3).is_empty());
}

#[test]
fn keys_stand_for_a_mode_and_an_accent() {
    let theme_mode = BracketColorizationMode::Theme;
    let auto_mode = BracketColorizationMode::Auto;
    assert_eq!(highlight_key_for_mode(theme_mode, 3), 6);
    assert_eq!(highlight_key_for_mode(auto_mode, 3), 7);
    assert_eq!(accent_count_for_mode(theme_mode, 4, 5), 4);
    assert_eq!(accent_count_for_mode(auto_mode, 4, 5), 5);
    let theme = vec![color(1), color(2)];
    let auto = vec![color(3), color(4)];
    assert_eq!(bracket_color_for_highlight_key(2, &theme, &auto), color(2));
    assert_eq!(bracket_color_for_highlight_key(1, &theme, &auto), color(3));
}

#[test]
fn ranges_are_kept_in_order() {
    let mut ranges = HighlightRanges::new();
    ranges.add_ranges(4, &vec![range(10, 11), range(2, 3)]);
    ranges.add_ranges(5, &vec![range(1, 2)]);
    ranges.add_ranges(4, &vec![range(5, 6), range(2, 4)]);
    let added = ranges.entries.get(&4).expect("ranges were added");
    let starts: Vec<u64> = added.iter().map(|range| range.start).collect();
    assert_eq!(starts, vec![2, 2, 5, 10]);
    assert_eq!(ranges.entries.len(), 2);
}
