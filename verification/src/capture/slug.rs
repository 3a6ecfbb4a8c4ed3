//! File-name slugs.

use crate::text;
use vstd::prelude::*;

verus! {

/// A letter or digit of ASCII.
pub open spec fn is_alphanumeric(c: char) -> bool {
    ('0' <= c <= '9') || ('A' <= c <= 'Z') || ('a' <= c <= 'z')
}

/// The character with an upper-case ASCII letter lowered.
pub open spec fn lowered(c: char) -> char {
    if 'A' <= c <= 'Z' {
        (c as u32 + 0x20) as char
    } else {
        c
    }
}

/// The input with its letters lowered and every run of other characters
/// replaced by one dash.
pub open spec fn dashed(input: Seq<char>) -> Seq<char>
    decreases input.len(),
{
    if input.len() == 0 {
        Seq::empty()
    } else {
        let before = dashed(input.drop_last());
        if is_alphanumeric(input.last()) {
            before.push(lowered(input.last()))
        } else if before.len() > 0 && before.last() == '-' {
            before
        } else {
            before.push('-')
        }
    }
}

/// The text without a dash at its start. A dashed text has at most one there.
pub open spec fn without_leading_dash(text: Seq<char>) -> Seq<char> {
    if text.len() > 0 && text[0] == '-' {
        text.drop_first()
    } else {
        text
    }
}

/// The text without a dash at its end.
pub open spec fn without_trailing_dash(text: Seq<char>) -> Seq<char> {
    if text.len() > 0 && text.last() == '-' {
        text.drop_last()
    } else {
        text
    }
}

/// The slug of a name.
pub open spec fn slug_of(input: Seq<char>) -> Seq<char> {
    without_trailing_dash(without_leading_dash(dashed(input)))
}

/// Letters lowered, digits and single dashes between them.
pub open spec fn is_dashed(text: Seq<char>) -> bool {
    &&& forall|i: int|
        0 <= i < text.len() ==> ('0' <= #[trigger] text[i] <= '9') || ('a' <= text[i] <= 'z')
            || text[i] == '-'
    &&& forall|i: int|
        0 <= i < text.len() - 1 && #[trigger] text[i] == '-' ==> text[i + 1] != '-'
}

/// A slug: no dash at either end either.
pub open spec fn is_slug(text: Seq<char>) -> bool {
    &&& is_dashed(text)
    &&& text.len() > 0 ==> text[0] != '-' && text.last() != '-'
}

proof fn lemma_dashed(input: Seq<char>)
    ensures
        is_dashed(dashed(input)),
    decreases input.len(),
{
    if input.len() > 0 {
        lemma_dashed(input.drop_last());
        let before = dashed(input.drop_last());
        let after = dashed(input);
        assert forall|i: int| 0 <= i < after.len() - 1 && #[trigger] after[i] == '-' implies after[i
            + 1] != '-' by {
            if i + 1 < before.len() {
                assert(before[i] == after[i]);
                assert(before[i + 1] == after[i + 1]);
            }
        }
    }
}

/// Slugs hold only lower-case letters, digits and single dashes between them.
pub proof fn law_slug_is_clean(input: Seq<char>)
    ensures
        is_slug(slug_of(input)),
{
    lemma_dashed(input);
    let raw = dashed(input);
    let left = without_leading_dash(raw);
    let slug = without_trailing_dash(left);
    assert(is_dashed(left)) by {
        assert forall|i: int| 0 <= i < left.len() - 1 && #[trigger] left[i] == '-' implies left[i + 1]
            != '-' by {
            if raw.len() > 0 && raw[0] == '-' {
                assert(left[i] == raw[i + 1]);
                assert(left[i + 1] == raw[i + 2]);
            }
        }
    }
    if raw.len() > 1 && raw[0] == '-' {
        assert(left[0] == raw[1]);
    }
    if left.len() > 0 && left.last() == '-' {
        assert(left[left.len() - 1] == '-');
        if left.len() > 1 {
            assert(left[left.len() - 2] != '-');
            assert(slug.last() == left[left.len() - 2]);
        }
        assert forall|i: int| 0 <= i < slug.len() implies #[trigger] slug[i] == left[i] by {}
    }
}

proof fn lemma_dashed_keeps_dashed(text: Seq<char>)
    requires
        is_dashed(text),
    ensures
        dashed(text) == text,
    decreases text.len(),
{
    if text.len() > 0 {
        let before = text.drop_last();
        assert(is_dashed(before)) by {
            assert forall|i: int| 0 <= i < before.len() - 1 && #[trigger] before[i] == '-' implies before[i
                + 1] != '-' by {
                assert(text[i] == before[i]);
                assert(text[i + 1] == before[i + 1]);
            }
        }
        lemma_dashed_keeps_dashed(before);
        assert(text[text.len() - 1] == text.last());
        if text.last() == '-' && before.len() > 0 && before.last() == '-' {
            assert(text[text.len() - 2] == '-');
            assert(text[text.len() - 2 + 1] != '-');
        }
        assert(text =~= before.push(text.last()));
    }
}

/// The slug of a slug is that slug.
pub proof fn law_slug_is_idempotent(input: Seq<char>)
    ensures
        slug_of(slug_of(input)) == slug_of(input),
{
    law_slug_is_clean(input);
    lemma_dashed_keeps_dashed(slug_of(input));
}

fn alphanumeric(c: char) -> (yes: bool)
    ensures
        yes == is_alphanumeric(c),
{
    ('0' <= c && c <= '9') || ('A' <= c && c <= 'Z') || ('a' <= c && c <= 'z')
}

fn lower(c: char) -> (result: char)
    requires
        is_alphanumeric(c),
    ensures
        result == lowered(c),
{
    if 'A' <= c && c <= 'Z' {
        (c as u8 + 0x20) as char
    } else {
        c
    }
}

/// Turns a name into a part of a file name.
pub fn slugify(input: &str) -> (slug: String)
    ensures
        slug@ == slug_of(input@),
{
    let chars: Vec<char> = text::chars_of(input);
    let mut raw: Vec<char> = Vec::new();
    let mut i: usize = 0;
    assert(chars@.take(0) =~= Seq::<char>::empty());
    while i < chars.len()
        invariant
            i <= chars@.len(),
            raw@ == dashed(chars@.take(i as int)),
        decreases chars@.len() - i,
    {
        assert(chars@.take(i as int + 1).drop_last() =~= chars@.take(i as int));
        let c: char = chars[i];
        if alphanumeric(c) {
            raw.push(lower(c));
        } else if raw.len() == 0 || raw[raw.len() - 1] != '-' {
            raw.push('-');
        }
        i = i + 1;
    }
    assert(chars@.take(i as int) =~= chars@);
    let start: usize = if raw.len() > 0 && raw[0] == '-' {
        1
    } else {
        0
    };
    let end: usize = if raw.len() > start && raw[raw.len() - 1] == '-' {
        raw.len() - 1
    } else {
        raw.len()
    };
    let slug: Vec<char> = text::copy_range(&raw, start, end);
    proof {
        let left = without_leading_dash(raw@);
        assert(left =~= raw@.subrange(start as int, raw@.len() as int));
        assert(slug@ =~= without_trailing_dash(left));
    }
    text::string_of(&slug)
}

} // verus!
