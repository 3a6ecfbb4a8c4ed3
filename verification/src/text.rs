//! Strings as sequences of characters: taking them apart, and building them.

use vstd::prelude::*;

verus! {

/// `String::push` appends the character to the end of the string.
pub assume_specification[ std::string::String::push ](string: &mut std::string::String, ch: char)
    ensures
        final(string)@ == old(string)@.push(ch),
;

/// The characters of a string.
pub fn chars_of(text: &str) -> (chars: Vec<char>)
    ensures
        chars@ == text@,
{
    let mut chars: Vec<char> = Vec::new();
    for c in iter: text.chars()
        invariant
            chars@ == iter.seq().take(iter.index()),
            iter.seq() == text@,
    {
        chars.push(c);
        assert(chars@ =~= iter.seq().take(iter.index() + 1));
    }
    assert(chars@ =~= text@);
    chars
}

/// The string with the given characters.
pub fn string_of(chars: &Vec<char>) -> (text: String)
    ensures
        text@ == chars@,
{
    let mut text: String = String::new();
    let mut i: usize = 0;
    assert(chars@.take(0) =~= Seq::<char>::empty());
    while i < chars.len()
        invariant
            i <= chars@.len(),
            text@ == chars@.take(i as int),
        decreases chars@.len() - i,
    {
        text.push(chars[i]);
        i = i + 1;
        assert(text@ =~= chars@.take(i as int));
    }
    assert(text@ =~= chars@);
    text
}

/// Appends the characters of `text`.
pub fn push_text(chars: &mut Vec<char>, text: &str)
    ensures
        final(chars)@ == old(chars)@ + text@,
{
    let mut added: Vec<char> = chars_of(text);
    chars.append(&mut added);
}

/// Whether the characters are those of `text`.
pub fn is_text(chars: &Vec<char>, text: &str) -> (same: bool)
    ensures
        same == (chars@ == text@),
{
    let other: Vec<char> = chars_of(text);
    if chars.len() != other.len() {
        return false;
    }
    let mut i: usize = 0;
    while i < chars.len()
        invariant
            i <= chars@.len(),
            chars@.len() == other@.len(),
            other@ == text@,
            forall|k: int| 0 <= k < i ==> chars@[k] == other@[k],
        decreases chars@.len() - i,
    {
        if chars[i] != other[i] {
            return false;
        }
        i = i + 1;
    }
    assert(chars@ =~= other@);
    true
}

/// A character with the Unicode property `White_Space`.
pub open spec fn is_white_space(c: char) -> bool {
    let point = c as u32;
    ||| 0x9 <= point <= 0xd
    ||| point == 0x20
    ||| point == 0x85
    ||| point == 0xa0
    ||| point == 0x1680
    ||| 0x2000 <= point <= 0x200a
    ||| point == 0x2028
    ||| point == 0x2029
    ||| point == 0x202f
    ||| point == 0x205f
    ||| point == 0x3000
}

fn white_space(c: char) -> (yes: bool)
    ensures
        yes == is_white_space(c),
{
    let point: u32 = c as u32;
    (0x9 <= point && point <= 0xd) || point == 0x20 || point == 0x85 || point == 0xa0 || point
        == 0x1680 || (0x2000 <= point && point <= 0x200a) || point == 0x2028 || point == 0x2029
        || point == 0x202f || point == 0x205f || point == 0x3000
}

/// The text without white space at its start.
pub open spec fn trimmed_start(text: Seq<char>) -> Seq<char>
    decreases text.len(),
{
    if text.len() > 0 && is_white_space(text.first()) {
        trimmed_start(text.drop_first())
    } else {
        text
    }
}

/// The text without white space at its end.
pub open spec fn trimmed_end(text: Seq<char>) -> Seq<char>
    decreases text.len(),
{
    if text.len() > 0 && is_white_space(text.last()) {
        trimmed_end(text.drop_last())
    } else {
        text
    }
}

/// The text without white space at either end.
pub open spec fn trimmed(text: Seq<char>) -> Seq<char> {
    trimmed_end(trimmed_start(text))
}

/// Removes white space from both ends.
pub fn trim(text: &Vec<char>) -> (result: Vec<char>)
    ensures
        result@ == trimmed(text@),
{
    let mut start: usize = 0;
    assert(text@.skip(0) =~= text@);
    while start < text.len() && white_space(text[start])
        invariant
            start <= text@.len(),
            trimmed_start(text@) == trimmed_start(text@.skip(start as int)),
        decreases text@.len() - start,
    {
        assert(text@.skip(start as int).drop_first() =~= text@.skip(start as int + 1));
        start = start + 1;
    }
    let ghost rest = text@.skip(start as int);
    assert(trimmed_start(rest) == rest);
    let mut end: usize = text.len();
    assert(text@.subrange(start as int, end as int) =~= rest);
    while end > start && white_space(text[end - 1])
        invariant
            start <= end <= text@.len(),
            trimmed_end(rest) == trimmed_end(text@.subrange(start as int, end as int)),
        decreases end,
    {
        assert(text@.subrange(start as int, end as int).drop_last() =~= text@.subrange(
            start as int,
            end as int - 1,
        ));
        end = end - 1;
    }
    let ghost kept = text@.subrange(start as int, end as int);
    assert(trimmed_end(kept) == kept);
    copy_range(text, start, end)
}

/// The characters from `start` up to `end`.
pub fn copy_range(text: &Vec<char>, start: usize, end: usize) -> (result: Vec<char>)
    requires
        start <= end <= text@.len(),
    ensures
        result@ == text@.subrange(start as int, end as int),
{
    let mut result: Vec<char> = Vec::new();
    let mut i: usize = start;
    while i < end
        invariant
            start <= i <= end <= text@.len(),
            result@ == text@.subrange(start as int, i as int),
        decreases end - i,
    {
        result.push(text[i]);
        i = i + 1;
        assert(result@ =~= text@.subrange(start as int, i as int));
    }
    result
}

/// The pieces of a text between occurrences of a separator.
pub open spec fn pieces(text: Seq<char>, separator: char) -> Seq<Seq<char>>
    decreases text.len(),
{
    if text.len() == 0 {
        seq![Seq::empty()]
    } else {
        let before = pieces(text.drop_last(), separator);
        if text.last() == separator {
            before.push(Seq::empty())
        } else {
            before.drop_last().push(before.last().push(text.last()))
        }
    }
}

/// What a list of texts holds.
pub open spec fn texts(list: Seq<Vec<char>>) -> Seq<Seq<char>> {
    list.map_values(|text: Vec<char>| text@)
}

/// There is always at least one piece.
pub proof fn lemma_pieces_not_empty(text: Seq<char>, separator: char)
    ensures
        pieces(text, separator).len() > 0,
    decreases text.len(),
{
    if text.len() > 0 {
        lemma_pieces_not_empty(text.drop_last(), separator);
    }
}

/// Splits a text at a separator.
pub fn split(text: &Vec<char>, separator: char) -> (list: Vec<Vec<char>>)
    ensures
        texts(list@) == pieces(text@, separator),
        list@.len() > 0,
{
    let mut list: Vec<Vec<char>> = Vec::new();
    let mut current: Vec<char> = Vec::new();
    let mut i: usize = 0;
    assert(text@.take(0) =~= Seq::<char>::empty());
    assert(texts(list@).push(current@) =~= seq![Seq::<char>::empty()]);
    while i < text.len()
        invariant
            i <= text@.len(),
            texts(list@).push(current@) == pieces(text@.take(i as int), separator),
        decreases text@.len() - i,
    {
        let ghost before = pieces(text@.take(i as int), separator);
        let ghost done = list@;
        proof {
            assert(text@.take(i as int + 1).drop_last() =~= text@.take(i as int));
            assert(before.drop_last() =~= texts(done));
            assert(before.last() == current@);
        }
        if text[i] == separator {
            list.push(current);
            current = Vec::new();
            assert(texts(list@) =~= before);
            assert(texts(list@).push(current@) =~= before.push(Seq::empty()));
        } else {
            current.push(text[i]);
        }
        i = i + 1;
    }
    assert(text@.take(i as int) =~= text@);
    let ghost done = list@;
    let ghost last = current@;
    list.push(current);
    assert(texts(list@) =~= texts(done).push(last));
    list
}

/// The texts one after the other with a separator between each two.
pub open spec fn joined(list: Seq<Seq<char>>, separator: Seq<char>) -> Seq<char>
    decreases list.len(),
{
    if list.len() == 0 {
        Seq::empty()
    } else if list.len() == 1 {
        list[0]
    } else {
        joined(list.drop_last(), separator) + separator + list.last()
    }
}

/// Joins texts with a separator.
pub fn join(list: &Vec<Vec<char>>, separator: &str) -> (text: Vec<char>)
    ensures
        text@ == joined(texts(list@), separator@),
{
    let mut text: Vec<char> = Vec::new();
    let mut i: usize = 0;
    assert(texts(list@).take(0) =~= Seq::empty());
    while i < list.len()
        invariant
            i <= list@.len(),
            text@ == joined(texts(list@).take(i as int), separator@),
        decreases list@.len() - i,
    {
        let ghost taken = texts(list@).take(i as int + 1);
        assert(taken.drop_last() =~= texts(list@).take(i as int));
        assert(taken.last() == list@[i as int]@);
        if i > 0 {
            push_text(&mut text, separator);
        }
        push_chars(&mut text, &list[i]);
        assert(text@ =~= joined(taken, separator@));
        i = i + 1;
    }
    assert(texts(list@).take(i as int) =~= texts(list@));
    text
}

/// Appends characters.
pub fn push_chars(text: &mut Vec<char>, added: &Vec<char>)
    ensures
        final(text)@ == old(text)@ + added@,
{
    let mut i: usize = 0;
    assert(text@ =~= old(text)@ + added@.take(0));
    while i < added.len()
        invariant
            i <= added@.len(),
            text@ == old(text)@ + added@.take(i as int),
        decreases added@.len() - i,
    {
        text.push(added[i]);
        i = i + 1;
        assert(text@ =~= old(text)@ + added@.take(i as int));
    }
    assert(added@.take(i as int) =~= added@);
}

/// The character for a digit below ten.
pub open spec fn digit(value: int) -> char {
    (0x30 + value) as char
}

/// A number in decimal notation.
pub open spec fn decimal(value: nat) -> Seq<char>
    decreases value,
{
    if value < 10 {
        seq![digit(value as int)]
    } else {
        decimal(value / 10).push(digit((value % 10) as int))
    }
}

fn digit_char(value: u8) -> (c: char)
    requires
        value < 10,
    ensures
        c == digit(value as int),
{
    (0x30 + value) as char
}

/// Appends a number in decimal notation.
pub fn push_decimal(text: &mut Vec<char>, value: u128)
    ensures
        final(text)@ == old(text)@ + decimal(value as nat),
    decreases value,
{
    if value < 10 {
        text.push(digit_char(value as u8));
        assert(text@ =~= old(text)@ + decimal(value as nat));
    } else {
        push_decimal(text, value / 10);
        text.push(digit_char((value % 10) as u8));
        assert(text@ =~= old(text)@ + decimal(value as nat));
    }
}

/// A text without a separator is its own only piece.
pub proof fn lemma_pieces_of_one(text: Seq<char>, separator: char)
    requires
        !text.contains(separator),
    ensures
        pieces(text, separator) == seq![text],
    decreases text.len(),
{
    if text.len() == 0 {
        assert(text =~= Seq::empty());
        assert(pieces(text, separator) =~= seq![text]);
    } else {
        let rest = text.drop_last();
        assert(!rest.contains(separator)) by {
            if rest.contains(separator) {
                let i = choose|i: int| 0 <= i < rest.len() && rest[i] == separator;
                assert(text[i] == separator);
            }
        }
        lemma_pieces_of_one(rest, separator);
        assert(text[text.len() - 1] != separator);
        assert(rest.push(text.last()) =~= text);
        assert(pieces(text, separator) =~= seq![text]);
    }
}

/// A separator and a text without one add a piece.
pub proof fn lemma_pieces_after_separator(text: Seq<char>, separator: char, last: Seq<char>)
    requires
        !last.contains(separator),
    ensures
        pieces(text.push(separator) + last, separator) == pieces(text, separator).push(last),
    decreases last.len(),
{
    let whole = text.push(separator) + last;
    if last.len() == 0 {
        assert(whole =~= text.push(separator));
        assert(whole.drop_last() =~= text);
        assert(last =~= Seq::empty());
    } else {
        let rest = last.drop_last();
        assert(!rest.contains(separator)) by {
            if rest.contains(separator) {
                let i = choose|i: int| 0 <= i < rest.len() && rest[i] == separator;
                assert(last[i] == separator);
            }
        }
        lemma_pieces_after_separator(text, separator, rest);
        assert(whole.drop_last() =~= text.push(separator) + rest);
        assert(whole.last() == last.last());
        assert(last[last.len() - 1] != separator);
        let before = pieces(text, separator).push(rest);
        assert(before.drop_last() =~= pieces(text, separator));
        assert(rest.push(last.last()) =~= last);
    }
}

/// Splitting what was joined gives back the parts, where no part holds the
/// separator.
pub proof fn law_split_undoes_join(list: Seq<Seq<char>>, separator: char)
    requires
        list.len() > 0,
        forall|i: int| 0 <= i < list.len() ==> !(#[trigger] list[i]).contains(separator),
    ensures
        pieces(joined(list, seq![separator]), separator) == list,
    decreases list.len(),
{
    if list.len() == 1 {
        lemma_pieces_of_one(list[0], separator);
        assert(list =~= seq![list[0]]);
    } else {
        let rest = list.drop_last();
        assert forall|i: int| 0 <= i < rest.len() implies !(#[trigger] rest[i]).contains(
            separator,
        ) by {
            assert(rest[i] == list[i]);
        }
        law_split_undoes_join(rest, separator);
        let text = joined(rest, seq![separator]);
        assert(!list[list.len() - 1].contains(separator));
        lemma_pieces_after_separator(text, separator, list.last());
        assert(text + seq![separator] + list.last() =~= text.push(separator) + list.last());
        assert(rest.push(list.last()) =~= list);
    }
}

} // verus!
