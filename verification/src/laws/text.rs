//! What texts are cut into, put together from and read as.

use crate::capture::{labels, slug};
use crate::text;
use vstd::prelude::*;

verus! {

/// The number that digits stand for.
pub open spec fn number_read(digits: Seq<char>) -> int
    decreases digits.len(),
{
    if digits.len() == 0 {
        0
    } else {
        10 * number_read(digits.drop_last()) + (digits.last() as int - '0' as int)
    }
}

/// All characters are digits.
pub open spec fn all_digits(digits: Seq<char>) -> bool {
    forall|place: int| 0 <= place < digits.len() ==> '0' <= #[trigger] digits[place] <= '9'
}

/// A number in decimal notation is read as that number, has at least one digit, and no
/// zero before the others.
pub proof fn law_decimals_are_read_back(value: nat)
    ensures
        number_read(text::decimal(value)) == value,
        all_digits(text::decimal(value)),
        text::decimal(value).len() > 0,
        text::decimal(value).len() > 1 ==> text::decimal(value)[0] != '0',
    decreases value,
{
    let digits = text::decimal(value);
    if value < 10 {
        assert(digits.drop_last() =~= Seq::<char>::empty());
        reveal_with_fuel(number_read, 2);
    } else {
        law_decimals_are_read_back(value / 10);
        assert(digits.drop_last() =~= text::decimal(value / 10));
        assert(digits[0] == text::decimal(value / 10)[0]);
        if text::decimal(value / 10).len() == 1 {
            reveal_with_fuel(number_read, 2);
            assert(text::decimal(value / 10).drop_last() =~= Seq::<char>::empty());
        }
    }
}

/// The last digits of a number are as many as asked for, and are read as what is left
/// of the number once the digits before them are taken away.
pub proof fn law_last_digits_are_read_back(value: nat, places: nat)
    ensures
        labels::last_digits(value, places).len() == places,
        all_digits(labels::last_digits(value, places)),
        value < labels::power_of_ten(places) ==> number_read(labels::last_digits(value, places))
            == value,
        labels::power_of_ten(0) == 1,
        labels::power_of_ten(places + 1) == 10 * labels::power_of_ten(places),
    decreases places,
{
    if places > 0 {
        let digits = labels::last_digits(value, places);
        law_last_digits_are_read_back(value / 10, (places - 1) as nat);
        assert(digits.drop_last() =~= labels::last_digits(value / 10, (places - 1) as nat));
    }
}

/// A measure is written as the number nearest to it that has so many digits behind the
/// point: a sign where it is negative, the whole part, a point and the digits. One
/// without bound is written as the greatest number of single precision.
pub proof fn law_measures_are_rounded_to_the_nearest(value: i64, places: nat)
    ensures
        value != i64::MAX ==> exists|whole: nat, part: nat| #[trigger]
            is_written_as(value, places, whole, part),
        value == i64::MAX ==> labels::measure_text(value, places)
            == "340282346638528859811704183484516925440."@ + labels::last_digits(0, places),
{
    if value != i64::MAX {
        let scale = labels::power_of_ten(places);
        let size = labels::magnitude(value);
        let one = labels::MEASURE_ONE as nat;
        let scaled = labels::rounded(size * scale, one);
        lemma_powers(places);
        let whole = scaled / scale;
        let part = scaled % scale;
        vstd::arithmetic::div_mod::lemma_fundamental_div_mod(scaled as int, scale as int);
        assert(whole * scale == scale * whole) by (nonlinear_arith);
        let quotient = (size * scale) / one;
        vstd::arithmetic::div_mod::lemma_fundamental_div_mod((size * scale) as int, one as int);
        reveal_strlit("");
        let digits = text::decimal(whole) + "."@ + labels::last_digits(part, places);
        if value < 0 {
            assert(labels::measure_text(value, places) =~= "-"@ + digits);
        } else {
            assert(labels::measure_text(value, places) =~= digits);
        }
        assert(part < scale) by (nonlinear_arith)
            requires
                scale > 0,
                part == scaled % scale,
        ;
        assert(scaled == quotient || scaled == quotient + 1);
        assert(whole * scale + part == scaled);
        assert(is_written_as(value, places, whole, part));
    }
}

/// A measure is written as a whole part and a part behind the point, and these are no
/// further from it than half of the last digit; where they are just as far, that digit
/// is even.
pub open spec fn is_written_as(value: i64, places: nat, whole: nat, part: nat) -> bool {
    let scale = labels::power_of_ten(places);
    let size = if value < 0 {
        -value
    } else {
        value as int
    };
    let shown = whole * scale + part;
    let digits = text::decimal(whole) + "."@ + labels::last_digits(part, places);
    &&& part < scale
    &&& -1_099_511_627_776 <= 2 * (shown * 1_099_511_627_776 - size * scale) <= 1_099_511_627_776
    &&& 2 * (shown * 1_099_511_627_776 - size * scale) == 1_099_511_627_776 || 2 * (shown
        * 1_099_511_627_776 - size * scale) == -1_099_511_627_776 ==> shown % 2 == 0
    &&& labels::measure_text(value, places) == if value < 0 {
        "-"@ + digits
    } else {
        digits
    }
}

proof fn lemma_powers(places: nat)
    ensures
        labels::power_of_ten(places) > 0,
    decreases places,
{
    if places > 0 {
        lemma_powers((places - 1) as nat);
    }
}

/// A byte is written as two digits of sixteen, the greater first.
pub proof fn law_bytes_are_two_digits(value: u8)
    ensures
        ({
            let digits = labels::hex_byte(value);
            &&& digits.len() == 2
            &&& value == 16 * hex_value(digits[0]) + hex_value(digits[1])
            &&& is_hex(digits[0]) && is_hex(digits[1])
        }),
{
}

/// A digit of sixteen in upper case.
pub open spec fn is_hex(digit: char) -> bool {
    '0' <= digit <= '9' || 'A' <= digit <= 'F'
}

/// What a digit of sixteen stands for.
pub open spec fn hex_value(digit: char) -> int {
    if digit <= '9' {
        digit as int - '0' as int
    } else {
        digit as int - 'A' as int + 10
    }
}

/// A colour is written as its red, green and blue, and its opacity exactly where that
/// is not full.
pub proof fn law_colors_are_written_in_order(color: labels::RgbaBytes)
    ensures
        ({
            let written = labels::color_text(color);
            &&& written.len() == if color.alpha == 255 {
                7int
            } else {
                9
            }
            &&& written[0] == '#'
            &&& color.red == 16 * hex_value(written[1]) + hex_value(written[2])
            &&& color.green == 16 * hex_value(written[3]) + hex_value(written[4])
            &&& color.blue == 16 * hex_value(written[5]) + hex_value(written[6])
            &&& color.alpha != 255 ==> color.alpha == 16 * hex_value(written[7]) + hex_value(
                written[8],
            )
        }),
{
    reveal_strlit("#");
    law_bytes_are_two_digits(color.red);
    law_bytes_are_two_digits(color.green);
    law_bytes_are_two_digits(color.blue);
    law_bytes_are_two_digits(color.alpha);
    let written = labels::color_text(color);
    assert(written[1] == labels::hex_byte(color.red)[0]);
    assert(written[2] == labels::hex_byte(color.red)[1]);
    assert(written[3] == labels::hex_byte(color.green)[0]);
    assert(written[4] == labels::hex_byte(color.green)[1]);
    assert(written[5] == labels::hex_byte(color.blue)[0]);
    assert(written[6] == labels::hex_byte(color.blue)[1]);
    if color.alpha != 255 {
        assert(written[7] == labels::hex_byte(color.alpha)[0]);
        assert(written[8] == labels::hex_byte(color.alpha)[1]);
    }
}

/// A trimmed text is a stretch of the text with white space before and behind it and
/// none at its own ends.
pub proof fn law_trimming_takes_white_space_alone(words: Seq<char>)
    ensures
        exists|start: int, end: int| #[trigger] is_trimmed_to(words, start, end),
        text::trimmed(words).len() > 0 ==> !text::is_white_space(text::trimmed(words)[0])
            && !text::is_white_space(text::trimmed(words).last()),
{
    let start = lemma_start(words);
    let rest = text::trimmed_start(words);
    let end = lemma_end(rest);
    assert forall|place: int| 0 <= place < words.len() && !(start <= place < start + end) implies
        text::is_white_space(#[trigger] words[place]) by {
        if place >= start + end {
            assert(rest[place - start] == words[place]);
        }
    }
    assert(text::trimmed(words) =~= words.subrange(start, start + end));
    assert(is_trimmed_to(words, start, start + end));
    if text::trimmed(words).len() > 0 {
        assert(text::trimmed(words)[0] == rest[0]);
    }
}

/// The text without the white space at its ends lies between two places.
pub open spec fn is_trimmed_to(words: Seq<char>, start: int, end: int) -> bool {
    &&& 0 <= start <= end <= words.len()
    &&& text::trimmed(words) == words.subrange(start, end)
    &&& forall|place: int|
        0 <= place < words.len() && !(start <= place < end) ==> text::is_white_space(
            #[trigger] words[place],
        )
}

proof fn lemma_start(words: Seq<char>) -> (start: int)
    ensures
        0 <= start <= words.len(),
        text::trimmed_start(words) == words.skip(start),
        forall|place: int| 0 <= place < start ==> text::is_white_space(#[trigger] words[place]),
        text::trimmed_start(words).len() > 0 ==> !text::is_white_space(
            text::trimmed_start(words)[0],
        ),
    decreases words.len(),
{
    if words.len() > 0 && text::is_white_space(words.first()) {
        let rest = words.drop_first();
        let start = lemma_start(rest);
        assert(rest.skip(start) =~= words.skip(start + 1));
        assert forall|place: int| 0 <= place < start + 1 implies text::is_white_space(
            #[trigger] words[place],
        ) by {
            if place > 0 {
                assert(rest[place - 1] == words[place]);
            }
        }
        start + 1
    } else {
        assert(words.skip(0) =~= words);
        0
    }
}

proof fn lemma_end(words: Seq<char>) -> (end: int)
    ensures
        0 <= end <= words.len(),
        text::trimmed_end(words) == words.take(end),
        forall|place: int|
            end <= place < words.len() ==> text::is_white_space(#[trigger] words[place]),
        text::trimmed_end(words).len() > 0 ==> !text::is_white_space(
            text::trimmed_end(words).last(),
        ),
    decreases words.len(),
{
    if words.len() > 0 && text::is_white_space(words.last()) {
        let rest = words.drop_last();
        let end = lemma_end(rest);
        assert(rest.take(end) =~= words.take(end));
        assert forall|place: int| end <= place < words.len() implies text::is_white_space(
            #[trigger] words[place],
        ) by {
            if place < rest.len() {
                assert(rest[place] == words[place]);
            }
        }
        end
    } else {
        assert(words.take(words.len() as int) =~= words);
        words.len() as int
    }
}

/// The white space of Unicode beyond ASCII.
pub open spec fn is_wide_space(c: char) -> bool {
    c == '\u{85}' || c == '\u{a0}' || c == '\u{1680}' || '\u{2000}' <= c <= '\u{200a}' || c
        == '\u{2028}' || c == '\u{2029}' || c == '\u{202f}' || c == '\u{205f}' || c == '\u{3000}'
}

/// White space is what Unicode calls so.
pub proof fn law_white_space_is_known(c: char)
    ensures
        text::is_white_space(c) <==> c == ' ' || c == '\t' || c == '\n' || c == '\u{b}' || c
            == '\u{c}' || c == '\r' || is_wide_space(c),
{
}

/// A joined text has the separator between each two of its parts and nowhere else.
pub proof fn law_parts_are_joined_in_order(
    list: Seq<Seq<char>>,
    separator: Seq<char>,
    part: Seq<char>,
)
    ensures
        text::joined(Seq::empty(), separator).len() == 0,
        text::joined(seq![part], separator) == part,
        list.len() > 0 ==> text::joined(list.push(part), separator) == text::joined(
            list,
            separator,
        ) + separator + part,
{
    assert(list.push(part).drop_last() =~= list);
}

/// The pieces of a text hold no separator, and joined by it they are the text again.
pub proof fn law_join_undoes_split(words: Seq<char>, separator: char)
    ensures
        text::pieces(words, separator).len() > 0,
        text::joined(text::pieces(words, separator), seq![separator]) == words,
        forall|index: int|
            0 <= index < text::pieces(words, separator).len() ==> !(#[trigger] text::pieces(
                words,
                separator,
            )[index]).contains(separator),
    decreases words.len(),
{
    let between = seq![separator];
    let list = text::pieces(words, separator);
    if words.len() == 0 {
        assert(list[0] =~= Seq::<char>::empty());
        assert(words =~= Seq::<char>::empty());
    } else {
        let fewer = words.drop_last();
        let before = text::pieces(fewer, separator);
        law_join_undoes_split(fewer, separator);
        if words.last() == separator {
            assert(list.drop_last() =~= before);
            assert(text::joined(list, between) =~= words);
            assert forall|index: int| 0 <= index < list.len() implies !(
            #[trigger] list[index]).contains(separator) by {
                if index < before.len() {
                    assert(list[index] == before[index]);
                }
            }
        } else {
            assert(list.drop_last() =~= before.drop_last());
            assert(list.last() == before.last().push(words.last()));
            assert(text::joined(before, between).push(words.last()) =~= words);
            if before.len() == 1 {
                assert(text::joined(list, between) =~= words);
            } else {
                assert(text::joined(list, between) =~= words);
            }
            assert forall|index: int| 0 <= index < list.len() implies !(
            #[trigger] list[index]).contains(separator) by {
                if index < before.len() - 1 {
                    assert(list[index] == before[index]);
                } else {
                    let last = before[before.len() - 1];
                    assert(!last.contains(separator));
                    if list[index].contains(separator) {
                        let place = choose|place: int|
                            0 <= place < list[index].len() && list[index][place] == separator;
                        assert(place < last.len());
                        assert(last[place] == separator);
                    }
                }
            }
        }
    }
}

/// Some character is a letter or digit of ASCII.
pub open spec fn is_kept(c: char) -> bool {
    '0' <= c <= '9' || 'A' <= c <= 'Z' || 'a' <= c <= 'z'
}

/// A letter or digit is added to a slug in lower case, behind a dash where something
/// else stood between it and the letter or digit before it. Nothing else is added.
pub proof fn law_slugs_grow_by_letters(input: Seq<char>, c: char)
    ensures
        slug::slug_of(Seq::empty()).len() == 0,
        !is_kept(c) ==> slug::slug_of(input.push(c)) == slug::slug_of(input),
        is_kept(c) ==> {
            let before = slug::slug_of(input);
            let apart = before.len() > 0 && !is_kept(input.last());
            let after = slug::slug_of(input.push(c));
            &&& after.len() == before.len() + if apart {
                2int
            } else {
                1
            }
            &&& after.take(before.len() as int) == before
            &&& apart ==> after[before.len() as int] == '-'
            &&& if 'A' <= c <= 'Z' {
                after.last() as int == c as int + 32
            } else {
                after.last() == c
            }
        },
{
    let more = input.push(c);
    assert(more.drop_last() =~= input);
    let dashed = slug::dashed(input);
    lemma_dashes(input);
    let all = slug::dashed(more);
    let left = slug::without_leading_dash(dashed);
    let all_left = slug::without_leading_dash(all);
    if is_kept(c) {
        assert(all == dashed.push(slug::lowered(c)));
        assert(slug::lowered(c) != '-');
        assert(all_left.last() == slug::lowered(c));
        if dashed.len() > 0 && dashed[0] == '-' {
            assert(all[0] == '-');
            assert(all_left =~= left.push(slug::lowered(c)));
        } else if dashed.len() > 0 {
            assert(all[0] == dashed[0]);
            assert(all_left =~= left.push(slug::lowered(c)));
        } else {
            assert(all_left =~= left.push(slug::lowered(c)));
        }
        let before = slug::slug_of(input);
        let after = slug::slug_of(more);
        assert(after == all_left);
        assert(after.take(before.len() as int) =~= before);
        if left.len() > 0 {
            assert(left.last() == dashed.last());
        }
    } else if dashed.len() > 0 && dashed.last() != '-' {
        assert(all[0] == dashed[0]);
        assert(all_left =~= left.push('-'));
        assert(left.last() == dashed.last());
        assert(slug::slug_of(more) =~= left);
    }
}

proof fn lemma_dashes(input: Seq<char>)
    ensures
        (slug::dashed(input).len() == 0) == (input.len() == 0),
        input.len() > 0 ==> (slug::dashed(input).last() == '-') == !is_kept(input.last()),
        slug::dashed(input).len() > 1 && slug::dashed(input)[0] == '-' ==> slug::dashed(input)[1]
            != '-',
    decreases input.len(),
{
    if input.len() > 0 {
        lemma_dashes(input.drop_last());
        let before = slug::dashed(input.drop_last());
        if before.len() == 1 {
            assert(before.last() == before[0]);
        }
    }
}

/// Lists of texts are read text by text.
pub proof fn law_lists_are_read_text_by_text(
    list: Seq<Vec<char>>,
    strings: Seq<String>,
    place: int,
)
    ensures
        text::texts(list).len() == list.len(),
        0 <= place < list.len() ==> text::texts(list)[place] == list[place]@,
        crate::capture::options::views(strings).len() == strings.len(),
        0 <= place < strings.len() ==> crate::capture::options::views(strings)[place]
            == strings[place]@,
        crate::window::button_layout::views(strings) == crate::capture::options::views(strings),
{
}

} // verus!
