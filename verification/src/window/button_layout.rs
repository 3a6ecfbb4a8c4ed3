//! Which buttons a title bar shows, as desktop settings write it.

use crate::text;
use vstd::prelude::*;

verus! {

/// How many buttons fit on one side of a title bar.
pub const MAX_BUTTONS_PER_SIDE: usize = 3;

/// A button of a title bar.
#[derive(Clone, Copy, Debug, PartialEq, Eq, Hash, Structural)]
pub enum WindowButton {
    Minimize,
    Maximize,
    Close,
}

impl WindowButton {
    /// The name of a button.
    pub open spec fn spec_id(self) -> Seq<char> {
        match self {
            WindowButton::Minimize => "minimize"@,
            WindowButton::Maximize => "maximize"@,
            WindowButton::Close => "close"@,
        }
    }

    /// The button with a name, if there is one.
    pub open spec fn spec_named(name: Seq<char>) -> Option<WindowButton> {
        if name == "minimize"@ {
            Some(WindowButton::Minimize)
        } else if name == "maximize"@ {
            Some(WindowButton::Maximize)
        } else if name == "close"@ {
            Some(WindowButton::Close)
        } else {
            None
        }
    }

    /// The name of a button.
    pub fn id(&self) -> (id: &'static str)
        ensures
            id@ == self.spec_id(),
    {
        match self {
            WindowButton::Minimize => "minimize",
            WindowButton::Maximize => "maximize",
            WindowButton::Close => "close",
        }
    }

    fn named(name: &Vec<char>) -> (button: Option<WindowButton>)
        ensures
            button == WindowButton::spec_named(name@),
    {
        if text::is_text(name, "minimize") {
            Some(WindowButton::Minimize)
        } else if text::is_text(name, "maximize") {
            Some(WindowButton::Maximize)
        } else if text::is_text(name, "close") {
            Some(WindowButton::Close)
        } else {
            None
        }
    }
}

/// The buttons on each side of a title bar, from left to right.
#[derive(Clone, Copy, Debug, PartialEq, Eq)]
pub struct WindowButtonLayout {
    pub left: [Option<WindowButton>; MAX_BUTTONS_PER_SIDE],
    pub right: [Option<WindowButton>; MAX_BUTTONS_PER_SIDE],
}

/// The slots of a side hold exactly these buttons, from the first slot on.
pub open spec fn holds(
    slots: [Option<WindowButton>; MAX_BUTTONS_PER_SIDE],
    buttons: Seq<WindowButton>,
) -> bool {
    &&& buttons.len() <= MAX_BUTTONS_PER_SIDE
    &&& forall|i: int|
        0 <= i < MAX_BUTTONS_PER_SIDE ==> #[trigger] slots@[i] == if i < buttons.len() {
            Some(buttons[i])
        } else {
            None
        }
}

/// The names in one side of a layout: what stands between commas, without the
/// white space round it, and without empty ones.
pub open spec fn names(side: Seq<char>) -> Seq<Seq<char>> {
    text::pieces(side, ',').map_values(|piece: Seq<char>| text::trimmed(piece)).filter(
        |piece: Seq<char>| piece.len() > 0,
    )
}

/// The buttons named in one side, each once, and none of those in `taken`.
pub open spec fn buttons_of(names: Seq<Seq<char>>, taken: Seq<WindowButton>) -> Seq<WindowButton>
    decreases names.len(),
{
    if names.len() == 0 {
        Seq::empty()
    } else {
        let before = buttons_of(names.drop_last(), taken);
        match WindowButton::spec_named(names.last()) {
            Some(button) => if taken.contains(button) || before.contains(button) {
                before
            } else {
                before.push(button)
            },
            None => before,
        }
    }
}

/// The names in one side that name no button.
pub open spec fn unknown_names(names: Seq<Seq<char>>) -> Seq<Seq<char>>
    decreases names.len(),
{
    if names.len() == 0 {
        Seq::empty()
    } else {
        let before = unknown_names(names.drop_last());
        if WindowButton::spec_named(names.last()) is None {
            before.push(names.last())
        } else {
            before
        }
    }
}

/// What stands before the first colon; nothing where there is none.
pub open spec fn left_side(layout: Seq<char>) -> Seq<char> {
    if layout.contains(':') {
        layout.take(layout.index_of_first(':')->0)
    } else {
        Seq::empty()
    }
}

/// What stands after the first colon; all of it where there is none.
pub open spec fn right_side(layout: Seq<char>) -> Seq<char> {
    if layout.contains(':') {
        layout.skip(layout.index_of_first(':')->0 + 1)
    } else {
        layout
    }
}

/// The buttons on the left side of a layout.
pub open spec fn left_buttons(layout: Seq<char>) -> Seq<WindowButton> {
    buttons_of(names(left_side(layout)), Seq::empty())
}

/// The buttons on the right side of a layout; one on the left is not repeated.
pub open spec fn right_buttons(layout: Seq<char>) -> Seq<WindowButton> {
    buttons_of(names(right_side(layout)), left_buttons(layout))
}

/// The names in a layout that name no button.
pub open spec fn unrecognized(layout: Seq<char>) -> Seq<Seq<char>> {
    unknown_names(names(left_side(layout))) + unknown_names(names(right_side(layout)))
}

/// A layout is refused if it names something but no button.
pub open spec fn is_refused(layout: Seq<char>) -> bool {
    &&& unrecognized(layout).len() > 0
    &&& left_buttons(layout).len() == 0
    &&& right_buttons(layout).len() == 0
}

/// A layout string that names no button, though it names something.
#[derive(Clone, Debug)]
pub struct WindowButtonLayoutError {
    pub layout: String,
    pub unrecognized: Vec<String>,
}

/// What the `Debug` implementation of `str` writes: the text in quotes, with
/// special characters escaped.
pub uninterp spec fn debug_quoted(text: Seq<char>) -> Seq<char>;

/// Writes a text by `str`'s `Debug` implementation.
#[verifier::external_body]
fn debug_text(text: &str) -> (quoted: String)
    ensures
        quoted@ == debug_quoted(text@),
{
    format!("{:?}", text)
}

/// What a list of strings holds.
pub open spec fn views(list: Seq<String>) -> Seq<Seq<char>> {
    list.map_values(|text: String| text@)
}

impl WindowButtonLayoutError {
    /// The message for the error.
    pub fn message(&self) -> (message: String)
        ensures
            message@ == "button layout string "@ + debug_quoted(self.layout@)
                + " contains no valid buttons (unrecognized: "@ + text::joined(
                views(self.unrecognized@),
                ", "@,
            ) + ")"@,
    {
        let mut list: Vec<Vec<char>> = Vec::new();
        let mut i: usize = 0;
        assert(text::texts(list@) =~= views(self.unrecognized@).take(0));
        while i < self.unrecognized.len()
            invariant
                i <= self.unrecognized@.len(),
                text::texts(list@) == views(self.unrecognized@).take(i as int),
            decreases self.unrecognized@.len() - i,
        {
            let ghost before = list@;
            let name: Vec<char> = text::chars_of(self.unrecognized[i].as_str());
            let ghost added = name@;
            list.push(name);
            assert(text::texts(list@) =~= text::texts(before).push(added));
            i = i + 1;
            assert(text::texts(list@) =~= views(self.unrecognized@).take(i as int));
        }
        assert(views(self.unrecognized@).take(i as int) =~= views(self.unrecognized@));
        let names: Vec<char> = text::join(&list, ", ");
        let quoted: String = debug_text(self.layout.as_str());
        let mut chars: Vec<char> = text::chars_of("button layout string ");
        text::push_text(&mut chars, quoted.as_str());
        text::push_text(&mut chars, " contains no valid buttons (unrecognized: ");
        text::push_chars(&mut chars, &names);
        text::push_text(&mut chars, ")");
        text::string_of(&chars)
    }
}

fn contains_button(buttons: &Vec<WindowButton>, button: WindowButton) -> (found: bool)
    ensures
        found == buttons@.contains(button),
{
    let mut i: usize = 0;
    while i < buttons.len()
        invariant
            i <= buttons@.len(),
            forall|k: int| 0 <= k < i ==> buttons@[k] != button,
        decreases buttons@.len() - i,
    {
        if buttons[i] == button {
            assert(buttons@[i as int] == button);
            return true;
        }
        i = i + 1;
    }
    false
}

/// The names in one side of a layout.
fn names_of(side: &Vec<char>) -> (list: Vec<Vec<char>>)
    ensures
        text::texts(list@) == names(side@),
{
    let all: Vec<Vec<char>> = text::split(side, ',');
    let mut list: Vec<Vec<char>> = Vec::new();
    let ghost trimmed = text::texts(all@).map_values(|piece: Seq<char>| text::trimmed(piece));
    let ghost nonempty = |piece: Seq<char>| piece.len() > 0;
    let mut i: usize = 0;
    assert(text::texts(list@) =~= trimmed.take(0).filter(nonempty)) by {
        reveal(Seq::filter);
        assert(trimmed.take(0) =~= Seq::empty());
    }
    while i < all.len()
        invariant
            i <= all@.len(),
            trimmed == text::texts(all@).map_values(|piece: Seq<char>| text::trimmed(piece)),
            nonempty == (|piece: Seq<char>| piece.len() > 0),
            text::texts(list@) == trimmed.take(i as int).filter(nonempty),
        decreases all@.len() - i,
    {
        let name: Vec<char> = text::trim(&all[i]);
        let ghost before = list@;
        let ghost added = name@;
        proof {
            reveal(Seq::filter);
            assert(trimmed.take(i as int + 1).drop_last() =~= trimmed.take(i as int));
            assert(trimmed.take(i as int + 1).last() == name@);
        }
        if name.len() > 0 {
            list.push(name);
            assert(text::texts(list@) =~= text::texts(before).push(added));
        }
        i = i + 1;
    }
    assert(trimmed.take(i as int) =~= trimmed);
    list
}

/// Reads one side: its buttons, and the names that name none.
fn parse_side(side: &Vec<char>, taken: &Vec<WindowButton>, unknown: &mut Vec<String>) -> (buttons: Vec<
    WindowButton,
>)
    ensures
        buttons@ == buttons_of(names(side@), taken@),
        views(final(unknown)@) == views(old(unknown)@) + unknown_names(names(side@)),
{
    let list: Vec<Vec<char>> = names_of(side);
    let ghost all = text::texts(list@);
    let mut buttons: Vec<WindowButton> = Vec::new();
    let mut i: usize = 0;
    assert(all.take(0) =~= Seq::empty());
    assert(views(unknown@) =~= views(old(unknown)@) + unknown_names(all.take(0)));
    while i < list.len()
        invariant
            i <= list@.len(),
            all == text::texts(list@),
            buttons@ == buttons_of(all.take(i as int), taken@),
            views(unknown@) == views(old(unknown)@) + unknown_names(all.take(i as int)),
        decreases list@.len() - i,
    {
        let ghost before = unknown@;
        proof {
            assert(all.take(i as int + 1).drop_last() =~= all.take(i as int));
            assert(all.take(i as int + 1).last() == list@[i as int]@);
        }
        match WindowButton::named(&list[i]) {
            Some(button) => {
                if !contains_button(taken, button) && !contains_button(&buttons, button) {
                    buttons.push(button);
                }
            },
            None => {
                let name: String = text::string_of(&list[i]);
                unknown.push(name);
                assert(views(unknown@) =~= views(before).push(list@[i as int]@));
            },
        }
        i = i + 1;
        assert(views(unknown@) =~= views(old(unknown)@) + unknown_names(all.take(i as int)));
    }
    assert(all.take(i as int) =~= all);
    buttons
}

/// No button occurs twice on a side, nor one that is taken, so all fit.
pub proof fn lemma_buttons_are_distinct(names: Seq<Seq<char>>, taken: Seq<WindowButton>)
    ensures
        buttons_of(names, taken).no_duplicates(),
        forall|i: int|
            0 <= i < buttons_of(names, taken).len() ==> !taken.contains(
                #[trigger] buttons_of(names, taken)[i],
            ),
    decreases names.len(),
{
    if names.len() > 0 {
        lemma_buttons_are_distinct(names.drop_last(), taken);
    }
}

/// There are only three buttons.
proof fn lemma_distinct_buttons_fit(buttons: Seq<WindowButton>)
    requires
        buttons.no_duplicates(),
    ensures
        buttons.len() <= MAX_BUTTONS_PER_SIDE,
{
    if buttons.len() > 3 {
        assert(buttons[0] != buttons[1]);
        assert(buttons[0] != buttons[2]);
        assert(buttons[0] != buttons[3]);
        assert(buttons[1] != buttons[2]);
        assert(buttons[1] != buttons[3]);
        assert(buttons[2] != buttons[3]);
    }
}

fn slots_of(buttons: &Vec<WindowButton>) -> (slots: [Option<WindowButton>; MAX_BUTTONS_PER_SIDE])
    requires
        buttons@.len() <= MAX_BUTTONS_PER_SIDE,
    ensures
        holds(slots, buttons@),
{
    let first: Option<WindowButton> = if buttons.len() > 0 {
        Some(buttons[0])
    } else {
        None
    };
    let second: Option<WindowButton> = if buttons.len() > 1 {
        Some(buttons[1])
    } else {
        None
    };
    let third: Option<WindowButton> = if buttons.len() > 2 {
        Some(buttons[2])
    } else {
        None
    };
    [first, second, third]
}

/// The names of buttons, joined by commas.
pub open spec fn side_text(buttons: Seq<WindowButton>) -> Seq<char> {
    text::joined(buttons.map_values(|button: WindowButton| button.spec_id()), ","@)
}

/// The buttons in the slots of a side, in order.
pub open spec fn filled(slots: Seq<Option<WindowButton>>) -> Seq<WindowButton>
    decreases slots.len(),
{
    if slots.len() == 0 {
        Seq::empty()
    } else {
        match slots.last() {
            Some(button) => filled(slots.drop_last()).push(button),
            None => filled(slots.drop_last()),
        }
    }
}

/// A layout as desktop settings write it.
pub open spec fn layout_text(layout: WindowButtonLayout) -> Seq<char> {
    side_text(filled(layout.left@)) + ":"@ + side_text(filled(layout.right@))
}

fn format_side(slots: &[Option<WindowButton>; MAX_BUTTONS_PER_SIDE]) -> (result: Vec<char>)
    ensures
        result@ == side_text(filled(slots@)),
{
    let mut list: Vec<Vec<char>> = Vec::new();
    let ghost ids = |button: WindowButton| button.spec_id();
    let mut i: usize = 0;
    assert(slots@.take(0) =~= Seq::empty());
    assert(text::texts(list@) =~= filled(slots@.take(0)).map_values(ids));
    while i < MAX_BUTTONS_PER_SIDE
        invariant
            i <= MAX_BUTTONS_PER_SIDE,
            slots@.len() == MAX_BUTTONS_PER_SIDE,
            ids == (|button: WindowButton| button.spec_id()),
            text::texts(list@) == filled(slots@.take(i as int)).map_values(ids),
        decreases MAX_BUTTONS_PER_SIDE - i,
    {
        let ghost before = list@;
        proof {
            assert(slots@.take(i as int + 1).drop_last() =~= slots@.take(i as int));
            assert(slots@.take(i as int + 1).last() == slots@[i as int]);
        }
        if let Some(button) = slots[i] {
            list.push(text::chars_of(button.id()));
            assert(text::texts(list@) =~= text::texts(before).push(button.spec_id()));
        }
        i = i + 1;
        assert(text::texts(list@) =~= filled(slots@.take(i as int)).map_values(ids));
    }
    assert(slots@.take(i as int) =~= slots@);
    text::join(&list, ",")
}

impl WindowButtonLayout {
    /// The layout where the desktop has no setting: all three buttons on the right.
    pub fn linux_default() -> (layout: Self)
        ensures
            holds(layout.left, Seq::empty()),
            holds(
                layout.right,
                seq![WindowButton::Minimize, WindowButton::Maximize, WindowButton::Close],
            ),
    {
        WindowButtonLayout {
            left: [None, None, None],
            right: [
                Some(WindowButton::Minimize),
                Some(WindowButton::Maximize),
                Some(WindowButton::Close),
            ],
        }
    }

    /// Reads a layout such as `close,minimize:maximize`. Unknown names are passed
    /// over; the layout is refused only if it names something but no button.
    pub fn parse(layout_string: &str) -> (layout: Result<Self, WindowButtonLayoutError>)
        ensures
            match layout {
                Ok(layout) => {
                    &&& !is_refused(layout_string@)
                    &&& holds(layout.left, left_buttons(layout_string@))
                    &&& holds(layout.right, right_buttons(layout_string@))
                },
                Err(error) => {
                    &&& is_refused(layout_string@)
                    &&& error.layout@ == layout_string@
                    &&& views(error.unrecognized@) == unrecognized(layout_string@)
                },
            },
    {
        let chars: Vec<char> = text::chars_of(layout_string);
        let mut colon: usize = 0;
        while colon < chars.len() && chars[colon] != ':'
            invariant
                colon <= chars@.len(),
                forall|k: int| 0 <= k < colon ==> chars@[k] != ':',
            decreases chars@.len() - colon,
        {
            colon = colon + 1;
        }
        let (left, right): (Vec<char>, Vec<char>) = if colon < chars.len() {
            proof {
                assert(chars@[colon as int] == ':');
                chars@.index_of_first_ensures(':');
                assert(chars@.index_of_first(':')->0 == colon);
                assert(chars@.take(colon as int) =~= chars@.subrange(0, colon as int));
                assert(chars@.skip(colon as int + 1) =~= chars@.subrange(
                    colon as int + 1,
                    chars@.len() as int,
                ));
            }
            (
                text::copy_range(&chars, 0, colon),
                text::copy_range(&chars, colon + 1, chars.len()),
            )
        } else {
            (Vec::new(), text::copy_range(&chars, 0, chars.len()))
        };
        proof {
            assert(left@ =~= left_side(layout_string@));
            assert(right@ =~= right_side(layout_string@));
        }
        let mut unknown: Vec<String> = Vec::new();
        let none: Vec<WindowButton> = Vec::new();
        assert(none@ =~= Seq::<WindowButton>::empty());
        let left_found: Vec<WindowButton> = parse_side(&left, &none, &mut unknown);
        let right_found: Vec<WindowButton> = parse_side(&right, &left_found, &mut unknown);
        proof {
            assert(views(unknown@) =~= unrecognized(layout_string@));
            lemma_buttons_are_distinct(names(left@), none@);
            lemma_buttons_are_distinct(names(right@), left_found@);
            lemma_distinct_buttons_fit(left_found@);
            lemma_distinct_buttons_fit(right_found@);
        }
        if unknown.len() > 0 && left_found.len() == 0 && right_found.len() == 0 {
            let layout: String = text::string_of(&chars);
            return Err(WindowButtonLayoutError { layout, unrecognized: unknown });
        }
        Ok(WindowButtonLayout { left: slots_of(&left_found), right: slots_of(&right_found) })
    }

    /// Writes the layout back as desktop settings write it.
    pub fn format(&self) -> (result: String)
        ensures
            result@ == layout_text(*self),
    {
        let mut chars: Vec<char> = format_side(&self.left);
        text::push_text(&mut chars, ":");
        let right: Vec<char> = format_side(&self.right);
        text::push_chars(&mut chars, &right);
        text::string_of(&chars)
    }
}

/// A layout that reading can give: each side filled from its first slot on, and
/// no button twice.
pub open spec fn is_canonical(left: Seq<WindowButton>, right: Seq<WindowButton>) -> bool {
    &&& left.no_duplicates()
    &&& right.no_duplicates()
    &&& forall|i: int| 0 <= i < right.len() ==> !left.contains(#[trigger] right[i])
}

/// No button occurs twice in a layout that was read, on one side or across both.
pub proof fn law_parsed_layout_is_canonical(layout: Seq<char>)
    ensures
        is_canonical(left_buttons(layout), right_buttons(layout)),
{
    lemma_buttons_are_distinct(names(left_side(layout)), Seq::empty());
    lemma_buttons_are_distinct(names(right_side(layout)), left_buttons(layout));
}

proof fn lemma_id_is_plain(button: WindowButton)
    ensures
        !button.spec_id().contains(','),
        !button.spec_id().contains(':'),
        text::trimmed(button.spec_id()) == button.spec_id(),
        button.spec_id().len() > 0,
        WindowButton::spec_named(button.spec_id()) == Some(button),
{
    reveal_strlit("minimize");
    reveal_strlit("maximize");
    reveal_strlit("close");
    assert("minimize"@[1] == 'i');
    assert("maximize"@[1] == 'a');
    assert("minimize"@.len() == 8);
    assert("maximize"@.len() == 8);
    assert("close"@.len() == 5);
}

/// The names of a written side are the names of its buttons.
proof fn lemma_names_of_side(buttons: Seq<WindowButton>)
    ensures
        names(side_text(buttons)) == buttons.map_values(|button: WindowButton| button.spec_id()),
        !side_text(buttons).contains(':'),
{
    let ids = buttons.map_values(|button: WindowButton| button.spec_id());
    let nonempty = |piece: Seq<char>| piece.len() > 0;
    let trim = |piece: Seq<char>| text::trimmed(piece);
    reveal_strlit(",");
    assert(","@ =~= seq![',']);
    assert forall|i: int| 0 <= i < ids.len() implies !(#[trigger] ids[i]).contains(',') && !ids[i].contains(
        ':',
    ) && text::trimmed(ids[i]) == ids[i] && ids[i].len() > 0 by {
        lemma_id_is_plain(buttons[i]);
    }
    lemma_joined_without(ids, ':');
    if buttons.len() == 0 {
        let empty = Seq::<char>::empty();
        assert(side_text(buttons) =~= empty);
        assert(text::pieces(empty, ',') =~= seq![empty]);
        let trimmed = text::pieces(empty, ',').map_values(trim);
        assert(trimmed =~= seq![empty]);
        reveal(Seq::filter);
        assert(trimmed.drop_last() =~= Seq::empty());
        assert(trimmed.drop_last().filter(nonempty) =~= Seq::empty());
        assert(trimmed.filter(nonempty) =~= Seq::empty());
        assert(ids =~= Seq::empty());
    } else {
        text::law_split_undoes_join(ids, ',');
        let trimmed = text::pieces(side_text(buttons), ',').map_values(trim);
        assert(trimmed =~= ids);
        lemma_filter_keeps_all(ids, nonempty);
    }
}

proof fn lemma_filter_keeps_all<A>(list: Seq<A>, keep: spec_fn(A) -> bool)
    requires
        forall|i: int| 0 <= i < list.len() ==> keep(#[trigger] list[i]),
    ensures
        list.filter(keep) == list,
    decreases list.len(),
{
    reveal(Seq::filter);
    if list.len() > 0 {
        let rest = list.drop_last();
        assert forall|i: int| 0 <= i < rest.len() implies keep(#[trigger] rest[i]) by {
            assert(rest[i] == list[i]);
        }
        lemma_filter_keeps_all(rest, keep);
        assert(keep(list[list.len() - 1]));
        assert(rest.push(list.last()) =~= list);
    } else {
        assert(list.filter(keep) =~= list);
    }
}

proof fn lemma_joined_without(list: Seq<Seq<char>>, other: char)
    requires
        other != ',',
        forall|i: int| 0 <= i < list.len() ==> !(#[trigger] list[i]).contains(other),
    ensures
        !text::joined(list, ","@).contains(other),
    decreases list.len(),
{
    reveal_strlit(",");
    if list.len() > 1 {
        let rest = list.drop_last();
        assert forall|i: int| 0 <= i < rest.len() implies !(#[trigger] rest[i]).contains(other) by {
            assert(rest[i] == list[i]);
        }
        lemma_joined_without(rest, other);
        let before = text::joined(rest, ","@);
        let whole = before + ","@ + list.last();
        assert(!list[list.len() - 1].contains(other));
        assert forall|i: int| 0 <= i < whole.len() implies whole[i] != other by {
            if i < before.len() {
                assert(whole[i] == before[i]);
                assert(before.contains(before[i]));
            } else if i == before.len() {
                assert(whole[i] == ',');
            } else {
                assert(whole[i] == list.last()[i - before.len() - 1]);
                assert(list.last().contains(list.last()[i - before.len() - 1]));
            }
        }
    } else if list.len() == 1 {
        assert(!list[0].contains(other));
    }
}

/// The names of distinct buttons give back those buttons.
proof fn lemma_buttons_of_ids(buttons: Seq<WindowButton>, taken: Seq<WindowButton>)
    requires
        buttons.no_duplicates(),
        forall|i: int| 0 <= i < buttons.len() ==> !taken.contains(#[trigger] buttons[i]),
    ensures
        buttons_of(buttons.map_values(|button: WindowButton| button.spec_id()), taken) == buttons,
        unknown_names(buttons.map_values(|button: WindowButton| button.spec_id())).len() == 0,
    decreases buttons.len(),
{
    let ids = buttons.map_values(|button: WindowButton| button.spec_id());
    if buttons.len() == 0 {
        assert(buttons_of(ids, taken) =~= buttons);
    } else {
        let rest = buttons.drop_last();
        assert(ids.drop_last() =~= rest.map_values(|button: WindowButton| button.spec_id()));
        assert forall|i: int| 0 <= i < rest.len() implies !taken.contains(#[trigger] rest[i]) by {
            assert(rest[i] == buttons[i]);
        }
        lemma_buttons_of_ids(rest, taken);
        lemma_id_is_plain(buttons.last());
        let last = buttons[buttons.len() - 1];
        assert(!rest.contains(last)) by {
            if rest.contains(last) {
                let i = choose|i: int| 0 <= i < rest.len() && rest[i] == last;
                assert(buttons[i] == buttons[buttons.len() - 1]);
            }
        }
        assert(!taken.contains(last));
        assert(rest.push(last) =~= buttons);
    }
}

proof fn lemma_filled(slots: [Option<WindowButton>; MAX_BUTTONS_PER_SIDE], buttons: Seq<WindowButton>)
    requires
        holds(slots, buttons),
    ensures
        filled(slots@) == buttons,
{
    let all = slots@;
    reveal_with_fuel(filled, 4);
    assert(all[0] == if 0 < buttons.len() { Some(buttons[0]) } else { None });
    assert(all[1] == if 1 < buttons.len() { Some(buttons[1]) } else { None });
    assert(all[2] == if 2 < buttons.len() { Some(buttons[2]) } else { None });
    assert(all.drop_last().drop_last().drop_last() =~= Seq::empty());
    assert(filled(all) =~= buttons);
}

/// Writing a layout and reading it back gives the same layout, for every layout
/// whose sides are filled from their first slots on and in which no button
/// occurs twice.
pub proof fn law_parse_undoes_format(
    layout: WindowButtonLayout,
    left: Seq<WindowButton>,
    right: Seq<WindowButton>,
)
    requires
        holds(layout.left, left),
        holds(layout.right, right),
        is_canonical(left, right),
    ensures
        !is_refused(layout_text(layout)),
        left_buttons(layout_text(layout)) == left,
        right_buttons(layout_text(layout)) == right,
{
    lemma_filled(layout.left, left);
    lemma_filled(layout.right, right);
    lemma_names_of_side(left);
    lemma_names_of_side(right);
    let left_text = side_text(left);
    let right_text = side_text(right);
    let whole = layout_text(layout);
    reveal_strlit(":");
    assert(whole[left_text.len() as int] == ':');
    assert(whole.contains(':'));
    whole.index_of_first_ensures(':');
    let colon = whole.index_of_first(':')->0;
    assert(colon == left_text.len()) by {
        if colon < left_text.len() {
            assert(whole[colon] == left_text[colon]);
            assert(left_text.contains(left_text[colon]));
        }
    }
    assert(left_side(whole) =~= left_text);
    assert(right_side(whole) =~= right_text);
    lemma_buttons_of_ids(left, Seq::empty());
    lemma_buttons_of_ids(right, left);
}

/// A layout that was read is written so that reading it again gives the same.
pub proof fn law_reading_is_stable(layout_string: Seq<char>, layout: WindowButtonLayout)
    requires
        holds(layout.left, left_buttons(layout_string)),
        holds(layout.right, right_buttons(layout_string)),
    ensures
        !is_refused(layout_text(layout)),
        left_buttons(layout_text(layout)) == left_buttons(layout_string),
        right_buttons(layout_text(layout)) == right_buttons(layout_string),
{
    law_parsed_layout_is_canonical(layout_string);
    law_parse_undoes_format(layout, left_buttons(layout_string), right_buttons(layout_string));
}

} // verus!
