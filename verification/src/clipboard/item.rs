//! What the clipboard holds: text, images and paths.

use crate::clipboard::image::{hash_bytes, Image};
use crate::text::{push_text, string_of};
use vstd::string::StrSliceExecFns;
use vstd::prelude::*;

verus! {

/// Text on the clipboard, and what the program notes about it.
#[derive(Clone, Debug, PartialEq, Eq)]
pub struct ClipboardString {
    pub text: String,
    pub metadata: Option<String>,
}

/// The byte that ends a text that is hashed; it occurs in no UTF-8.
pub const TEXT_END: u8 = 0xff;

/// What is hashed of a text: its bytes, and one more that ends it.
pub open spec fn hashed_bytes(text: Seq<char>) -> Seq<u8> {
    vstd::utf8::encode_utf8(text).push(TEXT_END)
}

impl ClipboardString {
    /// Text that nothing is noted about.
    pub fn new(text: String) -> (string: Self)
        ensures
            string == (ClipboardString { text, metadata: None }),
    {
        ClipboardString { text, metadata: None }
    }

    /// The text with other notes, written as JSON.
    pub fn with_json_metadata(self, metadata_json: String) -> (string: Self)
        ensures
            string == (ClipboardString { text: self.text, metadata: Some(metadata_json) }),
    {
        ClipboardString { text: self.text, metadata: Some(metadata_json) }
    }

    /// The text.
    pub fn text(&self) -> (text: &String)
        ensures
            *text == self.text,
    {
        &self.text
    }

    /// The text, on its own.
    pub fn into_text(self) -> (text: String)
        ensures
            text == self.text,
    {
        self.text
    }

    /// The notes, as they are to be read as JSON.
    pub fn metadata_json(&self) -> (metadata: Option<&String>)
        ensures
            match metadata {
                Some(metadata) => self.metadata == Some(*metadata),
                None => self.metadata is None,
            },
    {
        match &self.metadata {
            Some(metadata) => Some(metadata),
            None => None,
        }
    }

    /// A number by which a change of the text is noticed.
    pub fn text_hash(text: &str) -> (hash: u64)
        ensures
            hash == crate::clipboard::image::hash_of_bytes(hashed_bytes(text@)),
    {
        let mut bytes: Vec<u8> = text.as_bytes_vec();
        bytes.push(TEXT_END);
        assert(bytes@ =~= hashed_bytes(text@));
        hash_bytes(&bytes)
    }
}

impl From<String> for ClipboardString {
    fn from(value: String) -> (string: Self) {
        ClipboardString { text: value, metadata: None }
    }
}

impl vstd::std_specs::convert::FromSpecImpl<String> for ClipboardString {
    open spec fn obeys_from_spec() -> bool {
        true
    }

    open spec fn from_spec(value: String) -> ClipboardString {
        ClipboardString { text: value, metadata: None }
    }
}

/// Paths of files, as they are displayed.
#[derive(Clone, Debug, PartialEq, Eq)]
pub struct ExternalPaths(pub Vec<String>);

/// One thing on the clipboard.
#[derive(Clone, Debug, PartialEq, Eq)]
pub enum ClipboardEntry {
    String(ClipboardString),
    Image(Image),
    ExternalPaths(ExternalPaths),
}

impl From<ClipboardString> for ClipboardEntry {
    fn from(value: ClipboardString) -> (entry: Self) {
        ClipboardEntry::String(value)
    }
}

impl vstd::std_specs::convert::FromSpecImpl<ClipboardString> for ClipboardEntry {
    open spec fn obeys_from_spec() -> bool {
        true
    }

    open spec fn from_spec(value: ClipboardString) -> ClipboardEntry {
        ClipboardEntry::String(value)
    }
}

impl From<String> for ClipboardEntry {
    fn from(value: String) -> (entry: Self) {
        ClipboardEntry::from(ClipboardString::from(value))
    }
}

impl vstd::std_specs::convert::FromSpecImpl<String> for ClipboardEntry {
    open spec fn obeys_from_spec() -> bool {
        true
    }

    open spec fn from_spec(value: String) -> ClipboardEntry {
        ClipboardEntry::String(ClipboardString { text: value, metadata: None })
    }
}

impl From<Image> for ClipboardEntry {
    fn from(value: Image) -> (entry: Self) {
        ClipboardEntry::Image(value)
    }
}

impl vstd::std_specs::convert::FromSpecImpl<Image> for ClipboardEntry {
    open spec fn obeys_from_spec() -> bool {
        true
    }

    open spec fn from_spec(value: Image) -> ClipboardEntry {
        ClipboardEntry::Image(value)
    }
}

/// What is copied to the clipboard together.
#[derive(Clone, Debug, PartialEq, Eq)]
pub struct ClipboardItem {
    pub entries: Vec<ClipboardEntry>,
}

/// The text of the entries that are text, one after the other.
pub open spec fn text_of(entries: Seq<ClipboardEntry>) -> Seq<char>
    decreases entries.len(),
{
    if entries.len() == 0 {
        Seq::empty()
    } else {
        let before = text_of(entries.drop_last());
        match entries.last() {
            ClipboardEntry::String(string) => before + string.text@,
            _ => before,
        }
    }
}

/// Some entry is text.
pub open spec fn has_text(entries: Seq<ClipboardEntry>) -> bool {
    exists|index: int| 0 <= index < entries.len() && (#[trigger] entries[index]) is String
}

/// What an item is pasted as: all its text; nothing where no entry is text.
pub open spec fn pasted_text(entries: Seq<ClipboardEntry>) -> Option<Seq<char>> {
    if has_text(entries) {
        Some(text_of(entries))
    } else {
        None
    }
}

impl ClipboardItem {
    /// An item of one entry.
    pub fn from_entry(entry: ClipboardEntry) -> (item: Self)
        ensures
            item.entries@ == seq![entry],
    {
        let mut entries: Vec<ClipboardEntry> = Vec::new();
        entries.push(entry);
        assert(entries@ =~= seq![entry]);
        ClipboardItem { entries }
    }

    /// Text that nothing is noted about.
    pub fn new_string(text: String) -> (item: Self)
        ensures
            item.entries@ == seq![
                ClipboardEntry::String((ClipboardString { text, metadata: None })),
            ],
    {
        ClipboardItem::from_entry(ClipboardEntry::String(ClipboardString::new(text)))
    }

    /// Text with notes about it.
    pub fn new_string_with_metadata(text: String, metadata: String) -> (item: Self)
        ensures
            item.entries@ == seq![
                ClipboardEntry::String((ClipboardString { text, metadata: Some(metadata) })),
            ],
    {
        ClipboardItem::from_entry(
            ClipboardEntry::String(ClipboardString { text, metadata: Some(metadata) }),
        )
    }

    /// Text with notes about it, written as JSON.
    pub fn new_string_with_json_metadata(text: String, metadata_json: String) -> (item: Self)
        ensures
            item.entries@ == seq![
                ClipboardEntry::String((ClipboardString { text, metadata: Some(metadata_json) })),
            ],
    {
        ClipboardItem::from_entry(
            ClipboardEntry::String(ClipboardString::new(text).with_json_metadata(metadata_json)),
        )
    }

    /// An image that nothing is noted about.
    pub fn new_image(image: Image) -> (item: Self)
        ensures
            item.entries@ == seq![ClipboardEntry::Image(image)],
    {
        ClipboardItem::from_entry(ClipboardEntry::Image(image))
    }

    /// All text of the item, one entry after the other. There is none where no entry is
    /// text.
    pub fn text(&self) -> (text: Option<String>)
        ensures
            text is Some == has_text(self.entries@),
            text matches Some(text) ==> text@ == text_of(self.entries@),
            match text {
                Some(text) => pasted_text(self.entries@) == Some(text@),
                None => pasted_text(self.entries@) is None,
            },
    {
        let mut answer: Vec<char> = Vec::new();
        let mut found: bool = false;
        let mut index: usize = 0;
        assert(self.entries@.take(0) =~= Seq::<ClipboardEntry>::empty());
        while index < self.entries.len()
            invariant
                index <= self.entries@.len(),
                answer@ == text_of(self.entries@.take(index as int)),
                found == has_text(self.entries@.take(index as int)),
            decreases self.entries@.len() - index,
        {
            let ghost next = self.entries@.take(index + 1);
            let ghost done = self.entries@.take(index as int);
            assert(next.drop_last() =~= done);
            assert(next.last() == self.entries@[index as int]);
            proof {
                if has_text(done) {
                    let place = choose|place: int|
                        0 <= place < done.len() && (#[trigger] done[place]) is String;
                    assert(next[place] is String);
                }
                if has_text(next) && !(next.last() is String) {
                    let place = choose|place: int|
                        0 <= place < next.len() && (#[trigger] next[place]) is String;
                    assert(done[place] is String);
                }
                if next.last() is String {
                    assert(next[index as int] is String);
                }
            }
            match &self.entries[index] {
                ClipboardEntry::String(string) => {
                    push_text(&mut answer, string.text.as_str());
                    found = true;
                },
                _ => {},
            }
            index = index + 1;
        }
        assert(self.entries@.take(index as int) =~= self.entries@);
        if found {
            Some(string_of(&answer))
        } else {
            None
        }
    }

    /// The notes about an item that is one piece of text.
    pub fn metadata(&self) -> (metadata: Option<&String>)
        ensures
            match metadata {
                Some(metadata) => self.entries@.len() == 1 && (self.entries@[0] matches
                ClipboardEntry::String(string) && string.metadata == Some(*metadata)),
                None => self.entries@.len() != 1 || !(self.entries@[0] matches
                ClipboardEntry::String(string) && string.metadata is Some),
            },
    {
        if self.entries.len() != 1 {
            return None;
        }
        match &self.entries[0] {
            ClipboardEntry::String(string) => string.metadata_json(),
            _ => None,
        }
    }

    /// What the item holds.
    pub fn entries(&self) -> (entries: &Vec<ClipboardEntry>)
        ensures
            entries@ == self.entries@,
    {
        &self.entries
    }

    /// What the item holds, on its own.
    pub fn into_entries(self) -> (entries: Vec<ClipboardEntry>)
        ensures
            entries@ == self.entries@,
    {
        self.entries
    }
}

impl From<ClipboardEntry> for ClipboardItem {
    fn from(value: ClipboardEntry) -> (item: Self)
        ensures
            item.entries@ == seq![value],
    {
        ClipboardItem::from_entry(value)
    }
}

impl vstd::std_specs::convert::FromSpecImpl<ClipboardEntry> for ClipboardItem {
    open spec fn obeys_from_spec() -> bool {
        false
    }

    open spec fn from_spec(value: ClipboardEntry) -> ClipboardItem {
        arbitrary()
    }
}

impl From<String> for ClipboardItem {
    fn from(value: String) -> (item: Self)
        ensures
            item.entries@ == seq![
                ClipboardEntry::String((ClipboardString { text: value, metadata: None })),
            ],
    {
        ClipboardItem::from_entry(ClipboardEntry::from(value))
    }
}

impl vstd::std_specs::convert::FromSpecImpl<String> for ClipboardItem {
    open spec fn obeys_from_spec() -> bool {
        false
    }

    open spec fn from_spec(value: String) -> ClipboardItem {
        arbitrary()
    }
}

impl From<Image> for ClipboardItem {
    fn from(value: Image) -> (item: Self)
        ensures
            item.entries@ == seq![ClipboardEntry::Image(value)],
    {
        ClipboardItem::from_entry(ClipboardEntry::from(value))
    }
}

impl vstd::std_specs::convert::FromSpecImpl<Image> for ClipboardItem {
    open spec fn obeys_from_spec() -> bool {
        false
    }

    open spec fn from_spec(value: Image) -> ClipboardItem {
        arbitrary()
    }
}

/// Text that is copied is pasted as it is, also where it is empty.
pub proof fn law_copied_text_is_pasted(string: ClipboardString)
    ensures
        pasted_text(seq![ClipboardEntry::String(string)]) == Some(string.text@),
{
    let entries = seq![ClipboardEntry::String(string)];
    assert(entries[0] is String);
    assert(entries.drop_last() =~= Seq::<ClipboardEntry>::empty());
    reveal_with_fuel(text_of, 2);
    assert(text_of(entries) =~= string.text@);
}

/// Entries that are not text change nothing about what is pasted.
pub proof fn law_other_entries_are_passed_over(
    entries: Seq<ClipboardEntry>,
    entry: ClipboardEntry,
)
    requires
        !(entry is String),
    ensures
        pasted_text(entries.push(entry)) == pasted_text(entries),
{
    let more = entries.push(entry);
    assert(more.drop_last() =~= entries);
    if has_text(entries) {
        let place = choose|place: int|
            0 <= place < entries.len() && (#[trigger] entries[place]) is String;
        assert(more[place] is String);
    }
    if has_text(more) {
        let place = choose|place: int|
            0 <= place < more.len() && (#[trigger] more[place]) is String;
        assert(entries[place] is String);
    }
}

/// An image or paths alone are not pasted as text.
pub proof fn law_other_entries_are_no_text(entry: ClipboardEntry)
    requires
        !(entry is String),
    ensures
        pasted_text(seq![entry]) is None,
{
    assert(!has_text(seq![entry]));
}

} // verus!
