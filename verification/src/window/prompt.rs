//! Questions to the user.

use crate::text::{chars_of, is_text, string_of};
use vstd::prelude::*;

verus! {

/// What a dialog for files lets the user choose.
#[derive(Clone, Debug)]
pub struct PathPromptOptions {
    pub files: bool,
    pub directories: bool,
    pub multiple: bool,
    pub prompt: Option<String>,
}

/// How grave a question is.
#[derive(Clone, Copy, Debug, PartialEq, Eq, Structural)]
pub enum PromptLevel {
    Info,
    Warning,
    Critical,
}

/// A button below a question.
#[derive(Clone, Debug, PartialEq, Eq)]
pub enum PromptButton {
    Okay(String),
    Cancel(String),
    Other(String),
}

/// What `str::to_lowercase` makes of some text.
pub uninterp spec fn lowercase(text: Seq<char>) -> Seq<char>;

/// `str::to_lowercase` hands out the text with each character in lower case, by the
/// tables of Unicode. Nothing more is said of it than that it depends on the text
/// alone.
#[verifier::external_body]
fn to_lowercase(text: &str) -> (lower: String)
    ensures
        lower@ == lowercase(text@),
{
    text.to_lowercase()
}

impl PromptButton {
    /// A button with a label.
    pub fn new(label: String) -> (button: Self)
        ensures
            button == PromptButton::Other(label),
    {
        PromptButton::Other(label)
    }

    /// A button that agrees.
    pub fn ok(label: String) -> (button: Self)
        ensures
            button == PromptButton::Okay(label),
    {
        PromptButton::Okay(label)
    }

    /// A button that leaves things as they are.
    pub fn cancel(label: String) -> (button: Self)
        ensures
            button == PromptButton::Cancel(label),
    {
        PromptButton::Cancel(label)
    }

    /// Whether the button leaves things as they are.
    pub fn is_cancel(&self) -> (cancels: bool)
        ensures
            cancels == self is Cancel,
    {
        match self {
            PromptButton::Cancel(_) => true,
            _ => false,
        }
    }

    /// What stands on the button.
    pub open spec fn spec_label(&self) -> Seq<char> {
        match self {
            PromptButton::Okay(label) => label@,
            PromptButton::Cancel(label) => label@,
            PromptButton::Other(label) => label@,
        }
    }

    /// What stands on the button.
    pub fn label(&self) -> (label: &String)
        ensures
            label@ == self.spec_label(),
    {
        match self {
            PromptButton::Okay(label) => label,
            PromptButton::Cancel(label) => label,
            PromptButton::Other(label) => label,
        }
    }

    /// The button is the one that some text stands for, given the text in lower case:
    /// the usual words have buttons of their own, in their usual writing.
    pub open spec fn stands_for(&self, value: Seq<char>, lower: Seq<char>) -> bool {
        if lower == "ok"@ {
            self matches PromptButton::Okay(label) && label@ == "OK"@
        } else if lower == "cancel"@ {
            self matches PromptButton::Cancel(label) && label@ == "Cancel"@
        } else {
            self matches PromptButton::Other(label) && label@ == value
        }
    }

    /// The button that some text stands for, given the text in lower case.
    pub fn from_lowercase(value: &str, lower: &str) -> (button: Self)
        ensures
            button.stands_for(value@, lower@),
    {
        let chars: Vec<char> = chars_of(lower);
        if is_text(&chars, "ok") {
            PromptButton::Okay(string_of(&chars_of("OK")))
        } else if is_text(&chars, "cancel") {
            PromptButton::Cancel(string_of(&chars_of("Cancel")))
        } else {
            PromptButton::Other(string_of(&chars_of(value)))
        }
    }

    /// The button that some text stands for, whatever the case of its letters.
    pub fn from_text(value: &str) -> (button: Self)
        ensures
            button.stands_for(value@, lowercase(value@)),
    {
        let lower: String = to_lowercase(value);
        PromptButton::from_lowercase(value, lower.as_str())
    }
}

} // verus!
