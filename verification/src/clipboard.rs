//! The host clipboard as an object: text in, text out, and a change event. A plugin that
//! holds a ref to it has the clipboard; one that does not has none.

use vstd::prelude::*;
use crate::text::same_text;

verus! {

/// The clipboard's text changed, as far as the host looked.
#[derive(Debug, PartialEq)]
pub struct ClipboardChanged {
    pub text: Option<String>,
}

/// What an optional text holds.
pub open spec fn optional_text(text: Option<String>) -> Option<Seq<char>> {
    match text {
        Some(text) => Some(text@),
        None => None,
    }
}

/// An optional text that holds the same.
pub fn duplicate_text(text: &Option<String>) -> (copy: Option<String>)
    ensures
        optional_text(copy) == optional_text(*text),
{
    match text {
        Some(text) => Some(text.clone()),
        None => None,
    }
}

fn same_optional_text(a: &Option<String>, b: &Option<String>) -> (same: bool)
    ensures
        same == (optional_text(*a) == optional_text(*b)),
{
    match (a, b) {
        (Some(a), Some(b)) => same_text(a.as_str(), b.as_str()),
        (None, None) => true,
        _ => false,
    }
}

/// The host clipboard as an object. The text itself is the system's; the object remembers
/// what it last saw there.
pub struct Clipboard {
    last_seen: Option<String>,
}

impl View for Clipboard {
    type V = Option<Seq<char>>;

    closed spec fn view(&self) -> Option<Seq<char>> {
        optional_text(self.last_seen)
    }
}

impl Clipboard {
    /// A clipboard object that has not looked yet.
    pub fn new() -> (clipboard: Clipboard)
        ensures
            clipboard@ is None,
    {
        Clipboard { last_seen: None }
    }

    /// The clipboard now holds `text`; subscribers are told if that changed since the last
    /// look.
    pub fn refresh(&mut self, text: Option<String>) -> (event: Option<ClipboardChanged>)
        ensures
            final(self)@ == optional_text(text),
            match event {
                Some(event) => old(self)@ != optional_text(text) && optional_text(event.text)
                    == optional_text(text),
                None => old(self)@ == optional_text(text),
            },
    {
        if same_optional_text(&text, &self.last_seen) {
            None
        } else {
            self.last_seen = duplicate_text(&text);
            Some(ClipboardChanged { text })
        }
    }

    /// Someone reads the clipboard, which holds `text`. Reading tells nobody of a change.
    pub fn read(&mut self, text: Option<String>) -> (read: Option<String>)
        ensures
            optional_text(read) == optional_text(text),
            final(self)@ == optional_text(text),
    {
        self.last_seen = duplicate_text(&text);
        text
    }

    /// Someone writes `text` to the clipboard; it comes back, to be handed to the system.
    pub fn write(&mut self, text: String) -> (written: String)
        ensures
            written@ == text@,
            final(self)@ == Some(text@),
    {
        self.last_seen = Some(text.clone());
        text
    }
}

/// A text that is there holds its characters, and differs from none and from every other.
pub proof fn texts_are_told_apart(one: Option<String>, other: Option<String>)
    ensures
        one matches Some(text) ==> optional_text(one) == Some(text@),
        one is None ==> optional_text(one) is None,
        optional_text(one) == optional_text(other) <==> match (one, other) {
            (Some(one), Some(other)) => one@ == other@,
            (None, None) => true,
            _ => false,
        },
{
}

} // verus!
