//! The demonstration's objects: the counter both ends click, the workspace the plugin
//! drives, and the line of text the plugin edits.

use vstd::prelude::*;
use vstd::string::*;
use crate::text::{decimal_chars, joined, with_number};

verus! {

/// How many clicks make a milestone.
pub const CLICKS_PER_MILESTONE: u32 = 5;

/// Emitted by the counter's home whenever the clicks are a multiple of five.
#[derive(Clone, Copy, Debug, PartialEq, Eq, Structural)]
pub struct Milestone {
    pub clicks: u32,
}

/// The home of the shared click counter.
#[derive(Debug)]
pub struct Counter {
    clicks: u32,
}

impl View for Counter {
    type V = u32;

    closed spec fn view(&self) -> u32 {
        self.clicks
    }
}

impl Counter {
    /// A counter nobody has clicked.
    pub fn new() -> (counter: Counter)
        ensures
            counter@ == 0,
    {
        Counter { clicks: 0 }
    }

    /// Click so many times, and say when that is a milestone.
    pub fn increment(&mut self, by: u32) -> (result: (u32, Option<Milestone>))
        requires
            old(self)@ + by <= u32::MAX,
        ensures
            final(self)@ == old(self)@ + by,
            result.0 == final(self)@,
            result.1 == (if final(self)@ % 5 == 0 {
                Some(Milestone { clicks: final(self)@ })
            } else {
                None
            }),
    {
        self.clicks += by;
        let milestone = if self.clicks % CLICKS_PER_MILESTONE == 0 {
            Some(Milestone { clicks: self.clicks })
        } else {
            None
        };
        (self.clicks, milestone)
    }

    /// How often it was clicked.
    pub fn clicks(&self) -> (clicks: u32)
        ensures
            clicks == self@,
    {
        self.clicks
    }
}

/// The service of the host the plugin drives.
#[derive(Debug)]
pub struct Workspace {
    last_toast: Option<String>,
}

impl View for Workspace {
    type V = Option<Seq<char>>;

    closed spec fn view(&self) -> Option<Seq<char>> {
        match self.last_toast {
            Some(toast) => Some(toast@),
            None => None,
        }
    }
}

impl Workspace {
    /// A workspace that shows no toast.
    pub fn new() -> (workspace: Workspace)
        ensures
            workspace@ is None,
    {
        Workspace { last_toast: None }
    }

    /// Show a toast, in place of the last one.
    pub fn show_toast(&mut self, message: String) -> (reply: String)
        ensures
            final(self)@ == Some(message@),
            reply@ == "the host is showing your toast"@,
    {
        self.last_toast = Some(message);
        "the host is showing your toast".to_owned()
    }

    /// The toast that is shown.
    pub fn last_toast(&self) -> (toast: Option<String>)
        ensures
            match toast {
                Some(toast) => self@ == Some(toast@),
                None => self@ is None,
            },
    {
        match &self.last_toast {
            Some(toast) => Some(toast.clone()),
            None => None,
        }
    }
}

/// What the plugin's button says: nothing of clicks before it has found the counter, and
/// before there were any.
pub fn button_label(connected: bool, clicks: u32) -> (label: String)
    ensures
        label@ == (if !connected {
            "Connecting\u{2026}"@
        } else if clicks == 0 {
            "Click me!"@
        } else {
            "Clicked "@ + decimal_chars(clicks as nat) + "x"@
        }),
{
    if !connected {
        "Connecting\u{2026}".to_owned()
    } else if clicks == 0 {
        "Click me!".to_owned()
    } else {
        with_number("Clicked ", clicks as u64, "x")
    }
}

/// What the plugin's panel says of the clicks.
pub fn clicks_text(clicks: u32) -> (text: String)
    ensures
        text@ == "The button view has been clicked "@ + decimal_chars(clicks as nat) + (
        if clicks == 1 {
            " time."@
        } else {
            " times."@
        }),
{
    if clicks == 1 {
        with_number("The button view has been clicked ", clicks as u64, " time.")
    } else {
        with_number("The button view has been clicked ", clicks as u64, " times.")
    }
}

/// What the plugin's panel says of the last milestone.
pub fn milestone_text(last: Option<Milestone>) -> (text: String)
    ensures
        text@ == (match last {
            Some(milestone) => "last milestone event: "@ + decimal_chars(milestone.clicks as nat)
                + " clicks"@,
            None => "no milestone events yet (every 5th click)"@,
        }),
{
    match last {
        Some(milestone) => with_number(
            "last milestone event: ",
            milestone.clicks as u64,
            " clicks",
        ),
        None => "no milestone events yet (every 5th click)".to_owned(),
    }
}

/// What the host says of a command it ran.
pub fn command_status(outcome: Result<String, String>) -> (status: String)
    ensures
        status@ == (match outcome {
            Ok(reply) => reply@,
            Err(error) => "command failed: "@ + error@,
        }),
{
    match outcome {
        Ok(reply) => reply,
        Err(error) => joined("command failed: ", error.as_str()),
    }
}

/// How many UTF-16 units a text takes.
pub open spec fn utf16_length(text: Seq<char>) -> nat
    decreases text.len(),
{
    if text.len() == 0 {
        0
    } else {
        utf16_length(text.drop_last()) + if (text.last() as u32) < 0x1_0000 {
            1nat
        } else {
            2nat
        }
    }
}

/// A minimal line of text: what is typed is appended, and backspace takes the last
/// character back.
#[derive(Debug)]
pub struct InputLine {
    characters: Vec<char>,
}

impl View for InputLine {
    type V = Seq<char>;

    closed spec fn view(&self) -> Seq<char> {
        self.characters@
    }
}

impl InputLine {
    /// An empty line.
    pub fn new() -> (line: InputLine)
        ensures
            line@ == Seq::<char>::empty(),
    {
        InputLine { characters: Vec::new() }
    }

    /// Type a text, wherever it is meant to go.
    pub fn replace_text_in_range(&mut self, text: &str)
        ensures
            final(self)@ == old(self)@ + text@,
    {
        let ghost before = self@;
        assert(before =~= before + text@.take(0));
        for character in it: text.chars()
            invariant
                it.seq() == text@,
                self@ == before + text@.take(it.index() as int),
        {
            let ghost index = it.index() as int;
            self.characters.push(character);
            assert(self@ =~= before + text@.take(index + 1));
        }
        assert(text@.take(text@.len() as int) =~= text@);
    }

    /// A key is pressed: backspace takes the last character back. Says whether it did
    /// anything to be drawn.
    pub fn key_down(&mut self, backspace: bool) -> (changed: bool)
        ensures
            changed == backspace,
            final(self)@ == (if backspace && old(self)@.len() > 0 {
                old(self)@.drop_last()
            } else {
                old(self)@
            }),
    {
        if backspace {
            self.characters.pop();
        }
        backspace
    }

    /// The text of the line.
    pub fn text(&self) -> (text: String)
        ensures
            text@ == self@,
    {
        let mut text = "".to_owned();
        proof {
            reveal_strlit("");
        }
        assert(text@ =~= self@.take(0));
        let mut i: usize = 0;
        while i < self.characters.len()
            invariant
                i <= self.characters.len(),
                text@ == self@.take(i as int),
            decreases self.characters.len() - i,
        {
            text.push(self.characters[i]);
            assert(text@ =~= self@.take(i as int + 1));
            i += 1;
        }
        assert(self@.take(i as int) =~= self@);
        text
    }

    /// Where the selection is: behind the text, in UTF-16 units.
    pub fn selected_text_range(&self) -> (range: (u64, u64))
        requires
            utf16_length(self@) <= u64::MAX,
        ensures
            range.0 == utf16_length(self@),
            range.1 == utf16_length(self@),
    {
        let mut end: u64 = 0;
        let mut i: usize = 0;
        assert(self@.take(0) =~= Seq::<char>::empty());
        while i < self.characters.len()
            invariant
                i <= self.characters.len(),
                utf16_length(self@) <= u64::MAX,
                end == utf16_length(self@.take(i as int)),
            decreases self.characters.len() - i,
        {
            proof {
                assert(self@.take(i as int + 1).drop_last() =~= self@.take(i as int));
                lemma_prefixes_are_shorter(self@, i as int + 1);
            }
            if (self.characters[i] as u32) < 0x1_0000 {
                end += 1;
            } else {
                end += 2;
            }
            i += 1;
        }
        assert(self@.take(i as int) =~= self@);
        (end, end)
    }

    /// What the line shows: a hint while it is empty and not edited, and a caret behind the
    /// text while it is.
    pub fn shown(&self, focused: bool) -> (text: String)
        ensures
            text@ == (if focused {
                self@ + "\u{258f}"@
            } else if self@.len() == 0 {
                "click and type\u{2026}"@
            } else {
                self@
            }),
    {
        if focused {
            joined(self.text().as_str(), "\u{258f}")
        } else if self.characters.len() == 0 {
            "click and type\u{2026}".to_owned()
        } else {
            self.text()
        }
    }
}

proof fn lemma_prefixes_are_shorter(text: Seq<char>, end: int)
    requires
        0 <= end <= text.len(),
    ensures
        utf16_length(text.take(end)) <= utf16_length(text),
    decreases text.len() - end,
{
    if end < text.len() {
        lemma_prefixes_are_shorter(text, end + 1);
        assert(text.take(end + 1).drop_last() =~= text.take(end));
    } else {
        assert(text.take(end) =~= text);
    }
}

/// Backspace undoes typing one character.
pub proof fn backspace_undoes_typing(before: Seq<char>, character: char)
    ensures
        (before + seq![character]).drop_last() == before,
{
    assert((before + seq![character]).drop_last() =~= before);
}

/// A character takes one UTF-16 unit, or two where it lies beyond the first plane; a text takes
/// what its characters take.
pub proof fn utf16_units_add_up(before: Seq<char>, character: char)
    ensures
        utf16_length(Seq::empty()) == 0,
        (character as int) <= 0xffff ==> utf16_length(before.push(character)) == utf16_length(
            before,
        ) + 1,
        (character as int) > 0xffff ==> utf16_length(before.push(character)) == utf16_length(before)
            + 2,
{
    assert(before.push(character).drop_last() =~= before);
}

} // verus!
