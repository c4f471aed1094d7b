//! The synchronous questions a host asks a plugin: whether the guest consumed a key, and
//! what the input method needs to know of the focused text field.

use vstd::prelude::*;
use crate::display_list::{Bounds, WirePoint};
use crate::platform_types::{PlatformInput, PlatformKeystroke};

verus! {

/// A range of text, in UTF-16 units.
#[derive(Clone, Copy, Debug, PartialEq, Eq, Structural)]
pub struct Utf16Range {
    pub start: usize,
    pub end: usize,
}

/// A range of text as the wire carries it.
#[derive(Clone, Copy, Debug, PartialEq, Eq, Structural)]
pub struct TextRange {
    pub start: u32,
    pub end: u32,
}

/// A selection, and whether it was made backward.
#[derive(Clone, Copy, Debug, PartialEq, Eq, Structural)]
pub struct Utf16Selection {
    pub range: TextRange,
    pub reversed: bool,
}

/// A selection in a text field, and whether it was made backward.
#[derive(Clone, Copy, Debug, PartialEq, Eq, Structural)]
pub struct FieldSelection {
    pub range: Utf16Range,
    pub reversed: bool,
}

#[derive(Debug, PartialEq)]
pub struct KeyDownQuery {
    pub keystroke: PlatformKeystroke,
    pub is_held: bool,
}

#[derive(Debug, PartialEq)]
pub struct ReplaceText {
    pub range: Option<TextRange>,
    pub text: String,
}

#[derive(Debug, PartialEq)]
pub struct ReplaceAndMarkText {
    pub range: Option<TextRange>,
    pub text: String,
    pub new_selected_range: Option<TextRange>,
}

#[derive(Clone, Copy, Debug, PartialEq, Eq, Structural)]
pub enum Autocapitalize {
    Never,
    Words,
    Sentences,
    Characters,
}

#[derive(Clone, Copy, Debug, PartialEq, Eq, Structural)]
pub enum TextInputAction {
    Unspecified,
    Enter,
    Done,
    Go,
    Next,
    Previous,
    Search,
    Send,
}

/// How a text field wants its input assisted.
#[derive(Clone, Copy, Debug, PartialEq, Eq, Structural)]
pub struct TextInputConfiguration {
    pub autocorrect: bool,
    pub autocapitalize: Autocapitalize,
    pub suggestions: bool,
    pub input_action: TextInputAction,
}

/// A question to the view, or to the focused text field behind it.
#[derive(Debug, PartialEq)]
pub enum InputQuery {
    KeyDown(KeyDownQuery),
    SelectedTextRange(bool),
    MarkedTextRange,
    TextForRange(TextRange),
    ReplaceTextInRange(ReplaceText),
    ReplaceAndMarkTextInRange(ReplaceAndMarkText),
    UnmarkText,
    BoundsForRange(TextRange),
    CharacterIndexForPoint(WirePoint),
    SetSelectedTextRange(TextRange),
    TextLength,
    AcceptsTextInput,
    TextInputConfiguration,
    TextInputEditableRange,
}

/// The text of a range, and the range it really is of where that differs.
#[derive(Debug, PartialEq)]
pub struct TextForRange {
    pub text: String,
    pub adjusted: Option<TextRange>,
}

/// What the guest answers.
#[derive(Debug, PartialEq)]
pub enum InputAnswer {
    /// There is nobody to answer, or nothing to say.
    Nothing,
    /// Whether a key was consumed.
    Handled(bool),
    Selection(Utf16Selection),
    Range(TextRange),
    Text(TextForRange),
    /// A change was made.
    Done,
    Bounds(Bounds),
    Index(u32),
    Accepts(bool),
    Configuration(TextInputConfiguration),
}

/// A range as the wire carries it: each end by its lower 32 bits.
pub open spec fn spec_wire_range(range: Utf16Range) -> TextRange {
    TextRange { start: range.start as u32, end: range.end as u32 }
}

/// The range a wire range stands for.
pub open spec fn spec_range_from_wire(range: TextRange) -> Utf16Range {
    Utf16Range { start: range.start as usize, end: range.end as usize }
}

/// A range as the wire carries it.
pub fn wire_range(range: Utf16Range) -> (wire: TextRange)
    ensures
        wire == spec_wire_range(range),
{
    TextRange { start: range.start as u32, end: range.end as u32 }
}

/// The range a wire range stands for.
pub fn range_from_wire(range: TextRange) -> (field: Utf16Range)
    ensures
        field == spec_range_from_wire(range),
{
    Utf16Range { start: range.start as usize, end: range.end as usize }
}

/// A wire range read back and laid out again is the same range.
pub proof fn wire_ranges_are_canonical(range: TextRange)
    ensures
        spec_wire_range(spec_range_from_wire(range)) == range,
{
}

/// A range whose ends fit in 32 bits survives the wire.
pub proof fn ranges_survive_the_wire(range: Utf16Range)
    requires
        range.start <= u32::MAX,
        range.end <= u32::MAX,
    ensures
        spec_range_from_wire(spec_wire_range(range)) == range,
{
}

/// A wire range, if there is one.
pub open spec fn spec_wire_option(range: Option<Utf16Range>) -> Option<TextRange> {
    match range {
        Some(range) => Some(spec_wire_range(range)),
        None => None,
    }
}

/// The range a wire range stands for, if there is one.
pub open spec fn spec_option_from_wire(range: Option<TextRange>) -> Option<Utf16Range> {
    match range {
        Some(range) => Some(spec_range_from_wire(range)),
        None => None,
    }
}

fn wire_option(range: Option<Utf16Range>) -> (wire: Option<TextRange>)
    ensures
        wire == spec_wire_option(range),
{
    match range {
        Some(range) => Some(wire_range(range)),
        None => None,
    }
}

fn option_from_wire(range: Option<TextRange>) -> (field: Option<Utf16Range>)
    ensures
        field == spec_option_from_wire(range),
{
    match range {
        Some(range) => Some(range_from_wire(range)),
        None => None,
    }
}

// ---------------------------------------------------------------------------------
// The host's side: an input method sees a surface as a text field. Each question goes out
// as a query, and its answer is read back.
// ---------------------------------------------------------------------------------

/// The query that replaces text.
pub fn replace_text_query(range: Option<Utf16Range>, text: String) -> (query: InputQuery)
    ensures
        query == InputQuery::ReplaceTextInRange(
            ReplaceText { range: spec_wire_option(range), text },
        ),
{
    InputQuery::ReplaceTextInRange(ReplaceText { range: wire_option(range), text })
}

/// The query that replaces text and marks it as being composed.
pub fn replace_and_mark_query(
    range: Option<Utf16Range>,
    text: String,
    new_selected_range: Option<Utf16Range>,
) -> (query: InputQuery)
    ensures
        query == InputQuery::ReplaceAndMarkTextInRange(
            ReplaceAndMarkText {
                range: spec_wire_option(range),
                text,
                new_selected_range: spec_wire_option(new_selected_range),
            },
        ),
{
    InputQuery::ReplaceAndMarkTextInRange(
        ReplaceAndMarkText {
            range: wire_option(range),
            text,
            new_selected_range: wire_option(new_selected_range),
        },
    )
}

/// An answer that says something: none that says nothing, and none where none came.
pub fn said(answer: Option<InputAnswer>) -> (said: Option<InputAnswer>)
    ensures
        said == (match answer {
            Some(InputAnswer::Nothing) => None,
            other => other,
        }),
{
    match answer {
        Some(InputAnswer::Nothing) => None,
        other => other,
    }
}

/// The text of a range, and the range it really is of.
pub fn text_for_range(answer: Option<InputAnswer>) -> (text: Option<(String, Option<Utf16Range>)>)
    ensures
        text == (match answer {
            Some(InputAnswer::Text(text)) => Some(
                (text.text, spec_option_from_wire(text.adjusted)),
            ),
            _ => None,
        }),
{
    match answer {
        Some(InputAnswer::Text(text)) => Some((text.text, option_from_wire(text.adjusted))),
        _ => None,
    }
}

/// The selection.
pub fn selected_text_range(answer: Option<InputAnswer>) -> (selection: Option<FieldSelection>)
    ensures
        selection == (match answer {
            Some(InputAnswer::Selection(selection)) => Some(
                FieldSelection {
                    range: spec_range_from_wire(selection.range),
                    reversed: selection.reversed,
                },
            ),
            _ => None,
        }),
{
    match answer {
        Some(InputAnswer::Selection(selection)) => Some(
            FieldSelection {
                range: range_from_wire(selection.range),
                reversed: selection.reversed,
            },
        ),
        _ => None,
    }
}

/// A range: the marked one, or the editable one.
pub fn answered_range(answer: Option<InputAnswer>) -> (range: Option<Utf16Range>)
    ensures
        range == (match answer {
            Some(InputAnswer::Range(range)) => Some(spec_range_from_wire(range)),
            _ => None,
        }),
{
    match answer {
        Some(InputAnswer::Range(range)) => Some(range_from_wire(range)),
        _ => None,
    }
}

/// An index, or a length.
pub fn answered_index(answer: Option<InputAnswer>) -> (index: Option<usize>)
    ensures
        index == (match answer {
            Some(InputAnswer::Index(index)) => Some(index as usize),
            _ => None,
        }),
{
    match answer {
        Some(InputAnswer::Index(index)) => Some(index as usize),
        _ => None,
    }
}

/// The bounds of a range, relative to the slot.
pub fn bounds_for_range(answer: Option<InputAnswer>) -> (bounds: Option<Bounds>)
    ensures
        bounds == (match answer {
            Some(InputAnswer::Bounds(bounds)) => Some(bounds),
            _ => None,
        }),
{
    match answer {
        Some(InputAnswer::Bounds(bounds)) => Some(bounds),
        _ => None,
    }
}

/// Whether the guest takes text now.
pub fn accepts_text_input(answer: Option<InputAnswer>) -> (accepts: bool)
    ensures
        accepts == (answer == Some(InputAnswer::Accepts(true))),
{
    match answer {
        Some(InputAnswer::Accepts(accepts)) => accepts,
        _ => false,
    }
}

/// Whether a key-down was consumed by the guest, so that the host lets it go no further.
pub fn key_consumed(answer: Option<InputAnswer>) -> (consumed: bool)
    ensures
        consumed == (answer == Some(InputAnswer::Handled(true))),
{
    match answer {
        Some(InputAnswer::Handled(handled)) => handled,
        _ => false,
    }
}

/// How the guest's field wants its input assisted; none where the host's default applies.
pub fn text_input_configuration(answer: Option<InputAnswer>) -> (configuration: Option<
    TextInputConfiguration,
>)
    ensures
        configuration == (match answer {
            Some(InputAnswer::Configuration(configuration)) => Some(configuration),
            _ => None,
        }),
{
    match answer {
        Some(InputAnswer::Configuration(configuration)) => Some(configuration),
        _ => None,
    }
}

// ---------------------------------------------------------------------------------
// The guest's side: a query becomes a key dispatched through the view's window, or a
// question to the window's focused text field, whose reply becomes the answer.
// ---------------------------------------------------------------------------------

/// A question to the focused text field. Points are relative to the slot.
#[derive(Debug, PartialEq)]
pub enum FieldQuestion {
    SelectedTextRange { ignore_disabled_input: bool },
    MarkedTextRange,
    TextForRange(Utf16Range),
    ReplaceTextInRange { range: Option<Utf16Range>, text: String },
    ReplaceAndMarkTextInRange {
        range: Option<Utf16Range>,
        text: String,
        new_selected_range: Option<Utf16Range>,
    },
    UnmarkText,
    BoundsForRange(Utf16Range),
    CharacterIndexForPoint(WirePoint),
}

/// What the focused text field replies. Bounds are relative to the slot.
#[derive(Debug, PartialEq)]
pub enum FieldReply {
    Selection(Option<FieldSelection>),
    Range(Option<Utf16Range>),
    Text { text: Option<String>, adjusted: Option<Utf16Range> },
    Done,
    Bounds(Option<Bounds>),
    Index(Option<usize>),
}

/// What a query asks of the window its view is in.
#[derive(Debug, PartialEq)]
pub enum WindowRequest {
    /// Dispatch a key-down.
    Dispatch(PlatformInput),
    /// Ask the focused text field.
    Ask(FieldQuestion),
    /// Nothing a text field here answers.
    Unanswerable,
}

/// What a query asks of the window its view is in.
pub open spec fn spec_window_request(query: InputQuery) -> WindowRequest {
    match query {
        InputQuery::KeyDown(key_down) => WindowRequest::Dispatch(
            PlatformInput::KeyDown {
                keystroke: key_down.keystroke,
                is_held: key_down.is_held,
                prefer_character_input: false,
            },
        ),
        InputQuery::SelectedTextRange(ignore_disabled_input) => WindowRequest::Ask(
            FieldQuestion::SelectedTextRange { ignore_disabled_input },
        ),
        InputQuery::MarkedTextRange => WindowRequest::Ask(FieldQuestion::MarkedTextRange),
        InputQuery::TextForRange(range) => WindowRequest::Ask(
            FieldQuestion::TextForRange(spec_range_from_wire(range)),
        ),
        InputQuery::ReplaceTextInRange(replace) => WindowRequest::Ask(
            FieldQuestion::ReplaceTextInRange {
                range: spec_option_from_wire(replace.range),
                text: replace.text,
            },
        ),
        InputQuery::ReplaceAndMarkTextInRange(replace) => WindowRequest::Ask(
            FieldQuestion::ReplaceAndMarkTextInRange {
                range: spec_option_from_wire(replace.range),
                text: replace.text,
                new_selected_range: spec_option_from_wire(replace.new_selected_range),
            },
        ),
        InputQuery::UnmarkText => WindowRequest::Ask(FieldQuestion::UnmarkText),
        InputQuery::BoundsForRange(range) => WindowRequest::Ask(
            FieldQuestion::BoundsForRange(spec_range_from_wire(range)),
        ),
        InputQuery::CharacterIndexForPoint(point) => WindowRequest::Ask(
            FieldQuestion::CharacterIndexForPoint(point),
        ),
        _ => WindowRequest::Unanswerable,
    }
}

/// What a query asks of the window its view is in.
pub fn window_request(query: InputQuery) -> (request: WindowRequest)
    ensures
        request == spec_window_request(query),
{
    match query {
        InputQuery::KeyDown(key_down) => WindowRequest::Dispatch(
            PlatformInput::KeyDown {
                keystroke: key_down.keystroke,
                is_held: key_down.is_held,
                prefer_character_input: false,
            },
        ),
        InputQuery::SelectedTextRange(ignore_disabled_input) => WindowRequest::Ask(
            FieldQuestion::SelectedTextRange { ignore_disabled_input },
        ),
        InputQuery::MarkedTextRange => WindowRequest::Ask(FieldQuestion::MarkedTextRange),
        InputQuery::TextForRange(range) => WindowRequest::Ask(
            FieldQuestion::TextForRange(range_from_wire(range)),
        ),
        InputQuery::ReplaceTextInRange(replace) => WindowRequest::Ask(
            FieldQuestion::ReplaceTextInRange {
                range: option_from_wire(replace.range),
                text: replace.text,
            },
        ),
        InputQuery::ReplaceAndMarkTextInRange(replace) => WindowRequest::Ask(
            FieldQuestion::ReplaceAndMarkTextInRange {
                range: option_from_wire(replace.range),
                text: replace.text,
                new_selected_range: option_from_wire(replace.new_selected_range),
            },
        ),
        InputQuery::UnmarkText => WindowRequest::Ask(FieldQuestion::UnmarkText),
        InputQuery::BoundsForRange(range) => WindowRequest::Ask(
            FieldQuestion::BoundsForRange(range_from_wire(range)),
        ),
        InputQuery::CharacterIndexForPoint(point) => WindowRequest::Ask(
            FieldQuestion::CharacterIndexForPoint(point),
        ),
        _ => WindowRequest::Unanswerable,
    }
}

/// What came of an event dispatched through a window.
#[derive(Clone, Copy, Debug, PartialEq, Eq, Structural)]
pub struct DispatchResult {
    pub propagate: bool,
    pub default_prevented: bool,
}

/// Whether a dispatched key was consumed: it stopped propagating, or its default was
/// prevented. Nothing is said where it was not dispatched.
pub fn key_answer(result: Option<DispatchResult>) -> (answer: InputAnswer)
    ensures
        answer == (match result {
            Some(result) => InputAnswer::Handled(!result.propagate || result.default_prevented),
            None => InputAnswer::Nothing,
        }),
{
    match result {
        Some(result) => InputAnswer::Handled(!result.propagate || result.default_prevented),
        None => InputAnswer::Nothing,
    }
}

/// The answer a field's reply makes.
pub open spec fn spec_field_answer(reply: Option<FieldReply>) -> InputAnswer {
    match reply {
        Some(FieldReply::Selection(Some(selection))) => InputAnswer::Selection(
            Utf16Selection {
                range: spec_wire_range(selection.range),
                reversed: selection.reversed,
            },
        ),
        Some(FieldReply::Range(Some(range))) => InputAnswer::Range(spec_wire_range(range)),
        Some(FieldReply::Text { text: Some(text), adjusted }) => InputAnswer::Text(
            TextForRange { text, adjusted: spec_wire_option(adjusted) },
        ),
        Some(FieldReply::Done) => InputAnswer::Done,
        Some(FieldReply::Bounds(Some(bounds))) => InputAnswer::Bounds(bounds),
        Some(FieldReply::Index(Some(index))) => InputAnswer::Index(index as u32),
        _ => InputAnswer::Nothing,
    }
}

/// The answer a field's reply makes: nothing where there is no focused field, or where
/// the field has nothing to say.
pub fn field_answer(reply: Option<FieldReply>) -> (answer: InputAnswer)
    ensures
        answer == spec_field_answer(reply),
{
    match reply {
        Some(FieldReply::Selection(Some(selection))) => InputAnswer::Selection(
            Utf16Selection {
                range: wire_range(selection.range),
                reversed: selection.reversed,
            },
        ),
        Some(FieldReply::Range(Some(range))) => InputAnswer::Range(wire_range(range)),
        Some(FieldReply::Text { text: Some(text), adjusted }) => InputAnswer::Text(
            TextForRange { text, adjusted: wire_option(adjusted) },
        ),
        Some(FieldReply::Done) => InputAnswer::Done,
        Some(FieldReply::Bounds(Some(bounds))) => InputAnswer::Bounds(bounds),
        Some(FieldReply::Index(Some(index))) => InputAnswer::Index(index as u32),
        _ => InputAnswer::Nothing,
    }
}

/// A range begins at the other end where it begins at this one, and ends where it ends.
pub proof fn ranges_keep_their_ends(range: Utf16Range, wire: TextRange)
    ensures
        range.start <= u32::MAX ==> spec_wire_range(range).start == range.start,
        range.end <= u32::MAX ==> spec_wire_range(range).end == range.end,
        spec_range_from_wire(wire).start == wire.start,
        spec_range_from_wire(wire).end == wire.end,
        spec_wire_option(Some(range)) == Some(spec_wire_range(range)),
        spec_wire_option(None) is None,
        spec_option_from_wire(Some(wire)) == Some(spec_range_from_wire(wire)),
        spec_option_from_wire(None) is None,
{
}

/// A text field is asked what the host asked: a question of the same kind, about the same range
/// or point, and with the same text. Only a key is dispatched, and only the questions a field
/// here cannot answer are left unasked.
pub proof fn fields_are_asked_what_the_host_asked(query: InputQuery)
    ensures
        match (query, spec_window_request(query)) {
            (
                InputQuery::KeyDown(key_down),
                WindowRequest::Dispatch(
                    PlatformInput::KeyDown { keystroke, is_held, prefer_character_input },
                ),
            ) => keystroke == key_down.keystroke && is_held == key_down.is_held
                && !prefer_character_input,
            (
                InputQuery::SelectedTextRange(ignore),
                WindowRequest::Ask(FieldQuestion::SelectedTextRange { ignore_disabled_input }),
            ) => ignore_disabled_input == ignore,
            (
                InputQuery::MarkedTextRange,
                WindowRequest::Ask(FieldQuestion::MarkedTextRange),
            ) => true,
            (
                InputQuery::TextForRange(asked),
                WindowRequest::Ask(FieldQuestion::TextForRange(range)),
            ) => range.start == asked.start && range.end == asked.end,
            (
                InputQuery::ReplaceTextInRange(replace),
                WindowRequest::Ask(FieldQuestion::ReplaceTextInRange { range, text }),
            ) => {
                &&& text == replace.text
                &&& range is Some <==> replace.range is Some
                &&& range matches Some(range) ==> range.start == replace.range->0.start
                    && range.end == replace.range->0.end
            },
            (
                InputQuery::ReplaceAndMarkTextInRange(replace),
                WindowRequest::Ask(
                    FieldQuestion::ReplaceAndMarkTextInRange { range, text, new_selected_range },
                ),
            ) => {
                &&& text == replace.text
                &&& range is Some <==> replace.range is Some
                &&& range matches Some(range) ==> range.start == replace.range->0.start
                    && range.end == replace.range->0.end
                &&& new_selected_range is Some <==> replace.new_selected_range is Some
                &&& new_selected_range matches Some(range) ==> range.start
                    == replace.new_selected_range->0.start && range.end
                    == replace.new_selected_range->0.end
            },
            (InputQuery::UnmarkText, WindowRequest::Ask(FieldQuestion::UnmarkText)) => true,
            (
                InputQuery::BoundsForRange(asked),
                WindowRequest::Ask(FieldQuestion::BoundsForRange(range)),
            ) => range.start == asked.start && range.end == asked.end,
            (
                InputQuery::CharacterIndexForPoint(asked),
                WindowRequest::Ask(FieldQuestion::CharacterIndexForPoint(point)),
            ) => point.x == asked.x && point.y == asked.y,
            (query, WindowRequest::Unanswerable) => query is SetSelectedTextRange || query
                is TextLength || query is AcceptsTextInput || query is TextInputConfiguration
                || query is TextInputEditableRange,
            _ => false,
        },
{
}

/// The host is answered what the text field replied: a selection from where to where, and
/// whether it was made backward; a range, a text, the bounds or an index as they are. Nothing is
/// said exactly where there is no field, or the field has nothing to say.
pub proof fn hosts_are_answered_what_the_field_replied(reply: FieldReply)
    ensures
        spec_field_answer(None) is Nothing,
        match (reply, spec_field_answer(Some(reply))) {
            (FieldReply::Selection(Some(field)), InputAnswer::Selection(answer)) => {
                &&& answer.reversed == field.reversed
                &&& field.range.start <= u32::MAX ==> answer.range.start == field.range.start
                &&& field.range.end <= u32::MAX ==> answer.range.end == field.range.end
            },
            (FieldReply::Range(Some(field)), InputAnswer::Range(answer)) => {
                &&& field.start <= u32::MAX ==> answer.start == field.start
                &&& field.end <= u32::MAX ==> answer.end == field.end
            },
            (FieldReply::Text { text: Some(text), adjusted }, InputAnswer::Text(answer)) => {
                &&& answer.text == text
                &&& answer.adjusted is Some <==> adjusted is Some
                &&& adjusted matches Some(field) ==> {
                    &&& field.start <= u32::MAX ==> answer.adjusted->0.start == field.start
                    &&& field.end <= u32::MAX ==> answer.adjusted->0.end == field.end
                }
            },
            (FieldReply::Done, InputAnswer::Done) => true,
            (FieldReply::Bounds(Some(field)), InputAnswer::Bounds(answer)) => answer == field,
            (FieldReply::Index(Some(field)), InputAnswer::Index(answer)) => field <= u32::MAX
                ==> answer == field,
            (reply, InputAnswer::Nothing) => match reply {
                FieldReply::Selection(selection) => selection is None,
                FieldReply::Range(range) => range is None,
                FieldReply::Text { text, .. } => text is None,
                FieldReply::Done => false,
                FieldReply::Bounds(bounds) => bounds is None,
                FieldReply::Index(index) => index is None,
            },
            _ => false,
        },
{
}

} // verus!
