//! UI as data: the tree a script renders, and the elements it becomes.

use vstd::prelude::*;
use crate::js::{parse_color, spec_parse_color};
use crate::platform_types::Scalar;
use crate::sequences::{
    lemma_given_are_said, lemma_mapped_in_order, lemma_mapped_place, lemma_said_once,
};
use crate::text::same_text;

verus! {

/// The style vocabulary a script may use: a small, flat subset of the UI framework's.
#[derive(Debug, PartialEq)]
pub struct Style {
    pub flex: bool,
    pub flex_col: bool,
    pub items_center: bool,
    pub justify_center: bool,
    pub size_full: bool,
    pub w: Option<Scalar>,
    pub h: Option<Scalar>,
    pub p: Option<Scalar>,
    pub px: Option<Scalar>,
    pub py: Option<Scalar>,
    pub gap: Option<Scalar>,
    pub rounded: Option<Scalar>,
    pub border: Option<Scalar>,
    pub bg: Option<String>,
    pub border_color: Option<String>,
    pub text_color: Option<String>,
    pub text_size: Option<Scalar>,
}

/// A node of the script's UI tree.
#[derive(Debug, PartialEq)]
pub struct Node {
    pub kind: String,
    pub style: Style,
    pub children: Vec<Node>,
    pub text: Option<String>,
    /// The handler to invoke on a click.
    pub on_click: Option<u32>,
}

/// What can be on or off.
#[derive(Clone, Copy, Debug, PartialEq, Eq, Structural)]
pub enum Flag {
    Flex,
    FlexCol,
    ItemsCenter,
    JustifyCenter,
    SizeFull,
}

/// What has a length.
#[derive(Clone, Copy, Debug, PartialEq, Eq, Structural)]
pub enum Length {
    Width,
    Height,
    Padding,
    PaddingX,
    PaddingY,
    Gap,
    Rounded,
    Border,
    TextSize,
}

/// What has a color.
#[derive(Clone, Copy, Debug, PartialEq, Eq, Structural)]
pub enum Colored {
    Background,
    Border,
    Text,
}

/// One thing said of an element's looks.
#[derive(Clone, Copy, Debug, PartialEq, Eq, Structural)]
pub enum StyleOp {
    On(Flag),
    Measure(Length, Scalar),
    Color(Colored, u32),
}

/// An element to build.
#[derive(Debug, PartialEq)]
pub struct Element {
    /// What is said of its looks, in order.
    pub styles: Vec<StyleOp>,
    pub on_click: Option<u32>,
    /// The text in it.
    pub text: Option<String>,
    /// The elements in it, in order.
    pub children: Vec<Element>,
}

/// What an [`Element`] holds.
#[verifier::ext_equal]
pub struct ElementModel {
    pub styles: Seq<StyleOp>,
    pub on_click: Option<u32>,
    pub text: Option<Seq<char>>,
    pub children: Seq<ElementModel>,
}

/// What a flag says: something only where it is on.
pub open spec fn spec_flag(on: bool, flag: Flag) -> Option<StyleOp> {
    if on {
        Some(StyleOp::On(flag))
    } else {
        None
    }
}

/// What a length says, where it is given.
pub open spec fn spec_length(value: Option<Scalar>, length: Length) -> Option<StyleOp> {
    match value {
        Some(value) => Some(StyleOp::Measure(length, value)),
        None => None,
    }
}

/// What a color says, where it is given and is a color.
pub open spec fn spec_color(text: Option<String>, colored: Colored) -> Option<StyleOp> {
    match text {
        Some(text) => match spec_parse_color(text@) {
            Some(color) => Some(StyleOp::Color(colored, color)),
            None => None,
        },
        None => None,
    }
}

/// What a style says about each thing it can say something about, in order.
pub open spec fn style_slots(style: Style) -> Seq<Option<StyleOp>> {
    seq![
        spec_flag(style.flex, Flag::Flex),
        spec_flag(style.flex_col, Flag::FlexCol),
        spec_flag(style.items_center, Flag::ItemsCenter),
        spec_flag(style.justify_center, Flag::JustifyCenter),
        spec_flag(style.size_full, Flag::SizeFull),
        spec_length(style.w, Length::Width),
        spec_length(style.h, Length::Height),
        spec_length(style.p, Length::Padding),
        spec_length(style.px, Length::PaddingX),
        spec_length(style.py, Length::PaddingY),
        spec_length(style.gap, Length::Gap),
        spec_length(style.rounded, Length::Rounded),
        spec_length(style.border, Length::Border),
        spec_color(style.bg, Colored::Background),
        spec_color(style.border_color, Colored::Border),
        spec_color(style.text_color, Colored::Text),
        spec_length(style.text_size, Length::TextSize),
    ]
}

/// What a style says, in order.
pub open spec fn style_ops(style: Style) -> Seq<StyleOp> {
    style_slots(style).filter_map(|op: Option<StyleOp>| op)
}

/// The element a node becomes: a text node shows its text and nothing in it; any other
/// node shows the nodes in it.
pub open spec fn element_of(node: Node) -> ElementModel
    decreases node,
{
    if node.kind@ == "text"@ {
        ElementModel {
            styles: style_ops(node.style),
            on_click: node.on_click,
            text: match node.text {
                Some(text) => Some(text@),
                None => None,
            },
            children: Seq::empty(),
        }
    } else {
        ElementModel {
            styles: style_ops(node.style),
            on_click: node.on_click,
            text: None,
            children: elements_of(node.children@),
        }
    }
}

/// The elements some nodes become, in order.
pub open spec fn elements_of(nodes: Seq<Node>) -> Seq<ElementModel>
    decreases nodes,
{
    if nodes.len() == 0 {
        Seq::empty()
    } else {
        elements_of(nodes.drop_last()).push(element_of(nodes.last()))
    }
}

/// What an element holds.
pub open spec fn element_model(element: Element) -> ElementModel
    decreases element,
{
    ElementModel {
        styles: element.styles@,
        on_click: element.on_click,
        text: match element.text {
            Some(text) => Some(text@),
            None => None,
        },
        children: element_models(element.children@),
    }
}

/// What some elements hold, in order.
pub open spec fn element_models(elements: Seq<Element>) -> Seq<ElementModel>
    decreases elements,
{
    if elements.len() == 0 {
        Seq::empty()
    } else {
        element_models(elements.drop_last()).push(element_model(elements.last()))
    }
}

fn flag(on: bool, which: Flag) -> (op: Option<StyleOp>)
    ensures
        op == spec_flag(on, which),
{
    if on {
        Some(StyleOp::On(which))
    } else {
        None
    }
}

fn length(value: Option<Scalar>, which: Length) -> (op: Option<StyleOp>)
    ensures
        op == spec_length(value, which),
{
    match value {
        Some(value) => Some(StyleOp::Measure(which, value)),
        None => None,
    }
}

fn color(text: &Option<String>, which: Colored) -> (op: Option<StyleOp>)
    ensures
        op == spec_color(*text, which),
{
    match text {
        Some(text) => match parse_color(text.as_str()) {
            Some(color) => Some(StyleOp::Color(which, color)),
            None => None,
        },
        None => None,
    }
}

/// What a style says, in order.
pub fn style_operations(style: &Style) -> (ops: Vec<StyleOp>)
    ensures
        ops@ == style_ops(*style),
{
    let slots: Vec<Option<StyleOp>> = vec![
        flag(style.flex, Flag::Flex),
        flag(style.flex_col, Flag::FlexCol),
        flag(style.items_center, Flag::ItemsCenter),
        flag(style.justify_center, Flag::JustifyCenter),
        flag(style.size_full, Flag::SizeFull),
        length(style.w, Length::Width),
        length(style.h, Length::Height),
        length(style.p, Length::Padding),
        length(style.px, Length::PaddingX),
        length(style.py, Length::PaddingY),
        length(style.gap, Length::Gap),
        length(style.rounded, Length::Rounded),
        length(style.border, Length::Border),
        color(&style.bg, Colored::Background),
        color(&style.border_color, Colored::Border),
        color(&style.text_color, Colored::Text),
        length(style.text_size, Length::TextSize),
    ];
    assert(slots@ =~= style_slots(*style));
    said(&slots)
}

fn said(slots: &Vec<Option<StyleOp>>) -> (ops: Vec<StyleOp>)
    ensures
        ops@ == slots@.filter_map(|op: Option<StyleOp>| op),
{
    let ghost each = |op: Option<StyleOp>| op;
    let mut ops: Vec<StyleOp> = Vec::new();
    let mut i: usize = 0;
    while i < slots.len()
        invariant
            i <= slots.len(),
            each == (|op: Option<StyleOp>| op),
            ops@ == slots@.take(i as int).filter_map(each),
        decreases slots.len() - i,
    {
        assert(slots@.take(i as int + 1).drop_last() =~= slots@.take(i as int));
        if let Some(op) = slots[i] {
            ops.push(op);
        }
        assert(ops@ =~= slots@.take(i as int + 1).filter_map(each));
        i += 1;
    }
    assert(slots@.take(i as int) =~= slots@);
    ops
}

/// The element a node becomes.
pub fn render_node(node: &Node) -> (element: Element)
    ensures
        element_model(element) == element_of(*node),
    decreases node,
{
    let styles = style_operations(&node.style);
    if same_text(node.kind.as_str(), "text") {
        let text = match &node.text {
            Some(text) => Some(text.clone()),
            None => None,
        };
        let children: Vec<Element> = Vec::new();
        Element { styles, on_click: node.on_click, text, children }
    } else {
        let mut children: Vec<Element> = Vec::new();
        let mut i: usize = 0;
        while i < node.children.len()
            invariant
                i <= node.children.len(),
                element_models(children@) == elements_of(node.children@.take(i as int)),
            decreases node.children.len() - i,
        {
            let child = render_node(&node.children[i]);
            proof {
                let taken = node.children@.take(i as int + 1);
                assert(taken.drop_last() =~= node.children@.take(i as int));
                assert(taken.last() == node.children@[i as int]);
            }
            let ghost before = children@;
            let ghost model = element_model(child);
            children.push(child);
            assert(children@.drop_last() =~= before);
            i += 1;
        }
        assert(node.children@.take(i as int) =~= node.children@);
        Element { styles, on_click: node.on_click, text: None, children }
    }
}

/// Which slot says a thing.
spec fn slot_of(op: StyleOp) -> int {
    match op {
        StyleOp::On(Flag::Flex) => 0,
        StyleOp::On(Flag::FlexCol) => 1,
        StyleOp::On(Flag::ItemsCenter) => 2,
        StyleOp::On(Flag::JustifyCenter) => 3,
        StyleOp::On(Flag::SizeFull) => 4,
        StyleOp::Measure(Length::Width, _) => 5,
        StyleOp::Measure(Length::Height, _) => 6,
        StyleOp::Measure(Length::Padding, _) => 7,
        StyleOp::Measure(Length::PaddingX, _) => 8,
        StyleOp::Measure(Length::PaddingY, _) => 9,
        StyleOp::Measure(Length::Gap, _) => 10,
        StyleOp::Measure(Length::Rounded, _) => 11,
        StyleOp::Measure(Length::Border, _) => 12,
        StyleOp::Color(Colored::Background, _) => 13,
        StyleOp::Color(Colored::Border, _) => 14,
        StyleOp::Color(Colored::Text, _) => 15,
        StyleOp::Measure(Length::TextSize, _) => 16,
    }
}

proof fn lemma_slots_apart(style: Style, i: int)
    requires
        0 <= i < style_slots(style).len(),
    ensures
        style_slots(style)[i] matches Some(op) ==> slot_of(op) == i,
{
    let slots = style_slots(style);
    assert(slots.len() == 17);
}

proof fn lemma_said_where_given(style: Style, op: StyleOp)
    ensures
        style_ops(style).contains(op) <==> style_slots(style)[slot_of(op)] == Some(op),
{
    let slots = style_slots(style);
    lemma_given_are_said(slots, op);
    assert(0 <= slot_of(op) < slots.len());
    if slots.contains(Some(op)) {
        let i = choose|i: int| 0 <= i < slots.len() && slots[i] == Some(op);
        lemma_slots_apart(style, i);
    }
}

proof fn lemma_said_once_each(style: Style)
    ensures
        style_ops(style).no_duplicates(),
{
    let slots = style_slots(style);
    assert forall|i: int, j: int|
        0 <= i < j < slots.len() && (#[trigger] slots[i]) is Some implies slots[i]
        != #[trigger] slots[j] by {
        lemma_slots_apart(style, i);
        lemma_slots_apart(style, j);
    }
    lemma_said_once(slots);
}

/// Each thing a style gives is said once, as what it is: what is on, how long, and in which
/// color; and nothing else is said.
pub proof fn styles_say_what_they_give(style: Style, value: Scalar, color: u32)
    ensures
        style_ops(style).no_duplicates(),
        style_ops(style).contains(StyleOp::On(Flag::Flex)) <==> style.flex,
        style_ops(style).contains(StyleOp::On(Flag::FlexCol)) <==> style.flex_col,
        style_ops(style).contains(StyleOp::On(Flag::ItemsCenter)) <==> style.items_center,
        style_ops(style).contains(StyleOp::On(Flag::JustifyCenter)) <==> style.justify_center,
        style_ops(style).contains(StyleOp::On(Flag::SizeFull)) <==> style.size_full,
        style_ops(style).contains(StyleOp::Measure(Length::Width, value)) <==> style.w == Some(
            value,
        ),
        style_ops(style).contains(StyleOp::Measure(Length::Height, value)) <==> style.h == Some(
            value,
        ),
        style_ops(style).contains(StyleOp::Measure(Length::Padding, value)) <==> style.p == Some(
            value,
        ),
        style_ops(style).contains(StyleOp::Measure(Length::PaddingX, value)) <==> style.px == Some(
            value,
        ),
        style_ops(style).contains(StyleOp::Measure(Length::PaddingY, value)) <==> style.py == Some(
            value,
        ),
        style_ops(style).contains(StyleOp::Measure(Length::Gap, value)) <==> style.gap == Some(
            value,
        ),
        style_ops(style).contains(StyleOp::Measure(Length::Rounded, value)) <==> style.rounded == Some(
            value,
        ),
        style_ops(style).contains(StyleOp::Measure(Length::Border, value)) <==> style.border == Some(
            value,
        ),
        style_ops(style).contains(StyleOp::Measure(Length::TextSize, value)) <==> style.text_size == Some(
            value,
        ),
        style_ops(style).contains(StyleOp::Color(Colored::Background, color)) <==> (
        style.bg matches Some(text) && spec_parse_color(text@) == Some(color)),
        style_ops(style).contains(StyleOp::Color(Colored::Border, color)) <==> (
        style.border_color matches Some(text) && spec_parse_color(text@) == Some(color)),
        style_ops(style).contains(StyleOp::Color(Colored::Text, color)) <==> (
        style.text_color matches Some(text) && spec_parse_color(text@) == Some(color)),
{
    lemma_said_once_each(style);
    lemma_said_where_given(style, StyleOp::On(Flag::Flex));
    lemma_said_where_given(style, StyleOp::On(Flag::FlexCol));
    lemma_said_where_given(style, StyleOp::On(Flag::ItemsCenter));
    lemma_said_where_given(style, StyleOp::On(Flag::JustifyCenter));
    lemma_said_where_given(style, StyleOp::On(Flag::SizeFull));
    lemma_said_where_given(style, StyleOp::Measure(Length::Width, value));
    lemma_said_where_given(style, StyleOp::Measure(Length::Height, value));
    lemma_said_where_given(style, StyleOp::Measure(Length::Padding, value));
    lemma_said_where_given(style, StyleOp::Measure(Length::PaddingX, value));
    lemma_said_where_given(style, StyleOp::Measure(Length::PaddingY, value));
    lemma_said_where_given(style, StyleOp::Measure(Length::Gap, value));
    lemma_said_where_given(style, StyleOp::Measure(Length::Rounded, value));
    lemma_said_where_given(style, StyleOp::Measure(Length::Border, value));
    lemma_said_where_given(style, StyleOp::Measure(Length::TextSize, value));
    lemma_said_where_given(style, StyleOp::Color(Colored::Background, color));
    lemma_said_where_given(style, StyleOp::Color(Colored::Border, color));
    lemma_said_where_given(style, StyleOp::Color(Colored::Text, color));
}

/// What two slots give is said in their order.
proof fn lemma_said_in_order(slots: Seq<Option<StyleOp>>, first: int, second: int) -> (places: (
    int,
    int,
))
    requires
        0 <= first < second < slots.len(),
        slots[first] is Some,
        slots[second] is Some,
    ensures
        ({
            let said = slots.filter_map(|op: Option<StyleOp>| op);
            &&& 0 <= places.0 < places.1 < said.len()
            &&& Some(said[places.0]) == slots[first]
            &&& Some(said[places.1]) == slots[second]
        }),
{
    let each = |op: Option<StyleOp>| op;
    lemma_mapped_place(slots, each, first);
    lemma_mapped_place(slots, each, second);
    lemma_mapped_in_order(slots, each, first, second);
    (
        slots.take(first).filter_map(each).len() as int,
        slots.take(second).filter_map(each).len() as int,
    )
}

/// A width is said after filling the whole, so that it counts.
pub proof fn widths_are_said_after_filling(style: Style, width: Scalar) -> (places: (int, int))
    requires
        style.size_full,
        style.w == Some(width),
    ensures
        0 <= places.0 < places.1 < style_ops(style).len(),
        style_ops(style)[places.0] == StyleOp::On(Flag::SizeFull),
        style_ops(style)[places.1] == StyleOp::Measure(Length::Width, width),
{
    lemma_said_in_order(style_slots(style), 4, 5)
}

/// A height is said after filling the whole, so that it counts.
pub proof fn heights_are_said_after_filling(style: Style, height: Scalar) -> (places: (int, int))
    requires
        style.size_full,
        style.h == Some(height),
    ensures
        0 <= places.0 < places.1 < style_ops(style).len(),
        style_ops(style)[places.0] == StyleOp::On(Flag::SizeFull),
        style_ops(style)[places.1] == StyleOp::Measure(Length::Height, height),
{
    lemma_said_in_order(style_slots(style), 4, 6)
}

/// The padding of one axis is said after that of both, so that it counts.
pub proof fn axis_paddings_are_said_after_padding(
    style: Style,
    padding: Scalar,
    axis: Scalar,
    across: bool,
) -> (places: (int, int))
    requires
        style.p == Some(padding),
        across ==> style.px == Some(axis),
        !across ==> style.py == Some(axis),
    ensures
        0 <= places.0 < places.1 < style_ops(style).len(),
        style_ops(style)[places.0] == StyleOp::Measure(Length::Padding, padding),
        across ==> style_ops(style)[places.1] == StyleOp::Measure(Length::PaddingX, axis),
        !across ==> style_ops(style)[places.1] == StyleOp::Measure(Length::PaddingY, axis),
{
    if across {
        lemma_said_in_order(style_slots(style), 7, 8)
    } else {
        lemma_said_in_order(style_slots(style), 7, 9)
    }
}

proof fn lemma_elements_in_order(nodes: Seq<Node>, i: int)
    requires
        0 <= i < nodes.len(),
    ensures
        elements_of(nodes).len() == nodes.len(),
        elements_of(nodes)[i] == element_of(nodes[i]),
    decreases nodes.len(),
{
    lemma_elements_counted(nodes);
    lemma_elements_counted(nodes.drop_last());
    if i < nodes.len() - 1 {
        lemma_elements_in_order(nodes.drop_last(), i);
    }
}

proof fn lemma_elements_counted(nodes: Seq<Node>)
    ensures
        elements_of(nodes).len() == nodes.len(),
    decreases nodes.len(),
{
    if nodes.len() > 0 {
        lemma_elements_counted(nodes.drop_last());
    }
}

proof fn lemma_models_in_order(elements: Seq<Element>, i: int)
    ensures
        element_models(elements).len() == elements.len(),
        0 <= i < elements.len() ==> element_models(elements)[i] == element_model(elements[i]),
    decreases elements.len(),
{
    if elements.len() > 0 {
        lemma_models_in_order(elements.drop_last(), i);
    }
}

/// A node becomes one element, with its looks and its click handler. A text node shows its
/// text, and nothing in it; any other node shows no text, but the nodes in it, one element each
/// and in order.
pub proof fn elements_show_their_nodes(node: Node, element: Element, i: int)
    requires
        element_model(element) == element_of(node),
    ensures
        element.styles@ == style_ops(node.style),
        element.on_click == node.on_click,
        node.kind@ == "text"@ ==> {
            &&& element.children@.len() == 0
            &&& element.text is Some <==> node.text is Some
            &&& node.text matches Some(text) ==> element.text->0@ == text@
        },
        node.kind@ != "text"@ ==> {
            &&& element.text is None
            &&& element.children@.len() == node.children@.len()
            &&& 0 <= i < node.children@.len() ==> element_model(element.children@[i])
                == element_of(node.children@[i])
        },
{
    lemma_models_in_order(element.children@, i);
    lemma_elements_counted(node.children@);
    if node.kind@ != "text"@ && 0 <= i < node.children@.len() {
        lemma_elements_in_order(node.children@, i);
    }
}

/// An element of a node that gives a width and a height is as wide as the one says and as high
/// as the other, wherever in the tree the node stands.
pub proof fn elements_are_sized_as_given(node: Node, element: Element, width: Scalar, height: Scalar)
    requires
        element_model(element) == element_of(node),
    ensures
        element.styles@.contains(StyleOp::Measure(Length::Width, width)) <==> node.style.w == Some(
            width,
        ),
        element.styles@.contains(StyleOp::Measure(Length::Height, height)) <==> node.style.h
            == Some(height),
{
    elements_show_their_nodes(node, element, 0);
    styles_say_what_they_give(node.style, width, 0);
    styles_say_what_they_give(node.style, height, 0);
}

} // verus!
