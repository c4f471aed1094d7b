//! The script runtime.

use embedded_gpui::frame::{Call, Frame, Payload};
use embedded_gpui::js::{
    entry_point, error_text, parse_color, parse_id, parse_ids, ref_strings, reload_reason,
    should_reload, JsRoot, JsStep, Op, Settlement,
};
use embedded_gpui::platform_types::Scalar;
use embedded_gpui::registry::Objects;
use embedded_gpui::ui_tree::{
    render_node, style_operations, Colored, Flag, Length, Node, Style, StyleOp,
};

fn json(text: &str, refs: Vec<u64>) -> Payload {
    Payload::from_parts(text.as_bytes().to_vec(), refs)
}

fn no_style() -> Style {
    Style {
        flex: false,
        flex_col: false,
        items_center: false,
        justify_center: false,
        size_full: false,
        w: None,
        h: None,
        p: None,
        px: None,
        py: None,
        gap: None,
        rounded: None,
        border: None,
        bg: None,
        border_color: None,
        text_color: None,
        text_size: None,
    }
}

#[test]
fn a_call_that_cannot_be_put_fails_with_the_error() {
    let mut root = JsRoot::new();
    let mut objects = Objects::new();
    let call = root.dispatch_to_js("greet", &json("{}", Vec::new()), 40);
    // The script answers, and then throws: the error is what counts, once.
    root.respond(call.request, "\"hello\"".to_string(), &Vec::new(), false);
    assert_eq!(
        root.dispatch_failed(call.request, "it threw".to_string()),
        JsStep::Settle { receipt: 40, outcome: Err("it threw".to_string()) }
    );
    for op in root.take_ops() {
        assert_eq!(root.apply_op(op, 0, &mut objects), JsStep::Nothing);
    }
    assert_eq!(root.dispatch_failed(call.request, "again".to_string()), JsStep::Nothing);
    // It is remembered all the same, and failing to replay it concerns nobody.
    assert!(root.load().failed.is_empty());
    let replayed = root.evaluated(None).calls;
    assert_eq!(replayed.len(), 1);
    assert_eq!(
        root.dispatch_failed(replayed[0].request, "it threw".to_string()),
        JsStep::Nothing
    );
    assert_eq!(root.dispatch_failed(9, "nobody asked".to_string()), JsStep::Nothing);
}

#[test]
fn test_script_answers_calls() {
    let mut root = JsRoot::new();
    let mut objects = Objects::new();
    // A call of the host is put to the script, which answers it.
    let call = root.dispatch_to_js("greet", &json("{\"name\":\"gpui\"}", Vec::new()), 40);
    assert_eq!(call.request, 1);
    assert_eq!((call.method.as_str(), call.json.as_str()), ("greet", "{\"name\":\"gpui\"}"));
    root.respond(1, "\"hello, gpui\"".to_string(), &Vec::new(), false);
    let ops = root.take_ops();
    assert_eq!(ops.len(), 1);
    for op in ops {
        assert_eq!(
            root.apply_op(op, 0, &mut objects),
            JsStep::Settle { receipt: 40, outcome: Ok(json("\"hello, gpui\"", Vec::new())) }
        );
    }
    // A further answer to the same call finds nobody waiting.
    root.respond(1, "null".to_string(), &Vec::new(), false);
    for op in root.take_ops() {
        assert_eq!(root.apply_op(op, 0, &mut objects), JsStep::Nothing);
    }
    // The script's error is a failed call: the string it encoded, or what it sent.
    root.dispatch_to_js("nonsense", &json("{}", Vec::new()), 41);
    root.respond(2, "\"no method nonsense\"".to_string(), &Vec::new(), true);
    root.dispatch_to_js("nonsense", &json("{}", Vec::new()), 42);
    root.respond(3, "{not json".to_string(), &Vec::new(), true);
    let steps: Vec<JsStep> = root
        .take_ops()
        .into_iter()
        .map(|op| root.apply_op(op, 0, &mut objects))
        .collect();
    assert_eq!(
        steps,
        vec![
            JsStep::Settle { receipt: 41, outcome: Err("no method nonsense".to_string()) },
            JsStep::Settle { receipt: 42, outcome: Err("{not json".to_string()) },
        ]
    );
}

#[test]
fn test_refs_cross_into_and_out_of_javascript() {
    let mut root = JsRoot::new();
    let mut objects = Objects::new();
    let id = u64::MAX - 1;
    let call = root.dispatch_to_js("relay", &json("{\"target\":{\"$ref\":0}}", vec![id]), 1);
    assert_eq!(call.refs, vec!["18446744073709551614".to_string()]);
    // The script calls through the ref, and hands it back.
    root.call(&call.refs[0], "ping".to_string(), "\"via js\"".to_string(), &call.refs, 10, 11);
    for op in root.take_ops() {
        assert_eq!(
            root.apply_op(op, 77, &mut objects),
            JsStep::AwaitCall { resolve: 10, reject: 11 }
        );
    }
    match objects.take_outbound().pop() {
        Some(Frame::Call(Call { target, method, payload, .. })) => {
            assert_eq!((target, method.as_str()), (id, "ping"));
            assert_eq!(payload, json("\"via js\"", vec![id]));
        }
        other => panic!("{other:?}"),
    }
    assert_eq!(
        JsRoot::settle(Ok(json("\"pong\"", vec![7]))),
        Settlement::Resolve { json: "\"pong\"".to_string(), refs: vec!["7".to_string()] }
    );
    match JsRoot::settle(Err("gone".to_string())) {
        Settlement::Reject(reason) => assert!(reason.contains("gone")),
        other => panic!("{other:?}"),
    }
}

#[test]
fn test_script_renders_a_view_and_receives_input() {
    let mut root = JsRoot::new();
    let mut objects = Objects::new();
    let key = root.open_view("12");
    assert_eq!(key, 1);
    root.render(key, "{}".to_string());
    let mut ops = root.take_ops().into_iter();
    assert_eq!(
        root.apply_op(ops.next().unwrap(), 0, &mut objects),
        JsStep::OpenView { surface: 12, key: 1 }
    );
    root.view_opened(1, 500);
    assert_eq!(
        root.apply_op(ops.next().unwrap(), 0, &mut objects),
        JsStep::Render { view: 500, tree: "{}".to_string() }
    );
    // Nothing is rendered into a view that is not there.
    root.render(9, "{}".to_string());
    for op in root.take_ops() {
        assert_eq!(root.apply_op(op, 0, &mut objects), JsStep::Nothing);
    }
    root.observe("12", 33);
    root.observe("12", 34);
    let ops = root.take_ops();
    assert_eq!(ops[0], Op::Observe { target: 12, callback: 33 });
    let steps: Vec<JsStep> =
        ops.into_iter().map(|op| root.apply_op(op, 0, &mut objects)).collect();
    assert_eq!(
        steps,
        vec![
            JsStep::Observe { signal: 12, callback: 33 },
            JsStep::Observe { signal: 12, callback: 34 },
        ]
    );
    // The object is asked for its notifies once.
    let sent = objects.take_outbound();
    assert!(matches!(sent[..], [Frame::Subscribe { target: 12, .. }]));
}

#[test]
fn test_reload_starts_clean() {
    let mut root = JsRoot::new();
    let mut objects = Objects::new();
    root.dispatch_to_js("mount", &json("{}", vec![3]), 60);
    root.open_view("3");
    root.take_ops();
    root.view_opened(1, 600);
    root.call("3", "ping".to_string(), "null".to_string(), &Vec::new(), 1, 2);
    for op in root.take_ops() {
        root.apply_op(op, 5, &mut objects);
    }
    let teardown = root.load();
    assert_eq!(teardown.views, vec![600]);
    assert_eq!(teardown.failed, vec![60]);
    assert_eq!(teardown.remotes.len(), 1);
    assert_eq!(teardown.remotes[0].id(), 3);
    assert_eq!(reload_reason(), "the script was reloaded");
    // The host's calls are put to the new script again, in order, under requests of its own.
    assert!(root.can_dispatch() && root.can_open_view());
    let replayed = root.replay();
    assert_eq!(replayed.len(), 1);
    assert_eq!((replayed[0].request, replayed[0].method.as_str()), (1, "mount"));
    assert_eq!(replayed[0].refs, vec!["3".to_string()]);
    // Nobody waits for the replayed ones.
    root.respond(1, "null".to_string(), &Vec::new(), false);
    for op in root.take_ops() {
        assert_eq!(root.apply_op(op, 0, &mut objects), JsStep::Nothing);
    }
    // The first view of the new script is its first view.
    assert_eq!(root.open_view("3"), 1);
    assert!(root.load().failed.is_empty());
    // A script that fails is replayed nothing, and the history is still the host's one call.
    assert!(root.can_replay());
    let failed = root.evaluated(Some("SyntaxError".to_string()));
    assert_eq!(failed.error.as_deref(), Some("SyntaxError"));
    assert!(failed.calls.is_empty());
    root.load();
    let loaded = root.evaluated(None);
    assert_eq!(loaded.error, None);
    assert_eq!(loaded.calls.len(), 1);
    assert_eq!((loaded.calls[0].request, loaded.calls[0].method.as_str()), (1, "mount"));
}

#[test]
fn payloads_that_are_not_text_are_shown_as_far_as_they_are() {
    let mut root = JsRoot::new();
    let call = root.dispatch_to_js("raw", &Payload::from_parts(vec![b'"', 0xff, b'"'], Vec::new()), 1);
    assert_eq!(call.json, "\"\u{fffd}\"");
}

#[test]
fn ids_travel_as_text() {
    assert_eq!(parse_id("18446744073709551615"), u64::MAX);
    assert_eq!(parse_id("+7"), 7);
    assert_eq!(parse_id("18446744073709551616"), 0);
    assert_eq!(parse_id("twelve"), 0);
    assert_eq!(parse_id(""), 0);
    assert_eq!(parse_ids(&vec!["1".to_string(), "x".to_string()]), vec![1, 0]);
    assert_eq!(ref_strings(&vec![0, 1234567890123456789]), vec!["0", "1234567890123456789"]);
}

#[test]
fn colors_are_read_with_or_without_hashes() {
    assert_eq!(parse_color("#2d5a88"), Some(0x2d5a88));
    assert_eq!(parse_color("2D5A88"), Some(0x2d5a88));
    assert_eq!(parse_color("##ff"), Some(0xff));
    assert_eq!(parse_color("#"), None);
    assert_eq!(parse_color("red"), None);
    assert_eq!(parse_color("1ffffffff"), None);
}

#[test]
fn scripts_reload_when_they_change() {
    assert_eq!(entry_point(), "/plugin/index.js");
    assert!(!should_reload(None, Some(1)));
    assert!(should_reload(Some(1), None));
    assert!(!should_reload(Some(1), Some(1)));
    assert!(should_reload(Some(2), Some(1)));
    assert_eq!(error_text(Some("a".to_string()), "\"a\"".to_string()), "a");
    assert_eq!(error_text(None, "raw".to_string()), "raw");
}

#[test]
fn styles_apply_in_order() {
    let eight = Scalar { bits: 0x4100_0000 };
    let style = Style {
        text_size: Some(eight),
        bg: Some("#112233".to_string()),
        text_color: Some("no color".to_string()),
        p: Some(eight),
        size_full: true,
        flex: true,
        ..no_style()
    };
    assert_eq!(
        style_operations(&style),
        vec![
            StyleOp::On(Flag::Flex),
            StyleOp::On(Flag::SizeFull),
            StyleOp::Measure(Length::Padding, eight),
            StyleOp::Color(Colored::Background, 0x112233),
            StyleOp::Measure(Length::TextSize, eight),
        ]
    );
    assert!(style_operations(&no_style()).is_empty());
}

#[test]
fn trees_become_elements() {
    let text = |content: &str| Node {
        kind: "text".to_string(),
        style: no_style(),
        children: Vec::new(),
        text: Some(content.to_string()),
        on_click: None,
    };
    let element = render_node(&Node {
        kind: "div".to_string(),
        style: Style { flex: true, ..no_style() },
        children: vec![text("clicks"), text("3")],
        text: None,
        on_click: Some(4),
    });
    assert_eq!(element.styles, vec![StyleOp::On(Flag::Flex)]);
    assert_eq!(element.on_click, Some(4));
    assert_eq!(element.text, None);
    let texts: Vec<Option<&str>> = element.children.iter().map(|c| c.text.as_deref()).collect();
    assert_eq!(texts, vec![Some("clicks"), Some("3")]);
}
