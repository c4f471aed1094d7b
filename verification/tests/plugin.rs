//! A host, its worker, and the guest that draws on the host's surfaces.

use embedded_gpui::dispatcher::{wake_after_ms, PluginDispatcher};
use embedded_gpui::display_list::{
    square_corners, transparent_black, zero, BorderStyle, Bounds, DisplayList, Edges, Extent,
    HitRegion, PlacedPrimitive, Primitive, Quad, Scene, WirePoint,
};
use embedded_gpui::frame::{frame_to_wire, Frame, Payload};
use embedded_gpui::guest::{next_wake, pump, Guest, PumpStep};
use embedded_gpui::guest_platform::{PlaceStep, PluginPlatform, QueryStep, SurfaceEvent};
use embedded_gpui::guest_window::{PluginWindowState, WindowCallback};
use embedded_gpui::host::{turn_inbound, Applied, InputQueries, PluginHost, SURFACE_KIND};
use embedded_gpui::host_surface::{Surface, OVERLAY_PRIORITY};
use embedded_gpui::input_query::{InputAnswer, InputQuery};
use embedded_gpui::limits::{budget_ticks, DisplayListLimits, PluginOptions};
use embedded_gpui::model::{EntityToken, Handler};
use embedded_gpui::platform_types::{
    CursorStyle, PlatformButton, PlatformInput, PlatformModifiers, Scalar,
};
use embedded_gpui::registry::Delivery;
use embedded_gpui::surface::{Appearance, Cursor, Geometry, HostWindow, MouseEvent};
use embedded_gpui::table::Table;
use embedded_gpui::worker::{
    question_after, report_turn, PluginRequest, Question, ReportQueue, RequestQueue, Turn,
    TurnReport, WorkerStep,
};

fn pixels(value: f32) -> Scalar {
    Scalar { bits: value.to_bits() }
}

fn window(id: u64) -> HostWindow {
    HostWindow {
        id,
        width: pixels(900.0),
        height: pixels(700.0),
        scale_factor: pixels(2.0),
        active: true,
        appearance: Appearance::Dark,
    }
}

fn geometry(window_id: u64) -> Geometry {
    Geometry {
        x: pixels(10.0),
        y: pixels(20.0),
        width: pixels(200.0),
        height: pixels(100.0),
        window: window(window_id),
    }
}

fn square() -> Bounds {
    let origin = WirePoint { x: zero(), y: zero() };
    Bounds { origin, size: Extent { width: pixels(5.0), height: pixels(5.0) } }
}

fn quads(count: usize) -> DisplayList {
    let quad = || PlacedPrimitive {
        order: 0,
        prim: Primitive::Quad(Quad {
            bounds: square(),
            content_mask: square(),
            background: transparent_black(),
            border_color: transparent_black(),
            corner_radii: square_corners(),
            border_widths: Edges { top: zero(), right: zero(), bottom: zero(), left: zero() },
            border_style: BorderStyle::Solid,
        }),
    };
    DisplayList {
        primitives: (0..count).map(|_| quad()).collect(),
        new_images: Vec::new(),
        hit_regions: vec![HitRegion { bounds: square(), block_mouse: true }],
    }
}

fn surface_token(entity: u64) -> EntityToken {
    EntityToken { entity, kind: SURFACE_KIND }
}

fn no_modifiers() -> PlatformModifiers {
    PlatformModifiers { control: false, alt: false, shift: false, platform: false, function: false }
}

fn press(x: f32, y: f32) -> PlatformInput {
    PlatformInput::MouseDown {
        button: PlatformButton::Left,
        x: pixels(x),
        y: pixels(y),
        modifiers: no_modifiers(),
        click_count: 1,
        first_mouse: false,
    }
}

#[test]
fn an_opened_view_is_attached_by_its_ref() {
    let mut guest = Guest::new();
    let surface = guest.registry().connect_id(9, "SurfaceApi");
    let entity = EntityToken { entity: 2, kind: 2 };
    let (handle, unplaced) =
        guest.open_view_at(surface, 4713, 70, 31, entity, b"{}".to_vec(), 1);
    assert_eq!(unplaced, None);
    assert_eq!((handle.surface.id(), handle.view_object), (9, 4713));
    assert_eq!(guest.registry().local_entity(4713, 2, &Vec::new()), Some(entity));
    let sent = guest.registry().take_outbound();
    assert_eq!(sent.len(), 1);
    match &sent[0] {
        Frame::Call(call) => {
            assert_eq!((call.target, call.method.as_str()), (9, "attach"));
            assert_eq!(call.payload, Payload::from_parts(b"{}".to_vec(), vec![4713]));
        }
        other => panic!("{other:?}"),
    }
}

#[test]
fn test_views_are_objects() {
    let mut host = PluginHost::new(DisplayListLimits::default());
    let mut guest = Guest::new();
    let mut surface = Surface::new();
    let live = vec![surface_token(1)];
    let surface_id = host.share("SurfaceApi", 30, surface_token(1), false).unwrap();

    // The guest opens a view on the surface it was handed: its view object is attached.
    let view_entity = EntityToken { entity: 2, kind: 2 };
    let (handle, unplaced) =
        guest.open_view(surface_id, 70, 31, view_entity, b"{}".to_vec(), 1).unwrap();
    assert_eq!(unplaced, None);
    for frame in guest.take_turn(None).frames {
        match host.registry().deliver(embedded_gpui::frame::frame_from_wire(frame)) {
            Delivery::Dispatch { handler: Handler::Object(30), call } => {
                assert_eq!(call.method, "attach");
                let view = host.registry().connect_id(call.payload.refs[0], "ViewApi");
                let attached = surface.attach(view, true);
                assert_eq!(attached.resize, None, "nothing is laid out yet");
                assert!(attached.previous.is_none());
            }
            other => panic!("{other:?}"),
        }
    }
    let view_id = surface.view().unwrap().id();
    assert_eq!(view_id, handle.view_object);

    // Layout tells the view where it is, once for each change.
    assert_eq!(surface.measured(geometry(1)), Some(geometry(1)));
    assert_eq!(surface.measured(geometry(1)), None);
    guest.resize(surface_id, geometry(1));
    assert!(!surface.has_scene());
    let mut events = guest.platform().flush_events().into_iter();
    assert_eq!(
        events.next(),
        Some(SurfaceEvent::Resize { surface: surface_id, geometry: geometry(1) })
    );
    assert_eq!(guest.platform().place(surface_id, geometry(1)), PlaceStep::OpenWindow);
    assert_eq!(guest.platform().open_window(), Ok(1));
    assert_eq!(guest.platform().window_opened(1, 800), Ok(()));
    match guest.platform().place(surface_id, geometry(1)) {
        PlaceStep::Attach { due, handle: Some(800), unplaced: None, view: 70 } => {
            assert!(due.is_empty())
        }
        other => panic!("{other:?}"),
    }
    guest.platform().record_placement(surface_id, geometry(1), 4);

    // Its display list comes back to the surface it was handed.
    let items = guest.platform().ship_scenes();
    assert_eq!(items.len(), 1);
    assert_eq!((items[0].surface, items[0].root, items[0].window), (surface_id, 4, 1));
    guest.push_scene(surface_id, quads(1));
    guest.push_overlay(surface_id, quads(2));
    let turn = guest.take_turn(Some(33));
    assert_eq!(turn.wake_after_ms, Some(33));
    match host.apply_scenes(turn.scenes, turn.overlays, &live) {
        Applied::Drawn { scenes, overlays } => {
            for draw in scenes {
                assert_eq!(draw.surface, surface_token(1));
                surface.set_scene(draw.list);
            }
            for draw in overlays {
                surface.set_overlay(draw.list);
            }
        }
        other => panic!("{other:?}"),
    }
    assert!(surface.has_scene());
    let frame = surface.render(&Table::new());
    assert_eq!(frame.scene.unwrap().len(), 1);
    assert_eq!(frame.overlay.unwrap()[0].paints.len(), 2);
    assert_eq!(frame.regions.unwrap().len(), 1);
    assert_eq!(OVERLAY_PRIORITY, 1 << 20);

    // Input is a method call on the view; it lands in the window the view is drawn in.
    let event = surface.forward_mouse(&press(10.0, 10.0)).unwrap();
    guest.mouse(surface_id, event);
    for event in guest.platform().flush_events() {
        match event {
            SurfaceEvent::Input { surface, input } => {
                assert_eq!(input, press(10.0, 10.0));
                let target = guest.platform().dispatch_input(surface).unwrap();
                assert_eq!((target.window, target.origin.x), (1, pixels(10.0)));
                assert!(!guest.platform().window_input(1, &input), "nobody listens yet");
            }
            other => panic!("{other:?}"),
        }
    }

    // A cursor the framework set goes to the surface that got the input.
    guest.platform().set_cursor_style(CursorStyle::PointingHand);
    assert_eq!(
        guest.platform().take_pending_cursor(),
        Some((surface_id, Cursor::PointingHand))
    );
    assert_eq!(guest.platform().take_pending_cursor(), None);

    // The surface belongs to its owner: the view goes with it, and the window behind it.
    let unplaced = guest.close_view(handle).unwrap();
    assert_eq!((unplaced.handle, unplaced.root, unplaced.close_window), (Some(800), 4, true));
    assert!(guest.platform().dispatch_input(surface_id).is_none());
}

#[test]
fn a_guest_draws_only_where_it_was_handed_a_ref() {
    let mut host = PluginHost::new(DisplayListLimits::default());
    let id = host.share("SurfaceApi", 1, surface_token(1), false).unwrap();
    let other = host.share("CounterApi", 2, EntityToken { entity: 5, kind: 9 }, true).unwrap();
    let scenes = vec![
        Scene { surface: id, list: quads(1) },
        Scene { surface: 12345, list: quads(1) },
        Scene { surface: other, list: quads(1) },
    ];
    match host.apply_scenes(scenes, Vec::new(), &vec![surface_token(1)]) {
        Applied::Drawn { scenes, overlays } => {
            assert_eq!(scenes.len(), 1);
            assert_eq!(scenes[0].surface, surface_token(1));
            assert!(overlays.is_empty());
        }
        other => panic!("{other:?}"),
    }
    // A surface that was dropped is drawn on no more.
    match host.apply_scenes(vec![Scene { surface: id, list: quads(1) }], Vec::new(), &Vec::new()) {
        Applied::Drawn { scenes, .. } => assert!(scenes.is_empty()),
        other => panic!("{other:?}"),
    }
}

#[test]
fn test_turn_budget_stops_a_runaway_plugin() {
    let options = PluginOptions::new().with_turn_budget(200_000_000);
    assert_eq!(options.turn_deadline_ticks(), 20);
    let mut host = PluginHost::new(options.limits);
    let root = host.root("TestPlugin");
    host.registry().send(root.id(), "spin", Payload::empty(), Some(1), None);
    host.registry().send(root.id(), "ping_host", Payload::empty(), Some(2), None);
    host.flush_frames();
    let live = vec![surface_token(3)];
    host.share("SurfaceApi", 1, surface_token(3), false).unwrap();
    let reason = match report_turn(Err("epoch deadline reached".to_string())) {
        TurnReport::Stopped(reason) => reason,
        other => panic!("{other:?}"),
    };
    assert_eq!(reason, "plugin stopped: epoch deadline reached");
    assert!(host.stopped().is_none());
    let stopped = host.stop(&reason, &live).unwrap();
    let mut receipts: Vec<u64> = stopped.failed.iter().map(|call| call.receipt).collect();
    receipts.sort();
    assert_eq!(receipts, vec![1, 2]);
    assert!(stopped.failed.iter().all(|call| call.error == reason));
    assert_eq!(stopped.surfaces, live);
    assert_eq!(host.stopped(), Some(&reason));
    // It stopped for good, and for the first reason.
    assert_eq!(host.stop("again", &live), None);
    assert_eq!(host.stopped(), Some(&reason));
    let mut surface = Surface::new();
    surface.set_stopped(reason.clone());
    assert_eq!(surface.render(&Table::new()).stopped, Some(reason));
}

#[test]
fn a_list_over_a_cap_stops_the_plugin() {
    let limits = DisplayListLimits { max_primitives: 2, max_image_bytes: 100 };
    assert_eq!(limits.check(&quads(2)), Ok(()));
    assert!(limits.check(&quads(3)).is_err());
    let mut host = PluginHost::new(limits);
    let scenes = vec![Scene { surface: 1, list: quads(3) }];
    match host.apply_scenes(scenes, Vec::new(), &Vec::new()) {
        Applied::Stopped(Some(stopped)) => assert!(stopped.surfaces.is_empty()),
        other => panic!("{other:?}"),
    }
    assert!(host.stopped().unwrap().starts_with("plugin stopped: "));
    let mut images = quads(0);
    images.new_images.push(embedded_gpui::display_list::ImagePayload {
        id: 1,
        width: 1,
        height: 1,
        bytes: vec![0; 101],
    });
    assert!(limits.check(&images).is_err());
    images.new_images[0].bytes.pop();
    assert_eq!(limits.check(&images), Ok(()));
}

#[test]
fn options_have_defaults() {
    let options = PluginOptions::new();
    assert_eq!(options.turn_deadline_ticks(), 100);
    assert_eq!(options.query_deadline_ticks(), 5);
    assert_eq!(options.memory_limit, 512 * 1024 * 1024);
    let options = options
        .with_plugin_dir("/tmp/plugin".to_string())
        .with_input_query_budget(11_000_000)
        .with_limits(DisplayListLimits { max_primitives: 1, max_image_bytes: 2 })
        .with_memory_limit(1024);
    assert_eq!(options.plugin_dir.as_deref(), Some("/tmp/plugin"));
    assert_eq!(options.query_deadline_ticks(), 2);
    assert_eq!(options.limits.max_image_bytes, 2);
    assert_eq!(options.memory_limit, 1024);
    assert_eq!(budget_ticks(0), 1);
    assert_eq!(budget_ticks(10_000_000), 1);
    assert_eq!(budget_ticks(10_500_000), 2);
    assert_eq!(budget_ticks(11_000_000), 2);
    // A budget too long for the clock is as long as the clock goes.
    assert_eq!(budget_ticks(u64::MAX as u128 * 10_000_000), u64::MAX);
    assert_eq!(budget_ticks(u128::MAX), u64::MAX);
}

#[test]
fn a_burst_of_frames_is_one_turn() {
    let release = |target: u64| frame_to_wire(Frame::Release { target });
    let mut queue = RequestQueue::new();
    queue.push(PluginRequest::Init);
    queue.push(PluginRequest::Tick(vec![release(1)]));
    queue.push(PluginRequest::Tick(vec![release(2), release(3)]));
    queue.push(PluginRequest::Query { view: 4, query: InputQuery::TextLength, reply: 9 });
    queue.push(PluginRequest::Tick(Vec::new()));
    queue.push(PluginRequest::Query { view: 5, query: InputQuery::UnmarkText, reply: 10 });
    queue.push(PluginRequest::Query { view: 6, query: InputQuery::UnmarkText, reply: 11 });
    assert_eq!(queue.next_step(), Some(WorkerStep::Init));
    match queue.next_step().unwrap() {
        WorkerStep::Tick { inbound, then: Some(question) } => {
            assert_eq!(inbound, vec![release(1), release(2), release(3)]);
            assert_eq!((question.view, question.reply), (4, 9));
        }
        other => panic!("{other:?}"),
    }
    match queue.next_step().unwrap() {
        WorkerStep::Tick { inbound, then: Some(question) } => {
            assert!(inbound.is_empty());
            assert_eq!(question.view, 5);
        }
        other => panic!("{other:?}"),
    }
    match queue.next_step().unwrap() {
        WorkerStep::Ask(question) => assert_eq!(question.reply, 11),
        other => panic!("{other:?}"),
    }
    assert_eq!(queue.next_step(), None);
}

#[test]
fn a_turn_is_applied_as_it_is() {
    let turn = || Turn {
        frames: vec![frame_to_wire(Frame::Release { target: 1 })],
        scenes: Vec::new(),
        overlays: Vec::new(),
        wake_after_ms: Some(5),
    };
    assert_eq!(report_turn(Ok(turn())), TurnReport::Applied(turn()));
}

#[test]
fn pumping_makes_drops_observable() {
    let mut host = PluginHost::new(DisplayListLimits::default());
    assert_eq!(host.requests().next_step(), Some(WorkerStep::Init));
    let remote = host.registry().connect_id(77, "ItemApi");
    host.registry().drop_remote(remote);
    host.pump();
    match host.requests().next_step().unwrap() {
        WorkerStep::Tick { inbound, then: None } => {
            assert_eq!(inbound, vec![frame_to_wire(Frame::Release { target: 77 })]);
        }
        other => panic!("{other:?}"),
    }
    host.schedule_wake(Some(20));
    host.wake();
    assert_eq!(
        host.requests().next_step(),
        Some(WorkerStep::Tick { inbound: Vec::new(), then: None })
    );
}

#[test]
fn questions_are_followed_by_a_turn() {
    let mut host = PluginHost::new(DisplayListLimits::default());
    host.requests().next_step();
    let queries = InputQueries { timeout_ns: 50_000_000 };
    let mut pending = queries.send(&mut host, 3, InputQuery::TextLength, 8);
    assert_eq!(pending.reply(), 8);
    assert!(matches!(host.requests().next_step(), Some(WorkerStep::Ask(question))
        if question.view == 3 && question.reply == 8));
    assert!(matches!(host.requests().next_step(), Some(WorkerStep::Tick { .. })));
    assert_eq!(pending.try_take(), None);
    pending.arrive(Ok(InputAnswer::Index(4)));
    pending.arrive(Ok(InputAnswer::Index(5)));
    assert_eq!(pending.try_take(), Some(InputAnswer::Index(4)));
    assert_eq!(pending.try_take(), None);
    pending.arrive(Err("trapped".to_string()));
    assert_eq!(pending.try_take(), None);
}

#[test]
fn questions_do_not_overtake_frames() {
    let mut host = PluginHost::new(DisplayListLimits::default());
    assert_eq!(host.requests().next_step(), Some(WorkerStep::Init));
    let root = host.root("TestPlugin");
    host.registry().send(root.id(), "paste", Payload::empty(), None, None);
    host.send_query(3, InputQuery::TextLength, 8);
    match host.requests().next_step() {
        Some(WorkerStep::Tick { inbound, then: Some(question) }) => {
            assert_eq!(inbound.len(), 1);
            assert_eq!((question.view, question.reply), (3, 8));
        }
        other => panic!("{other:?}"),
    }
    // What the registry sent is always among the requests.
    host.registry().send(root.id(), "copy", Payload::empty(), None, None);
    host.enqueue(PluginRequest::Query { view: 4, query: InputQuery::TextLength, reply: 9 });
    match host.requests().next_step() {
        Some(WorkerStep::Tick { inbound, then: Some(question) }) => {
            assert_eq!((inbound.len(), question.view), (1, 4));
        }
        other => panic!("{other:?}"),
    }
}

#[test]
fn a_dead_guest_is_asked_nothing() {
    let turn = || Turn {
        frames: Vec::new(),
        scenes: Vec::new(),
        overlays: Vec::new(),
        wake_after_ms: None,
    };
    let question = || Some(Question { view: 1, query: InputQuery::TextLength, reply: 2 });
    let applied = report_turn(Ok(turn()));
    assert_eq!(question_after(&applied, question()), question());
    assert_eq!(question_after(&applied, None), None);
    let stopped = report_turn(Err("trapped".to_string()));
    assert_eq!(question_after(&stopped, question()), None);

    // The host takes what ran in order, and nothing behind the failure.
    let mut reports = ReportQueue::new();
    reports.push(applied);
    reports.push(report_turn(Err("trapped".to_string())));
    reports.push(report_turn(Ok(turn())));
    assert_eq!(reports.next_report(), Some(TurnReport::Applied(turn())));
    assert_eq!(
        reports.next_report(),
        Some(TurnReport::Stopped("plugin stopped: trapped".to_string()))
    );
    assert_eq!(reports.next_report(), None);

    // Nothing is left to do for a host that stopped.
    let mut host = PluginHost::new(DisplayListLimits::default());
    host.send_query(1, InputQuery::TextLength, 2);
    host.stop("plugin stopped: trapped", &Vec::new());
    assert_eq!(host.requests().next_step(), None);
    host.wake();
    assert_eq!(host.requests().next_step(), None);
    let root = host.root("TestPlugin");
    host.registry().send(root.id(), "ping", Payload::empty(), Some(1), None);
    host.schedule_wake(Some(5));
    host.pump();
    host.stop("again", &Vec::new());
    host.send_query(1, InputQuery::TextLength, 3);
    assert_eq!(host.requests().next_step(), None);
    assert_eq!(host.stopped().map(String::as_str), Some("plugin stopped: trapped"));
}

#[test]
fn turns_reach_the_registry_in_order() {
    let frames: Vec<Frame> = (1..4).map(|target| Frame::Release { target }).collect();
    let wire = (1..4).map(|target| frame_to_wire(Frame::Release { target })).collect();
    assert_eq!(turn_inbound(wire), frames);
}

#[test]
fn views_move_between_windows() {
    let mut platform = PluginPlatform::new();
    let (first, _) = platform.add_view(5, 50);
    platform.place(5, geometry(1));
    platform.open_window().unwrap();
    platform.window_opened(1, 801).unwrap();
    platform.place(5, geometry(1));
    platform.record_placement(5, geometry(1), 11);
    // The same place again only moves the root.
    match platform.place(5, geometry(1)) {
        PlaceStep::Move { root: 11, .. } => {}
        other => panic!("{other:?}"),
    }
    // Another host window: the root leaves the first mirror, which closes with it.
    assert_eq!(platform.place(5, geometry(2)), PlaceStep::OpenWindow);
    platform.open_window().unwrap();
    platform.window_opened(2, 802).unwrap();
    match platform.place(5, geometry(2)) {
        PlaceStep::Attach { handle, unplaced: Some(unplaced), view, .. } => {
            assert_eq!((handle, view), (Some(802), 50));
            assert_eq!((unplaced.handle, unplaced.root), (Some(801), 11));
            assert!(unplaced.close_window);
        }
        other => panic!("{other:?}"),
    }
    platform.record_placement(5, geometry(2), 12);
    platform.window_closed(1);
    let mut open = platform.windows();
    open.sort();
    assert_eq!(open, vec![2]);

    // A late release of an older registration leaves the new one.
    let (second, unplaced) = platform.add_view(5, 51);
    assert_ne!(first, second);
    assert_eq!(unplaced.unwrap().root, 12);
    assert_eq!(platform.remove_view(5, first), None);
    // The mirror closed with its last root, so the new view opens it again.
    assert_eq!(platform.place(5, geometry(2)), PlaceStep::OpenWindow);
    platform.open_window().unwrap();
    platform.window_opened(2, 803).unwrap();
    assert!(matches!(
        platform.place(5, geometry(2)),
        PlaceStep::Attach { view: 51, handle: Some(803), unplaced: None, .. }
    ));
    // Nothing is placed that nobody draws.
    assert_eq!(platform.place(6, geometry(2)), PlaceStep::Skip);
}

#[test]
fn windows_are_opened_for_host_windows_only() {
    let mut platform = PluginPlatform::new();
    assert_eq!(
        platform.open_window(),
        Err("plugin windows mirror host windows; views are opened with embedded_gpui::open_view"
            .to_string())
    );
    assert_eq!(
        platform.window_opened(1, 2),
        Err("open_window did not create the guest window".to_string())
    );
}

#[test]
fn questions_find_the_window_of_their_view() {
    let mut platform = PluginPlatform::new();
    assert_eq!(
        platform.input_query(90, InputQuery::TextLength),
        QueryStep::Answer(InputAnswer::Nothing)
    );
    platform.add_view(5, 50);
    platform.bind_view_object(90, 5);
    platform.place(5, geometry(1));
    platform.open_window().unwrap();
    platform.window_opened(1, 801).unwrap();
    platform.place(5, geometry(1));
    platform.record_placement(5, geometry(1), 11);
    // The window has no focused text field.
    assert_eq!(
        platform.input_query(90, InputQuery::MarkedTextRange),
        QueryStep::Answer(InputAnswer::Nothing)
    );
    platform.unbind_view_object(90);
    assert_eq!(
        platform.input_query(90, InputQuery::MarkedTextRange),
        QueryStep::Answer(InputAnswer::Nothing)
    );
}

#[test]
fn windows_follow_their_host() {
    let mut mirror = PluginWindowState::new(window(4));
    assert_eq!(mirror.host_id(), 4);
    mirror.callbacks.resize = true;
    mirror.callbacks.active = true;
    mirror.callbacks.appearance = true;
    mirror.callbacks.request_frame = true;
    assert!(mirror.sync_host(window(4)).is_empty());
    let changed = HostWindow {
        width: pixels(901.0),
        active: false,
        appearance: Appearance::Light,
        ..window(4)
    };
    assert_eq!(
        mirror.sync_host(changed),
        vec![
            WindowCallback::Resize {
                width: pixels(901.0),
                height: pixels(700.0),
                scale_factor: pixels(2.0),
            },
            WindowCallback::Active(false),
            WindowCallback::Appearance,
        ]
    );
    assert!(mirror.sync_host(changed).is_empty());
    assert!(mirror.pump_frame());
    mirror.callbacks.input = true;
    assert!(mirror.dispatch_input(&press(1.0, 2.0)));
    assert_eq!(mirror.mouse_position.x, pixels(1.0));
    assert!(mirror.hovered);
    mirror.close();
    assert!(mirror.is_closed());
    assert!(!mirror.pump_frame());
    assert!(!mirror.dispatch_input(&press(1.0, 2.0)));
    assert!(mirror.sync_host(window(4)).is_empty());
}

#[test]
fn timers_run_when_they_are_due() {
    let mut dispatcher = PluginDispatcher::new();
    assert_eq!(dispatcher.next_timer_delay(0), None);
    dispatcher.dispatch(1);
    dispatcher.dispatch(2);
    dispatcher.dispatch_after(0, 30_000_000, 3);
    dispatcher.dispatch_after(0, 10_000_000, 4);
    dispatcher.dispatch_after(5, 10_000_000, 5);
    let pass = dispatcher.run_until_idle(0);
    assert_eq!((pass.due_timers, pass.runnable), (vec![], Some(1)));
    let pass = dispatcher.run_until_idle(20_000_000);
    assert_eq!((pass.due_timers, pass.runnable), (vec![4, 5], Some(2)));
    assert_eq!(dispatcher.next_timer_delay(20_000_000), Some(10_000_000));
    assert_eq!(next_wake(&dispatcher, 20_000_000), wake_after_ms(Some(10_000_000)));
    let pass = dispatcher.run_until_idle(40_000_000);
    assert_eq!((pass.due_timers, pass.runnable), (vec![3], None));
    let pass = dispatcher.run_until_idle(40_000_000);
    assert!(pass.due_timers.is_empty() && pass.runnable.is_none());
}

#[test]
fn a_surface_gives_its_view_the_last_geometry() {
    let mut host = PluginHost::new(DisplayListLimits::default());
    let mut surface = Surface::new();
    assert_eq!(surface.measured(geometry(1)), None, "there is no view to tell");
    let first = host.registry().connect_id(60, "ViewApi");
    let attached = surface.attach(first, false);
    assert_eq!(attached.resize, Some(geometry(1)));
    let second = host.registry().connect_id(61, "ViewApi");
    let attached = surface.attach(second, true);
    assert_eq!(attached.previous.unwrap().id(), 60);
    assert_eq!(surface.query(), Some(61));
    surface.set_cursor(Cursor::IBeam);
    assert_eq!(surface.render(&Table::new()).cursor, Some(CursorStyle::IBeam));
    let event = surface.forward_mouse(&press(3.0, 4.0)).unwrap();
    assert!(matches!(event, MouseEvent::Down(_)));
}

#[test]
fn turns_flush_releases_first_and_last() {
    let steps = pump(true);
    assert_eq!(steps.first(), Some(&PumpStep::DrainReleases));
    assert_eq!(steps.last(), Some(&PumpStep::DrainReleases));
    let at = |step: PumpStep| steps.iter().position(|other| *other == step).unwrap();
    assert!(at(PumpStep::FlushEvents) < at(PumpStep::RunUntilIdle));
    assert!(at(PumpStep::PumpFrames) < at(PumpStep::ShipScenes));
    assert_eq!(steps[at(PumpStep::PumpFrames) + 1], PumpStep::RunUntilIdle);
    assert!(!pump(false).contains(&PumpStep::ShipScenes));
}

#[test]
fn views_are_told_when_the_pointer_leaves() {
    let mut host = PluginHost::new(DisplayListLimits::default());
    let mut surface = Surface::new();
    assert_eq!(surface.hover_changed(false, zero(), zero(), no_modifiers()), None);
    let view = host.registry().connect_id(60, "ViewApi");
    surface.attach(view, false);
    assert_eq!(surface.hover_changed(true, zero(), zero(), no_modifiers()), None);
    match surface.hover_changed(false, pixels(9.0), zero(), no_modifiers()) {
        Some(MouseEvent::Exited(event)) => {
            assert_eq!(event.position.x, pixels(9.0));
            assert_eq!(event.pressed_button, None);
        }
        other => panic!("{other:?}"),
    }
}
