//! Frames on the wire.

use embedded_gpui::frame::{frame_from_wire, frame_to_wire, Call, Frame, Payload, Response, WireFrame};

fn call(target: u64) -> Frame {
    Frame::Call(Call {
        target,
        request: Some(7),
        method: "greet".to_string(),
        payload: Payload { bytes: vec![1, 2], refs: vec![9] },
        promised: Some(11),
    })
}

#[test]
fn a_call_lies_flat_on_the_wire() {
    match frame_to_wire(call(3)) {
        WireFrame::Call(wire) => {
            assert_eq!(wire.target, 3);
            assert_eq!(wire.request, Some(7));
            assert_eq!(wire.method, "greet");
            assert_eq!(wire.payload, vec![1, 2]);
            assert_eq!(wire.refs, vec![9]);
            assert_eq!(wire.promised, Some(11));
        }
        other => panic!("{other:?}"),
    }
}

#[test]
fn every_frame_survives_the_wire() {
    let frames = vec![
        call(0),
        Frame::Response(Response { request: 1, outcome: Ok(Payload { bytes: vec![5], refs: vec![6] }) }),
        Frame::Response(Response { request: 2, outcome: Err("no".to_string()) }),
        Frame::Subscribe { target: 4, observer: 5 },
        Frame::Release { target: 6 },
    ];
    let copies = vec![
        call(0),
        Frame::Response(Response { request: 1, outcome: Ok(Payload { bytes: vec![5], refs: vec![6] }) }),
        Frame::Response(Response { request: 2, outcome: Err("no".to_string()) }),
        Frame::Subscribe { target: 4, observer: 5 },
        Frame::Release { target: 6 },
    ];
    for (frame, copy) in frames.into_iter().zip(copies) {
        assert_eq!(frame_from_wire(frame_to_wire(frame)), copy);
    }
}
