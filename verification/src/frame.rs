//! Everything that crosses the boundary about objects: the frames both ends speak, and
//! the flat records a transport carries them in.
//!
//! Calls and responses carry payloads with ref tables; subscribe and release are the two
//! operations constitutive of objecthood. Both directions are one FIFO of frames.

use vstd::prelude::*;


verus! {

/// Opaque bytes, plus the table of object ids that travel with them. Every capability in
/// transit is listed in `refs`, so whoever forwards a payload can enumerate them.
#[derive(Debug, PartialEq)]
pub struct Payload {
    pub bytes: Vec<u8>,
    pub refs: Vec<u64>,
}

/// What a [`Payload`] holds.
#[verifier::ext_equal]
pub struct PayloadModel {
    pub bytes: Seq<u8>,
    pub refs: Seq<u64>,
}

impl View for Payload {
    type V = PayloadModel;

    open spec fn view(&self) -> PayloadModel {
        PayloadModel { bytes: self.bytes@, refs: self.refs@ }
    }
}

/// A payload with no bytes and no refs.
pub open spec fn empty_payload() -> PayloadModel {
    PayloadModel { bytes: Seq::empty(), refs: Seq::empty() }
}

impl Payload {
    /// A payload with no bytes and no refs.
    pub fn empty() -> (payload: Payload)
        ensures
            payload@ == empty_payload(),
    {
        Payload { bytes: Vec::new(), refs: Vec::new() }
    }

    /// The payload made of these bytes and this ref table.
    pub fn from_parts(bytes: Vec<u8>, refs: Vec<u64>) -> (payload: Payload)
        ensures
            payload@ == (PayloadModel { bytes: bytes@, refs: refs@ }),
    {
        Payload { bytes, refs }
    }

    /// A payload with the same contents.
    pub fn duplicate(&self) -> (payload: Payload)
        ensures
            payload@ == self@,
    {
        let bytes = self.bytes.clone();
        let refs = self.refs.clone();
        assert(bytes@ =~= self.bytes@);
        assert(refs@ =~= self.refs@);
        Payload { bytes, refs }
    }
}

/// The outcome of a call: the payload returned, or why the call failed.
pub type Outcome = Result<Payload, String>;

/// What an [`Outcome`] holds.
pub type OutcomeModel = Result<PayloadModel, Seq<char>>;

/// What `outcome` holds.
pub open spec fn outcome_model(outcome: Outcome) -> OutcomeModel {
    match outcome {
        Ok(payload) => Ok(payload@),
        Err(error) => Err(error@),
    }
}

/// An outcome that holds the same.
pub fn duplicate_outcome(outcome: &Outcome) -> (copy: Outcome)
    ensures
        outcome_model(copy) == outcome_model(*outcome),
{
    match outcome {
        Ok(payload) => Ok(payload.duplicate()),
        Err(error) => Err(error.clone()),
    }
}

/// A method call toward a home on the other end.
#[derive(Debug, PartialEq)]
pub struct Call {
    pub target: u64,
    pub request: Option<u64>,
    pub method: String,
    pub payload: Payload,
    /// For a call whose response is a ref: the id the caller minted for the object that
    /// ref will name, so it can address the object before the response arrives. The home
    /// installs the returned object under this id too.
    pub promised: Option<u64>,
}

/// What a [`Call`] holds.
#[verifier::ext_equal]
pub struct CallModel {
    pub target: u64,
    pub request: Option<u64>,
    pub method: Seq<char>,
    pub payload: PayloadModel,
    pub promised: Option<u64>,
}

impl View for Call {
    type V = CallModel;

    open spec fn view(&self) -> CallModel {
        CallModel {
            target: self.target,
            request: self.request,
            method: self.method@,
            payload: self.payload@,
            promised: self.promised,
        }
    }
}

/// The answer to a [`Call`] that carried a `request` id.
#[derive(Debug, PartialEq)]
pub struct Response {
    pub request: u64,
    pub outcome: Outcome,
}

/// One message about objects, in either direction.
#[derive(Debug, PartialEq)]
pub enum Frame {
    Call(Call),
    Response(Response),
    Subscribe { target: u64, observer: u64 },
    Release { target: u64 },
}

/// What a [`Frame`] holds.
#[verifier::ext_equal]
pub enum FrameModel {
    Call(CallModel),
    Response { request: u64, outcome: OutcomeModel },
    Subscribe { target: u64, observer: u64 },
    Release { target: u64 },
}

impl View for Frame {
    type V = FrameModel;

    open spec fn view(&self) -> FrameModel {
        match *self {
            Frame::Call(call) => FrameModel::Call(call@),
            Frame::Response(response) => FrameModel::Response {
                request: response.request,
                outcome: outcome_model(response.outcome),
            },
            Frame::Subscribe { target, observer } => FrameModel::Subscribe { target, observer },
            Frame::Release { target } => FrameModel::Release { target },
        }
    }
}

impl FrameModel {
    /// The object a frame is addressed to; a response is addressed to a request instead.
    pub open spec fn target(self) -> Option<u64> {
        match self {
            FrameModel::Call(call) => Some(call.target),
            FrameModel::Response { .. } => None,
            FrameModel::Subscribe { target, .. } => Some(target),
            FrameModel::Release { target } => Some(target),
        }
    }
}

/// What a run of frames holds, in order.
pub open spec fn frame_models(frames: Seq<Frame>) -> Seq<FrameModel> {
    frames.map_values(|frame: Frame| frame@)
}

/// The record a transport carries a call in: the payload's two parts lie flat.
#[derive(Debug, PartialEq)]
pub struct WireCall {
    pub target: u64,
    pub request: Option<u64>,
    pub method: String,
    pub payload: Vec<u8>,
    pub refs: Vec<u64>,
    pub promised: Option<u64>,
}

/// The record a transport carries a response in. A failure has no ref table, so `refs`
/// belongs to the success alone.
#[derive(Debug, PartialEq)]
pub struct WireResponse {
    pub request: u64,
    pub outcome: Result<Vec<u8>, String>,
    pub refs: Vec<u64>,
}

/// The record a transport carries a subscription in.
#[derive(Debug, PartialEq)]
pub struct WireSubscribe {
    pub target: u64,
    pub observer: u64,
}

/// The record a transport carries a release in.
#[derive(Debug, PartialEq)]
pub struct WireRelease {
    pub target: u64,
}

/// A frame in the form a transport carries.
#[derive(Debug, PartialEq)]
pub enum WireFrame {
    Call(WireCall),
    Response(WireResponse),
    Subscribe(WireSubscribe),
    Release(WireRelease),
}

/// What a [`WireFrame`] holds.
#[verifier::ext_equal]
pub enum WireModel {
    Call {
        target: u64,
        request: Option<u64>,
        method: Seq<char>,
        payload: Seq<u8>,
        refs: Seq<u64>,
        promised: Option<u64>,
    },
    Response { answers: u64, outcome: Result<Seq<u8>, Seq<char>>, refs: Seq<u64> },
    Subscribe { target: u64, observer: u64 },
    Release { target: u64 },
}

impl View for WireFrame {
    type V = WireModel;

    open spec fn view(&self) -> WireModel {
        match *self {
            WireFrame::Call(call) => WireModel::Call {
                target: call.target,
                request: call.request,
                method: call.method@,
                payload: call.payload@,
                refs: call.refs@,
                promised: call.promised,
            },
            WireFrame::Response(response) => WireModel::Response {
                answers: response.request,
                outcome: match response.outcome {
                    Ok(bytes) => Ok(bytes@),
                    Err(error) => Err(error@),
                },
                refs: response.refs@,
            },
            WireFrame::Subscribe(subscribe) => WireModel::Subscribe {
                target: subscribe.target,
                observer: subscribe.observer,
            },
            WireFrame::Release(release) => WireModel::Release { target: release.target },
        }
    }
}

/// How a frame lies on the wire.
pub open spec fn to_wire(frame: FrameModel) -> WireModel {
    match frame {
        FrameModel::Call(call) => WireModel::Call {
            target: call.target,
            request: call.request,
            method: call.method,
            payload: call.payload.bytes,
            refs: call.payload.refs,
            promised: call.promised,
        },
        FrameModel::Response { request, outcome } => match outcome {
            Ok(payload) => WireModel::Response {
                answers: request,
                outcome: Ok(payload.bytes),
                refs: payload.refs,
            },
            Err(error) => WireModel::Response {
                answers: request,
                outcome: Err(error),
                refs: Seq::empty(),
            },
        },
        FrameModel::Subscribe { target, observer } => WireModel::Subscribe { target, observer },
        FrameModel::Release { target } => WireModel::Release { target },
    }
}

/// The frame a wire record carries.
pub open spec fn from_wire(wire: WireModel) -> FrameModel {
    match wire {
        WireModel::Call { target, request, method, payload, refs, promised } => FrameModel::Call(
            CallModel {
                target,
                request,
                method,
                payload: PayloadModel { bytes: payload, refs },
                promised,
            },
        ),
        WireModel::Response { answers, outcome, refs } => FrameModel::Response {
            request: answers,
            outcome: match outcome {
                Ok(bytes) => Ok(PayloadModel { bytes, refs }),
                Err(error) => Err(error),
            },
        },
        WireModel::Subscribe { target, observer } => FrameModel::Subscribe { target, observer },
        WireModel::Release { target } => FrameModel::Release { target },
    }
}

/// Lay a frame out for the transport.
pub fn frame_to_wire(frame: Frame) -> (wire: WireFrame)
    ensures
        wire@ == to_wire(frame@),
{
    match frame {
        Frame::Call(call) => WireFrame::Call(
            WireCall {
                target: call.target,
                request: call.request,
                method: call.method,
                payload: call.payload.bytes,
                refs: call.payload.refs,
                promised: call.promised,
            },
        ),
        Frame::Response(response) => match response.outcome {
            Ok(payload) => WireFrame::Response(
                WireResponse {
                    request: response.request,
                    outcome: Ok(payload.bytes),
                    refs: payload.refs,
                },
            ),
            Err(error) => WireFrame::Response(
                WireResponse { request: response.request, outcome: Err(error), refs: Vec::new() },
            ),
        },
        Frame::Subscribe { target, observer } => WireFrame::Subscribe(
            WireSubscribe { target, observer },
        ),
        Frame::Release { target } => WireFrame::Release(WireRelease { target }),
    }
}

/// Read a frame back from the transport's record.
pub fn frame_from_wire(wire: WireFrame) -> (frame: Frame)
    ensures
        frame@ == from_wire(wire@),
{
    match wire {
        WireFrame::Call(call) => Frame::Call(
            Call {
                target: call.target,
                request: call.request,
                method: call.method,
                payload: Payload::from_parts(call.payload, call.refs),
                promised: call.promised,
            },
        ),
        WireFrame::Response(response) => {
            let outcome = match response.outcome {
                Ok(bytes) => Ok(Payload::from_parts(bytes, response.refs)),
                Err(error) => Err(error),
            };
            Frame::Response(Response { request: response.request, outcome })
        },
        WireFrame::Subscribe(subscribe) => Frame::Subscribe {
            target: subscribe.target,
            observer: subscribe.observer,
        },
        WireFrame::Release(release) => Frame::Release { target: release.target },
    }
}

/// Whatever frame one end sends, the other end reads the same frame back.
pub proof fn wire_carries_every_frame(frame: FrameModel)
    ensures
        from_wire(to_wire(frame)) == frame,
{
}

/// A record read from the wire and laid out again is the same record, as long as a
/// failed response carries no refs. (A failure has no ref table, so refs beside one are
/// dropped.)
pub proof fn wire_records_are_canonical(wire: WireModel)
    requires
        wire matches WireModel::Response { outcome: Err(_), refs, .. } ==> refs.len() == 0,
    ensures
        to_wire(from_wire(wire)) == wire,
{
    if let WireModel::Response { outcome: Err(_), refs, .. } = wire {
        assert(refs =~= Seq::<u64>::empty());
    }
}

/// A frame holds its parts under their own names: what is said of a frame's model is said of
/// the frame.
pub proof fn frames_hold_what_they_say(frame: Frame)
    ensures
        match frame {
            Frame::Call(call) => frame@ matches FrameModel::Call(said) && {
                &&& said.target == call.target
                &&& said.request == call.request
                &&& said.method == call.method@
                &&& said.payload.bytes == call.payload.bytes@
                &&& said.payload.refs == call.payload.refs@
                &&& said.promised == call.promised
            },
            Frame::Response(response) => frame@ matches FrameModel::Response { request, outcome }
                && request == response.request && match response.outcome {
                Ok(payload) => outcome matches Ok(said) && said.bytes == payload.bytes@
                    && said.refs == payload.refs@,
                Err(error) => outcome matches Err(said) && said == error@,
            },
            Frame::Subscribe { target, observer } => frame@ == (FrameModel::Subscribe {
                target,
                observer,
            }),
            Frame::Release { target } => frame@ == (FrameModel::Release { target }),
        },
{
}

/// A record holds its parts under their own names: what is said of a record's model is said
/// of the record.
pub proof fn records_hold_what_they_say(wire: WireFrame)
    ensures
        match wire {
            WireFrame::Call(call) => wire@ == (WireModel::Call {
                target: call.target,
                request: call.request,
                method: call.method@,
                payload: call.payload@,
                refs: call.refs@,
                promised: call.promised,
            }),
            WireFrame::Response(response) => {
                &&& wire@ matches WireModel::Response { answers, outcome, refs }
                &&& answers == response.request
                &&& refs == response.refs@
                &&& match response.outcome {
                    Ok(bytes) => outcome == Ok::<Seq<u8>, Seq<char>>(bytes@),
                    Err(error) => outcome == Err::<Seq<u8>, Seq<char>>(error@),
                }
            },
            WireFrame::Subscribe(subscribe) => wire@ == (WireModel::Subscribe {
                target: subscribe.target,
                observer: subscribe.observer,
            }),
            WireFrame::Release(release) => wire@ == (WireModel::Release {
                target: release.target,
            }),
        },
{
}

/// Each part of a frame crosses under its own name: the record of a call has the call's
/// target, request, method, bytes, refs and promised id; that of a response its request and
/// outcome, with refs beside a success alone; that of a subscription tells the object from
/// its observer.
pub proof fn frames_cross_part_by_part(frame: FrameModel)
    ensures
        frame matches FrameModel::Call(call) ==> {
            &&& to_wire(frame) matches WireModel::Call {
                target,
                request,
                method,
                payload,
                refs,
                promised,
            }
            &&& target == call.target
            &&& request == call.request
            &&& method == call.method
            &&& payload == call.payload.bytes
            &&& refs == call.payload.refs
            &&& promised == call.promised
        },
        frame matches FrameModel::Response { request, outcome } ==> {
            &&& to_wire(frame) matches WireModel::Response { answers, outcome: crossed, refs }
            &&& answers == request
            &&& match outcome {
                Ok(payload) => crossed == Ok::<Seq<u8>, Seq<char>>(payload.bytes) && refs
                    == payload.refs,
                Err(error) => crossed == Err::<Seq<u8>, Seq<char>>(error) && refs.len() == 0,
            }
        },
        frame matches FrameModel::Subscribe { target, observer } ==> to_wire(frame) == (
        WireModel::Subscribe { target, observer }),
        frame matches FrameModel::Release { target } ==> to_wire(frame) == (WireModel::Release {
            target,
        }),
{
}

/// Calls, subscriptions and releases are addressed to their target; a response is addressed
/// to no object.
pub proof fn frames_are_addressed_to_their_target(frame: FrameModel)
    ensures
        frame matches FrameModel::Call(call) ==> frame.target() == Some(call.target),
        frame matches FrameModel::Subscribe { target, .. } ==> frame.target() == Some(target),
        frame matches FrameModel::Release { target } ==> frame.target() == Some(target),
        frame is Response <==> frame.target() is None,
{
}

} // verus!
