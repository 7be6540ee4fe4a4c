//! The messages of the control channel.
//!
//! A control datagram is one [`Frame`]; the payload of a data frame is a piece of one
//! encoded [`CtrlMsg`]. Pressures and scroll distances are carried as the bits of their
//! 32-bit floating-point numbers.
use vstd::prelude::*;

verus! {

/// The streams of the control port.
#[derive(Debug, Clone, Copy, PartialEq, Eq, Structural)]
pub enum Stream {
    Ctrl,
}

/// The kinds of control frame.
#[derive(Debug, Clone, Copy, PartialEq, Eq, Structural)]
pub enum FrameKind {
    Hello,
    HelloAck,
    Data,
    Ack,
    Heartbeat,
    Bye,
}

/// The greeting that opens a session.
#[derive(Debug, Clone, PartialEq, Eq)]
pub struct Hello {
    pub scid: String,
    /// Whether the phone shall start capturing audio at once.
    pub audio: bool,
}

/// The phone's answer to the greeting.
#[derive(Debug, Clone, PartialEq, Eq)]
pub struct HelloAck {
    /// The identifier that the phone gave this client; media datagrams carry it.
    pub client_id: u32,
    pub scid: String,
    pub audio_codec: u32,
    pub video_codec: u32,
}

/// What a control frame carries.
#[derive(Debug, Clone, PartialEq, Eq)]
pub enum Payload {
    Data(Vec<u8>),
    AckSeq(u32),
    Hello(Hello),
    HelloAck(HelloAck),
}

/// One control datagram. A stream or kind that this protocol does not know is `None`.
#[derive(Debug, Clone, PartialEq, Eq)]
pub struct Frame {
    pub stream: Option<Stream>,
    pub kind: Option<FrameKind>,
    pub seq: u32,
    pub msg_id: u32,
    pub frag: u32,
    pub frag_total: u32,
    pub payload: Option<Payload>,
}

/// What a frame's payload says.
#[verifier::ext_equal]
pub enum PayloadView {
    Data(Seq<u8>),
    AckSeq(u32),
    Hello { scid: Seq<char>, audio: bool },
    HelloAck { client_id: u32, scid: Seq<char>, audio_codec: u32, video_codec: u32 },
}

/// What a frame says.
#[verifier::ext_equal]
pub struct FrameView {
    pub stream: Option<Stream>,
    pub kind: Option<FrameKind>,
    pub seq: u32,
    pub msg_id: u32,
    pub frag: u32,
    pub frag_total: u32,
    pub payload: Option<PayloadView>,
}

impl View for HelloAck {
    type V = PayloadView;

    open spec fn view(&self) -> PayloadView {
        PayloadView::HelloAck {
            client_id: self.client_id,
            scid: self.scid@,
            audio_codec: self.audio_codec,
            video_codec: self.video_codec,
        }
    }
}

impl View for Payload {
    type V = PayloadView;

    open spec fn view(&self) -> PayloadView {
        match self {
            Payload::Data(d) => PayloadView::Data(d@),
            Payload::AckSeq(a) => PayloadView::AckSeq(*a),
            Payload::Hello(h) => PayloadView::Hello { scid: h.scid@, audio: h.audio },
            Payload::HelloAck(h) => h@,
        }
    }
}

impl View for Frame {
    type V = FrameView;

    open spec fn view(&self) -> FrameView {
        FrameView {
            stream: self.stream,
            kind: self.kind,
            seq: self.seq,
            msg_id: self.msg_id,
            frag: self.frag,
            frag_total: self.frag_total,
            payload: match self.payload {
                Some(p) => Some(p@),
                None => None,
            },
        }
    }
}

/// The frames that a list holds.
pub open spec fn frame_views(fs: Seq<Frame>) -> Seq<FrameView> {
    fs.map_values(|f: Frame| f@)
}

impl HelloAck {
    /// A copy that says the same.
    pub fn duplicate(&self) -> (r: HelloAck)
        ensures
            r@ == self@,
    {
        HelloAck {
            client_id: self.client_id,
            scid: self.scid.clone(),
            audio_codec: self.audio_codec,
            video_codec: self.video_codec,
        }
    }
}

impl Payload {
    /// A copy that says the same.
    pub fn duplicate(&self) -> (r: Payload)
        ensures
            r@ == self@,
    {
        match self {
            Payload::Data(d) => Payload::Data(crate::wire::copy_bytes(d.as_slice())),
            Payload::AckSeq(a) => Payload::AckSeq(*a),
            Payload::Hello(h) => Payload::Hello(Hello { scid: h.scid.clone(), audio: h.audio }),
            Payload::HelloAck(h) => Payload::HelloAck(h.duplicate()),
        }
    }
}

impl Frame {
    /// A copy that says the same.
    pub fn duplicate(&self) -> (r: Frame)
        ensures
            r@ == self@,
    {
        Frame {
            stream: self.stream,
            kind: self.kind,
            seq: self.seq,
            msg_id: self.msg_id,
            frag: self.frag,
            frag_total: self.frag_total,
            payload: match &self.payload {
                Some(p) => Some(p.duplicate()),
                None => None,
            },
        }
    }
}

#[derive(Debug, Clone, Copy, PartialEq, Eq, Structural)]
pub struct InjectKeycode {
    pub display_id: u32,
    pub action: u32,
    pub keycode: u32,
    pub repeat: u32,
    pub meta_state: u32,
}

#[derive(Debug, Clone, PartialEq, Eq)]
pub struct InjectText {
    pub display_id: u32,
    pub text: String,
}

#[derive(Debug, Clone, Copy, PartialEq, Eq, Structural)]
pub struct InjectTouch {
    pub display_id: u32,
    pub action: u32,
    pub pointer_id: u64,
    pub x: i32,
    pub y: i32,
    pub screen_width: u32,
    pub screen_height: u32,
    /// The bits of the pressure.
    pub pressure: u32,
    pub action_button: u32,
    pub buttons: u32,
}

#[derive(Debug, Clone, Copy, PartialEq, Eq, Structural)]
pub struct InjectScroll {
    pub display_id: u32,
    pub x: i32,
    pub y: i32,
    pub screen_width: u32,
    pub screen_height: u32,
    /// The bits of the horizontal distance.
    pub hscroll: u32,
    /// The bits of the vertical distance.
    pub vscroll: u32,
    pub buttons: u32,
}

#[derive(Debug, Clone, Copy, PartialEq, Eq, Structural)]
pub struct BackOrScreenOn {
    pub display_id: u32,
    pub action: u32,
}

#[derive(Debug, Clone, PartialEq, Eq)]
pub struct SetClipboard {
    pub sequence: u64,
    pub paste: bool,
    pub text: String,
}

#[derive(Debug, Clone, PartialEq, Eq)]
pub struct StartApp {
    pub display_id: u32,
    pub package: String,
}

#[derive(Debug, Clone, Copy, PartialEq, Eq, Structural)]
pub struct ResizeDisplay {
    pub display_id: u32,
    pub width: u32,
    pub height: u32,
}

#[derive(Debug, Clone, Copy, PartialEq, Eq, Structural)]
pub struct CreateDisplay {
    pub width: u32,
    pub height: u32,
    pub dpi: u32,
}

#[derive(Debug, Clone, Copy, PartialEq, Eq, Structural)]
pub struct SetAudio {
    pub enabled: bool,
    /// 0 raw, 1 opus, 2 aac, 3 flac.
    pub codec: u32,
    pub revision: u64,
}

#[derive(Debug, Clone, PartialEq, Eq)]
pub struct ClipboardChanged {
    pub text: String,
}

/// The codec parameters of a stream, which travel reliably.
#[derive(Debug, Clone, PartialEq, Eq)]
pub struct MediaConfig {
    pub stream: u32,
    pub revision: u64,
    pub data: Vec<u8>,
}

/// The phone's report on a change of its audio capture.
#[derive(Debug, Clone, PartialEq, Eq)]
pub struct AudioState {
    pub revision: u64,
    pub enabled: bool,
    pub codec_id: u32,
    /// Empty where the change succeeded.
    pub error: String,
}

#[derive(Debug, Clone, Copy, PartialEq, Eq, Structural)]
pub struct DisplayReady {
    pub display_id: u32,
    pub codec_id: u32,
    pub width: u32,
    pub height: u32,
    pub dpi: u32,
}

/// The control messages in both directions.
#[derive(Debug, Clone, PartialEq, Eq)]
pub enum Msg {
    InjectKeycode(InjectKeycode),
    InjectText(InjectText),
    InjectTouch(InjectTouch),
    InjectScroll(InjectScroll),
    BackOrScreenOn(BackOrScreenOn),
    SetClipboard(SetClipboard),
    StartApp(StartApp),
    ResizeDisplay(ResizeDisplay),
    CreateDisplay(CreateDisplay),
    SetAudio(SetAudio),
    ClipboardChanged(ClipboardChanged),
    MediaConfig(MediaConfig),
    AudioState(AudioState),
    DisplayReady(DisplayReady),
}

/// One control message; `None` where its kind is not known.
#[derive(Debug, Clone, PartialEq, Eq)]
pub struct CtrlMsg {
    pub msg: Option<Msg>,
}

} // verus!
