//! A session with the server on the phone: what goes out on which socket, what comes in.
//!
//! The session holds no socket and reads no clock. Its owner hands it each frame and
//! datagram that comes and calls [`UdpSession::tick`] every 25 ms; what it returns is to
//! be sent or passed on. Times are nanoseconds on a clock that never goes back.
use super::codec::{
    decode_media_datagram, encode_media_datagram, Assembly, AssembledMedia, Datagram, Media,
    MediaFragment, MediaReassembler, AUDIO_PORT_OFFSET, MEDIA_HDR_LEN, MEDIA_OPEN_TOTAL,
    VIDEO_PORT_OFFSET,
};
use super::messages::{
    frame_views, CtrlMsg, Frame, FrameKind, FrameView, Hello, HelloAck, Payload, PayloadView,
    Stream,
};
use super::reliable::{
    byte_views, elapsed, elapsed_since, resent_frames, Receiving,
    ReliableReceiver, ReliableSender, Sending,
};
use crate::text::{cat2, cat3};
use vstd::prelude::*;

verus! {

/// A heartbeat goes out every 5 s.
pub const HEARTBEAT_INTERVAL: u64 = 5_000_000_000;

/// An OPEN datagram goes out every 500 ms until media flows.
pub const OPEN_INTERVAL: u64 = 500_000_000;

/// A media message that has made no progress for 500 ms is dropped.
pub const MEDIA_SWEEP: u64 = 500_000_000;

/// The handshake may take 10 s.
pub const HANDSHAKE_TIMEOUT: u64 = 10_000_000_000;

/// The handshake reports that it still waits every 2 s.
pub const HANDSHAKE_REPORT: u64 = 2_000_000_000;

/// With this many fragments unacknowledged, sending again is worth a warning.
pub const PRESSURE_PENDING: usize = 8;

/// Warnings of that kind come at most every 2 s.
pub const PRESSURE_INTERVAL: u64 = 2_000_000_000;

/// Errors of a media socket are logged at most every 5 s.
pub const MEDIA_ERROR_INTERVAL: u64 = 5_000_000_000;

/// What a session is opened for.
#[derive(Debug, Clone, Copy, PartialEq, Eq, Structural)]
pub struct ConnectOpts {
    /// Open the audio port. Audio can be switched on in the middle of a session, and the
    /// endpoint has to be registered by then.
    pub audio_link: bool,
    /// Ask the phone to capture audio from the start.
    pub hello_audio: bool,
    /// Open the video port.
    pub video: bool,
}

/// The audio port that belongs to control port `port`.
pub fn audio_port(port: u16) -> (r: u16)
    requires
        port + AUDIO_PORT_OFFSET <= u16::MAX,
    ensures
        r == port + 2,
{
    port + AUDIO_PORT_OFFSET
}

/// The video port that belongs to control port `port`.
pub fn video_port(port: u16) -> (r: u16)
    requires
        port + VIDEO_PORT_OFFSET <= u16::MAX,
    ensures
        r == port + 1,
{
    port + VIDEO_PORT_OFFSET
}

/// A control frame that is not a piece of a message.
pub open spec fn plain_frame(kind: FrameKind, payload: Option<PayloadView>) -> FrameView {
    FrameView {
        stream: Some(Stream::Ctrl),
        kind: Some(kind),
        seq: 0,
        msg_id: 0,
        frag: 0,
        frag_total: 0,
        payload,
    }
}

fn make_frame(kind: FrameKind, payload: Option<Payload>) -> (r: Frame)
    ensures
        r@ == plain_frame(
            kind,
            match payload {
                Some(p) => Some(p@),
                None => None,
            },
        ),
{
    Frame {
        stream: Some(Stream::Ctrl),
        kind: Some(kind),
        seq: 0,
        msg_id: 0,
        frag: 0,
        frag_total: 0,
        payload,
    }
}

/// The frame that acknowledges everything up to `ack_seq`.
pub fn encode_ack(ack_seq: u32) -> (r: Frame)
    ensures
        r@ == plain_frame(FrameKind::Ack, Some(PayloadView::AckSeq(ack_seq))),
{
    make_frame(FrameKind::Ack, Some(Payload::AckSeq(ack_seq)))
}

pub fn encode_heartbeat() -> (r: Frame)
    ensures
        r@ == plain_frame(FrameKind::Heartbeat, None),
{
    make_frame(FrameKind::Heartbeat, None)
}

/// The frame that ends a session.
pub fn encode_bye() -> (r: Frame)
    ensures
        r@ == plain_frame(FrameKind::Bye, None),
{
    make_frame(FrameKind::Bye, None)
}

/// The frame that opens a session.
pub fn encode_hello(scid: &str, audio: bool) -> (r: Frame)
    ensures
        r@ == plain_frame(FrameKind::Hello, Some(PayloadView::Hello { scid: scid@, audio })),
{
    make_frame(FrameKind::Hello, Some(Payload::Hello(Hello { scid: scid.to_owned(), audio })))
}

/// The OPEN datagram of client `client_id`: a header alone.
pub open spec fn open_datagram(client_id: u32) -> Datagram {
    Datagram {
        client_id,
        msg_id: 0,
        seq: 0,
        frag: 0,
        frag_total: MEDIA_OPEN_TOTAL,
        pts: 0,
        revision: 0,
        flags: 0,
        payload: Seq::empty(),
    }
}

/// The bytes that register a media endpoint: the phone sends media to the address from
/// which it got any datagram with a valid header, and before media flows this is the only
/// one there is.
pub fn encode_open(client_id: u32) -> (r: Vec<u8>)
    ensures
        r@ == open_datagram(client_id).wire(),
        r@.len() == MEDIA_HDR_LEN,
{
    let mut wire: Vec<u8> = Vec::new();
    let empty: Vec<u8> = Vec::new();
    let f = MediaFragment {
        client_id,
        msg_id: 0,
        seq: 0,
        frag: 0,
        frag_total: MEDIA_OPEN_TOTAL,
        pts: 0,
        revision: 0,
        flags: 0,
        payload: empty.as_slice(),
    };
    encode_media_datagram(&f, &mut wire);
    proof {
        assert(f@ =~= open_datagram(client_id));
        super::codec::law_parse_of_wire(open_datagram(client_id));
        assert(wire@ =~= open_datagram(client_id).wire());
    }
    wire
}

/// What a session passes on.
#[derive(Debug, Clone)]
pub enum Event {
    /// The handshake is complete.
    Connected,
    /// A control message from the phone.
    Control(CtrlMsg),
    Audio(AssembledMedia),
    Video(AssembledMedia),
    /// The session is over.
    Closed,
    /// The session cannot go on.
    Error(String),
}

/// What comes out of a frame or datagram. A control message is still encoded.
#[derive(Debug, Clone)]
pub enum Inbound {
    Connected,
    Control(Vec<u8>),
    Audio(AssembledMedia),
    Video(AssembledMedia),
    Closed,
    Error(String),
}

/// What comes out of a frame or datagram, as the contracts speak of it.
#[verifier::ext_equal]
pub enum InboundView {
    Connected,
    Control(Seq<u8>),
    Audio(Media),
    Video(Media),
    Closed,
    Error(Seq<char>),
}

impl View for Inbound {
    type V = InboundView;

    open spec fn view(&self) -> InboundView {
        match self {
            Inbound::Connected => InboundView::Connected,
            Inbound::Control(b) => InboundView::Control(b@),
            Inbound::Audio(m) => InboundView::Audio(m@),
            Inbound::Video(m) => InboundView::Video(m@),
            Inbound::Closed => InboundView::Closed,
            Inbound::Error(e) => InboundView::Error(e@),
        }
    }
}

pub open spec fn inbound_views(v: Seq<Inbound>) -> Seq<InboundView> {
    v.map_values(|i: Inbound| i@)
}

impl Inbound {
    /// The event to pass on. `decoded` is what the bytes of a control message decode to;
    /// one that does not decode is dropped.
    pub fn into_event(self, decoded: Option<CtrlMsg>) -> (r: Option<Event>)
        ensures
            match self {
                Inbound::Connected => r == Some(Event::Connected),
                Inbound::Control(_) => r == match decoded {
                    Some(m) => Some(Event::Control(m)),
                    None => None,
                },
                Inbound::Audio(m) => r == Some(Event::Audio(m)),
                Inbound::Video(m) => r == Some(Event::Video(m)),
                Inbound::Closed => r == Some(Event::Closed),
                Inbound::Error(e) => r == Some(Event::Error(e)),
            },
    {
        match self {
            Inbound::Connected => Some(Event::Connected),
            Inbound::Control(_) => match decoded {
                Some(m) => Some(Event::Control(m)),
                None => None,
            },
            Inbound::Audio(m) => Some(Event::Audio(m)),
            Inbound::Video(m) => Some(Event::Video(m)),
            Inbound::Closed => Some(Event::Closed),
            Inbound::Error(e) => Some(Event::Error(e)),
        }
    }
}

/// How reading a socket can fail.
#[derive(Debug, Clone)]
pub enum RecvFault {
    WouldBlock,
    TimedOut,
    /// The peer has not bound its port yet, which is normal while its server starts.
    ConnectionReset,
    ConnectionRefused,
    Other(String),
}

impl RecvFault {
    /// Whether the fault means nothing but that there is no datagram.
    pub open spec fn harmless(self) -> bool {
        !(self is Other)
    }
}

/// What one round of the session's clock asks for.
#[derive(Debug, Clone)]
pub struct Tick {
    /// Goes out on the control socket first.
    pub ack: Option<Frame>,
    /// Goes out on the control socket next.
    pub resend: Vec<Frame>,
    /// How many of these are sent again. The others go out for the first time.
    pub again: usize,
    /// Much is unacknowledged and is being sent again: how much waits.
    pub pressure: Option<usize>,
    /// Goes out on the control socket last.
    pub heartbeat: Option<Frame>,
    pub open_video: Option<Vec<u8>>,
    pub open_audio: Option<Vec<u8>>,
    /// The session has ended.
    pub ended: Option<String>,
}

/// What a session holds.
#[verifier::ext_equal]
pub struct SessionState {
    pub scid: Seq<char>,
    pub opts: ConnectOpts,
    pub connected: bool,
    pub hello_ack: Option<PayloadView>,
    /// The identifier that the phone gave this client; 0 before the handshake.
    pub client_id: u32,
    pub audio_flowing: bool,
    pub video_flowing: bool,
    pub tx: Sending,
    pub rx: Receiving,
    pub audio: Assembly,
    pub video: Assembly,
    /// The identifier of the next control message.
    pub msg_id: u32,
    /// A data frame has come that has not been acknowledged.
    pub ack_owed: bool,
    pub last_heartbeat: u64,
    pub last_open: u64,
    pub last_pressure: u64,
    pub closed: bool,
}

/// A session with the server on the phone.
pub struct UdpSession {
    scid: String,
    opts: ConnectOpts,
    connected: bool,
    hello_ack: Option<HelloAck>,
    client_id: u32,
    audio_flowing: bool,
    video_flowing: bool,
    ctrl_tx: ReliableSender,
    ctrl_rx: ReliableReceiver,
    audio_rx: MediaReassembler,
    video_rx: MediaReassembler,
    msg_id: u32,
    ack_owed: bool,
    last_heartbeat: u64,
    last_open: u64,
    last_pressure: u64,
    closed: bool,
}

pub open spec fn hello_ack_view(h: Option<HelloAck>) -> Option<PayloadView> {
    match h {
        Some(a) => Some(a@),
        None => None,
    }
}

impl View for UdpSession {
    type V = SessionState;

    closed spec fn view(&self) -> SessionState {
        SessionState {
            scid: self.scid@,
            opts: self.opts,
            connected: self.connected,
            hello_ack: hello_ack_view(self.hello_ack),
            client_id: self.client_id,
            audio_flowing: self.audio_flowing,
            video_flowing: self.video_flowing,
            tx: self.ctrl_tx@,
            rx: self.ctrl_rx@,
            audio: self.audio_rx@,
            video: self.video_rx@,
            msg_id: self.msg_id,
            ack_owed: self.ack_owed,
            last_heartbeat: self.last_heartbeat,
            last_open: self.last_open,
            last_pressure: self.last_pressure,
            closed: self.closed,
        }
    }
}

impl SessionState {
    pub open spec fn fresh(scid: Seq<char>, opts: ConnectOpts, now: u64) -> SessionState {
        SessionState {
            scid,
            opts,
            connected: false,
            hello_ack: None,
            client_id: 0,
            audio_flowing: false,
            video_flowing: false,
            tx: Sending::empty(),
            rx: Receiving::empty(),
            audio: Assembly::empty(),
            video: Assembly::empty(),
            msg_id: 1,
            ack_owed: false,
            last_heartbeat: now,
            last_open: now,
            last_pressure: now,
            closed: false,
        }
    }

    /// What a control frame does to the session, and what it passes on.
    pub open spec fn dispatch(self, f: FrameView) -> (SessionState, Seq<InboundView>) {
        match f.kind {
            Some(FrameKind::Ack) => match f.payload {
                Some(PayloadView::AckSeq(a)) => (
                    SessionState { tx: self.tx.ack(a), ..self },
                    Seq::empty(),
                ),
                _ => (self, Seq::empty()),
            },
            Some(FrameKind::HelloAck) => match f.payload {
                Some(PayloadView::HelloAck { client_id, scid, audio_codec, video_codec }) => (
                    SessionState {
                        client_id,
                        connected: true,
                        hello_ack: f.payload,
                        ..self
                    },
                    seq![InboundView::Connected],
                ),
                _ => (self, Seq::empty()),
            },
            Some(FrameKind::Data) => if f.stream is None {
                (self, Seq::empty())
            } else if self.rx.dead {
                (self, seq![InboundView::Error("control 接收缓冲溢出"@)])
            } else {
                let (rx, out) = self.rx.receive(f);
                (
                    SessionState { rx, ack_owed: true, ..self },
                    out.map_values(|b: Seq<u8>| InboundView::Control(b)),
                )
            },
            Some(FrameKind::Bye) => (self, seq![InboundView::Closed]),
            Some(FrameKind::Heartbeat) => (self, Seq::empty()),
            Some(FrameKind::Hello) => (self, Seq::empty()),
            None => (self, Seq::empty()),
        }
    }

    /// Where a datagram of a media port belongs to this session and carries media.
    pub open spec fn takes_media(self, b: Seq<u8>) -> bool {
        &&& b.len() >= MEDIA_HDR_LEN
        &&& self.client_id != 0
        &&& Datagram::parse(b).client_id == self.client_id
        &&& Datagram::parse(b).frag_total != MEDIA_OPEN_TOTAL
    }

    pub open spec fn stream(self, video: bool) -> Assembly {
        if video {
            self.video
        } else {
            self.audio
        }
    }

    /// What a datagram of a media port does to the session, and the message that it
    /// completes.
    pub open spec fn media(self, video: bool, b: Seq<u8>, now: u64) -> (
        SessionState,
        Option<Media>,
    ) {
        if self.takes_media(b) {
            let (a, m) = self.stream(video).push(Datagram::parse(b), now);
            if video {
                (SessionState { video: a, video_flowing: true, ..self }, m)
            } else {
                (SessionState { audio: a, audio_flowing: true, ..self }, m)
            }
        } else {
            (self, None)
        }
    }

    /// The session once the control stream has been looked after at `now`.
    pub open spec fn after_ctrl(self, now: u64) -> SessionState {
        SessionState {
            ack_owed: false,
            tx: self.tx.round(now),
            last_pressure: if self.warns(now) {
                now
            } else {
                self.last_pressure
            },
            closed: self.closed || self.tx.round(now).stalled,
            ..self
        }
    }

    /// Where sending again is worth a warning.
    pub open spec fn warns(self, now: u64) -> bool {
        &&& resent_frames(self.tx.window, now).len() > 0
        &&& self.tx.window.len() >= PRESSURE_PENDING
        &&& elapsed(now, self.last_pressure) >= PRESSURE_INTERVAL
    }

    pub open spec fn heartbeat_due(self, now: u64) -> bool {
        elapsed(now, self.last_heartbeat) >= HEARTBEAT_INTERVAL
    }

    pub open spec fn open_due(self, now: u64) -> bool {
        elapsed(now, self.last_open) >= OPEN_INTERVAL
    }

    /// The session after one round of its clock. One that has stalled does nothing but end.
    pub open spec fn tick(self, now: u64) -> SessionState {
        let s = self.after_ctrl(now);
        if s.tx.stalled {
            s
        } else {
            SessionState {
                last_heartbeat: if self.heartbeat_due(now) {
                    now
                } else {
                    self.last_heartbeat
                },
                last_open: if self.open_due(now) {
                    now
                } else {
                    self.last_open
                },
                audio: self.audio.sweep(now, MEDIA_SWEEP),
                video: self.video.sweep(now, MEDIA_SWEEP),
                ..s
            }
        }
    }

    /// Whether one round at `now` sends an OPEN datagram to the port in question.
    pub open spec fn opens(self, now: u64, wanted: bool, flowing: bool) -> bool {
        !self.tick(now).tx.stalled && self.open_due(now) && self.client_id != 0 && wanted
            && !flowing
    }
}

impl UdpSession {
    pub closed spec fn wf(&self) -> bool {
        &&& self.audio_rx.wf()
        &&& self.video_rx.wf()
        &&& !self.closed ==> self.ctrl_tx@.hopeful()
    }

    /// A session before its handshake.
    pub fn new(scid: &str, opts: ConnectOpts, now: u64) -> (r: Self)
        ensures
            r.wf(),
            r@ == SessionState::fresh(scid@, opts, now),
    {
        UdpSession {
            scid: scid.to_owned(),
            opts,
            connected: false,
            hello_ack: None,
            client_id: 0,
            audio_flowing: false,
            video_flowing: false,
            ctrl_tx: ReliableSender::new(),
            ctrl_rx: ReliableReceiver::new(),
            audio_rx: MediaReassembler::new(),
            video_rx: MediaReassembler::new(),
            msg_id: 1,
            ack_owed: false,
            last_heartbeat: now,
            last_open: now,
            last_pressure: now,
            closed: false,
        }
    }

    /// The greeting, which is repeated until it is answered.
    pub fn hello(&self) -> (r: Frame)
        ensures
            r@ == plain_frame(
                FrameKind::Hello,
                Some(PayloadView::Hello { scid: self@.scid, audio: self@.opts.hello_audio }),
            ),
    {
        encode_hello(self.scid.as_str(), self.opts.hello_audio)
    }

    pub fn is_connected(&self) -> (r: bool)
        ensures
            r == self@.connected,
    {
        self.connected
    }

    pub fn is_closed(&self) -> (r: bool)
        ensures
            r == self@.closed,
    {
        self.closed
    }

    /// How many control fragments wait for an acknowledgement.
    pub fn pending(&self) -> (r: usize)
        ensures
            r == self@.tx.window.len(),
    {
        self.ctrl_tx.pending()
    }

    /// Takes a frame that came on the control port.
    pub fn dispatch(&mut self, frame: &Frame) -> (r: Vec<Inbound>)
        requires
            old(self).wf(),
        ensures
            final(self).wf(),
            final(self)@ == old(self)@.dispatch(frame@).0,
            inbound_views(r@) == old(self)@.dispatch(frame@).1,
    {
        let mut out: Vec<Inbound> = Vec::new();
        assert(inbound_views(out@) =~= Seq::empty());
        match frame.kind {
            Some(FrameKind::Ack) => {
                if let Some(Payload::AckSeq(ack)) = &frame.payload {
                    proof {
                        super::delivery::lemma_hopeful_is_kept(
                            self.ctrl_tx@,
                            0,
                            Seq::empty(),
                            *ack,
                            0,
                        );
                    }
                    self.ctrl_tx.on_ack(*ack);
                }
            },
            Some(FrameKind::HelloAck) => {
                if let Some(Payload::HelloAck(ack)) = &frame.payload {
                    self.client_id = ack.client_id;
                    self.connected = true;
                    self.hello_ack = Some(ack.duplicate());
                    out.push(Inbound::Connected);
                    assert(inbound_views(out@) =~= seq![InboundView::Connected]);
                }
            },
            Some(FrameKind::Data) => match frame.stream {
                Some(Stream::Ctrl) => {
                    if self.ctrl_rx.is_dead() {
                        out.push(Inbound::Error("control 接收缓冲溢出".to_owned()));
                        assert(inbound_views(out@) =~= seq![
                            InboundView::Error("control 接收缓冲溢出"@),
                        ]);
                    } else {
                        let delivered = self.ctrl_rx.on_frame(frame);
                        self.ack_owed = true;
                        let ghost msgs = byte_views(delivered@);
                        let mut i: usize = 0;
                        while i < delivered.len()
                            invariant
                                i <= delivered@.len(),
                                msgs == byte_views(delivered@),
                                out@.len() == i,
                                forall|j: int|
                                    0 <= j < i ==> (#[trigger] out@[j])@ == InboundView::Control(
                                        msgs[j],
                                    ),
                            decreases delivered@.len() - i,
                        {
                            out.push(
                                Inbound::Control(
                                    crate::wire::copy_bytes(delivered[i].as_slice()),
                                ),
                            );
                            i += 1;
                        }
                        assert(inbound_views(out@) =~= msgs.map_values(
                            |b: Seq<u8>| InboundView::Control(b),
                        ));
                    }
                },
                None => {},
            },
            Some(FrameKind::Bye) => {
                out.push(Inbound::Closed);
                assert(inbound_views(out@) =~= seq![InboundView::Closed]);
            },
            Some(FrameKind::Heartbeat) => {},
            Some(FrameKind::Hello) => {},
            None => {},
        }
        out
    }

    /// Takes a failure to read the control socket: whether the reader goes on, and what
    /// it passes on. Any failure that says more than that nothing has come ends the
    /// session.
    pub fn on_recv_fault(&mut self, fault: &RecvFault) -> (r: (bool, Option<Inbound>))
        requires
            old(self).wf(),
        ensures
            final(self).wf(),
            r.0 == fault.harmless(),
            fault.harmless() ==> final(self)@ == old(self)@ && r.1 is None,
            fault matches RecvFault::Other(e) ==> {
                &&& final(self)@ == SessionState { closed: true, ..old(self)@ }
                &&& old(self)@.closed ==> r.1 is None
                &&& !old(self)@.closed ==> (r.1 matches Some(i) && i@ == InboundView::Error(
                    "udp recv: "@ + e@,
                ))
            },
    {
        match fault {
            RecvFault::Other(e) => {
                if self.closed {
                    (false, None)
                } else {
                    self.closed = true;
                    (false, Some(Inbound::Error(cat2("udp recv: ", e.as_str()))))
                }
            },
            _ => (true, None),
        }
    }

    /// Whether a media datagram agrees with what has come of its message before.
    pub fn media_fits(&self, video: bool, buf: &[u8]) -> (r: bool)
        requires
            self.wf(),
        ensures
            r == (self@.takes_media(buf@) ==> self@.stream(video).fits(Datagram::parse(buf@))),
    {
        match decode_media_datagram(buf) {
            Some(f) => {
                if self.client_id == 0 || f.client_id != self.client_id || f.frag_total
                    == MEDIA_OPEN_TOTAL {
                    true
                } else if video {
                    self.video_rx.fits(&f)
                } else {
                    self.audio_rx.fits(&f)
                }
            },
            None => true,
        }
    }

    /// Takes a datagram that came on a media port. One that is too short, comes before
    /// the handshake, belongs to another client or registers an endpoint is dropped.
    pub fn on_media(&mut self, video: bool, buf: &[u8], now: u64) -> (r: Option<Inbound>)
        requires
            old(self).wf(),
            old(self)@.takes_media(buf@) ==> old(self)@.stream(video).fits(Datagram::parse(buf@)),
        ensures
            final(self).wf(),
            final(self)@ == old(self)@.media(video, buf@, now).0,
            match old(self)@.media(video, buf@, now).1 {
                Some(m) => r matches Some(i) && i@ == if video {
                    InboundView::Video(m)
                } else {
                    InboundView::Audio(m)
                },
                None => r is None,
            },
    {
        let f = match decode_media_datagram(buf) {
            Some(f) => f,
            None => {
                return None;
            },
        };
        if self.client_id == 0 || f.client_id != self.client_id {
            return None;
        }
        if f.frag_total == MEDIA_OPEN_TOTAL {
            return None;
        }
        if video {
            self.video_flowing = true;
            match self.video_rx.push(&f, now) {
                Some(m) => Some(Inbound::Video(m)),
                None => None,
            }
        } else {
            self.audio_flowing = true;
            match self.audio_rx.push(&f, now) {
                Some(m) => Some(Inbound::Audio(m)),
                None => None,
            }
        }
    }

    /// One round of the session's clock.
    pub fn tick(&mut self, now: u64) -> (r: Tick)
        requires
            old(self).wf(),
            !old(self)@.closed,
        ensures
            final(self).wf(),
            final(self)@ == old(self)@.tick(now),
            match r.ack {
                Some(f) => old(self)@.ack_owed && f@ == plain_frame(
                    FrameKind::Ack,
                    Some(PayloadView::AckSeq(old(self)@.rx.ack())),
                ),
                None => !old(self)@.ack_owed,
            },
            frame_views(r.resend@) == resent_frames(old(self)@.tx.window, now)
                + old(self)@.tx.freed(),
            r.again == resent_frames(old(self)@.tx.window, now).len(),
            match r.pressure {
                Some(n) => old(self)@.warns(now) && n == old(self)@.tx.window.len(),
                None => !old(self)@.warns(now),
            },
            match r.ended {
                Some(e) => final(self)@.tx.stalled && e@ == "control 确认超时，连接失效"@,
                None => !final(self)@.tx.stalled,
            },
            match r.heartbeat {
                Some(f) => !final(self)@.tx.stalled && old(self)@.heartbeat_due(now) && f@
                    == plain_frame(FrameKind::Heartbeat, None),
                None => final(self)@.tx.stalled || !old(self)@.heartbeat_due(now),
            },
            match r.open_video {
                Some(b) => old(self)@.opens(
                    now,
                    old(self)@.opts.video,
                    old(self)@.video_flowing,
                ) && b@ == open_datagram(old(self)@.client_id).wire(),
                None => !old(self)@.opens(now, old(self)@.opts.video, old(self)@.video_flowing),
            },
            match r.open_audio {
                Some(b) => old(self)@.opens(
                    now,
                    old(self)@.opts.audio_link,
                    old(self)@.audio_flowing,
                ) && b@ == open_datagram(old(self)@.client_id).wire(),
                None => !old(self)@.opens(
                    now,
                    old(self)@.opts.audio_link,
                    old(self)@.audio_flowing,
                ),
            },
    {
        let ack = if self.ack_owed {
            Some(encode_ack(self.ctrl_rx.ack_seq()))
        } else {
            None
        };
        self.ack_owed = false;
        proof {
            let s = self.ctrl_tx@;
            if !s.stalled {
                super::delivery::law_sender_gives_up_in_time(s, now);
            }
        }
        let pending: usize = self.ctrl_tx.pending();
        let held: usize = self.ctrl_tx.held_back();
        let resend = self.ctrl_tx.due_timeouts(now);
        assert(frame_views(resend@).len() == resend@.len());
        let again: usize = resend.len() - (held - self.ctrl_tx.held_back());
        let mut pressure: Option<usize> = None;
        if again > 0 && pending >= PRESSURE_PENDING && elapsed_since(now, self.last_pressure)
            >= PRESSURE_INTERVAL {
            self.last_pressure = now;
            pressure = Some(pending);
        }
        if self.ctrl_tx.is_stalled() {
            self.closed = true;
            return Tick {
                ack,
                resend,
                again,
                pressure,
                heartbeat: None,
                open_video: None,
                open_audio: None,
                ended: Some("control 确认超时，连接失效".to_owned()),
            };
        }
        let mut heartbeat: Option<Frame> = None;
        if elapsed_since(now, self.last_heartbeat) >= HEARTBEAT_INTERVAL {
            self.last_heartbeat = now;
            heartbeat = Some(encode_heartbeat());
        }
        let mut open_video: Option<Vec<u8>> = None;
        let mut open_audio: Option<Vec<u8>> = None;
        if elapsed_since(now, self.last_open) >= OPEN_INTERVAL {
            self.last_open = now;
            if self.client_id != 0 {
                if self.opts.video && !self.video_flowing {
                    open_video = Some(encode_open(self.client_id));
                }
                if self.opts.audio_link && !self.audio_flowing {
                    open_audio = Some(encode_open(self.client_id));
                }
            }
        }
        self.audio_rx.sweep(now, MEDIA_SWEEP);
        self.video_rx.sweep(now, MEDIA_SWEEP);
        Tick { ack, resend, again, pressure, heartbeat, open_video, open_audio, ended: None }
    }

    /// Sends an encoded control message reliably: the frames that go out now. What has no
    /// room in the window goes out in a later round of the clock.
    pub fn send_ctrl(&mut self, bytes: &[u8], now: u64) -> (r: Vec<Frame>)
        requires
            old(self).wf(),
        ensures
            final(self).wf(),
            frame_views(r@) == old(self)@.tx.queue(old(self)@.msg_id, bytes@).freed(),
            final(self)@ == (SessionState {
                tx: old(self)@.tx.send(old(self)@.msg_id, bytes@, now),
                msg_id: super::reliable::seq_no(old(self)@.msg_id + 1),
                ..old(self)@
            }),
    {
        let id: u32 = self.msg_id;
        let ghost before = self.ctrl_tx@;
        self.msg_id = id.wrapping_add(1);
        let frames = self.ctrl_tx.send_ctrl_bytes(id, bytes, now);
        proof {
            super::delivery::lemma_hopeful_is_kept(before, id, bytes@, 0, now);
        }
        frames
    }

    /// The frame that takes leave of the phone.
    pub fn send_bye(&self) -> (r: Frame)
        ensures
            r@ == plain_frame(FrameKind::Bye, None),
    {
        encode_bye()
    }

    /// The phone's answer to the greeting.
    pub fn hello_ack(&self) -> (r: Option<HelloAck>)
        ensures
            hello_ack_view(r) == self@.hello_ack,
    {
        match &self.hello_ack {
            Some(a) => Some(a.duplicate()),
            None => None,
        }
    }

    /// Ends the session: the frame that takes leave of the phone.
    pub fn close(&mut self) -> (r: Frame)
        requires
            old(self).wf(),
        ensures
            final(self).wf(),
            final(self)@ == (SessionState { closed: true, ..old(self)@ }),
            r@ == plain_frame(FrameKind::Bye, None),
    {
        self.closed = true;
        self.send_bye()
    }
}

/// What the handshake does next.
#[derive(Debug, Clone, PartialEq, Eq)]
pub enum HandshakeStep {
    /// The phone has answered.
    Done,
    /// The phone has not answered in time.
    TimedOut(String),
    /// Send the greeting, wait 100 ms and look again. Where a report is due, it says how
    /// much time is left.
    Greet { report: Option<u64> },
}

/// The wait for the phone's answer.
#[derive(Debug, Clone, Copy, PartialEq, Eq, Structural)]
pub struct Handshake {
    pub deadline: u64,
    pub last_progress: u64,
}

impl Handshake {
    /// A handshake that begins at `now`.
    pub fn new(now: u64) -> (r: Self)
        requires
            now + HANDSHAKE_TIMEOUT <= u64::MAX,
        ensures
            r.deadline == now + HANDSHAKE_TIMEOUT,
            r.last_progress == now,
    {
        Handshake { deadline: now + HANDSHAKE_TIMEOUT, last_progress: now }
    }

    /// One look at the handshake with `peer`.
    pub fn step(&mut self, connected: bool, now: u64, peer: &str) -> (r: HandshakeStep)
        ensures
            final(self).deadline == old(self).deadline,
            r is Done <==> connected,
            r is TimedOut <==> !connected && now > old(self).deadline,
            r matches HandshakeStep::TimedOut(e) ==> e@ == "HELLO 握手超时（"@ + peer@
                + "）：server 未就绪或端口不通——确认设备端 kulua-server 已启动且绑定了该端口，且此地址是手机当前 Wi-Fi IP"@,
            r matches HandshakeStep::Greet { report } ==> {
                let due = elapsed(now, old(self).last_progress) >= HANDSHAKE_REPORT;
                &&& report == if due {
                    Some((old(self).deadline - now) as u64)
                } else {
                    None
                }
                &&& final(self).last_progress == if due {
                    now
                } else {
                    old(self).last_progress
                }
            },
            !(r is Greet) ==> final(self).last_progress == old(self).last_progress,
    {
        if connected {
            return HandshakeStep::Done;
        }
        if now > self.deadline {
            return HandshakeStep::TimedOut(
                cat3(
                    "HELLO 握手超时（",
                    peer,
                    "）：server 未就绪或端口不通——确认设备端 kulua-server 已启动且绑定了该端口，且此地址是手机当前 Wi-Fi IP",
                ),
            );
        }
        if elapsed_since(now, self.last_progress) >= HANDSHAKE_REPORT {
            self.last_progress = now;
            return HandshakeStep::Greet { report: Some(self.deadline - now) };
        }
        HandshakeStep::Greet { report: None }
    }
}

/// Errors of a media socket, of which not every one is logged. They do not end the
/// session: the socket can recover.
#[derive(Debug, Clone, Copy, PartialEq, Eq, Structural)]
pub struct MediaErrors {
    pub count: u64,
    pub last_log: u64,
}

impl MediaErrors {
    pub fn new(now: u64) -> (r: Self)
        ensures
            r.count == 0,
            r.last_log == now,
    {
        MediaErrors { count: 0, last_log: now }
    }

    /// A datagram has come.
    pub fn clear(&mut self)
        ensures
            final(self).count == 0,
            final(self).last_log == old(self).last_log,
    {
        self.count = 0;
    }

    /// An error has come: whether it is logged. The first in a row is, and then one
    /// every 5 s.
    pub fn note(&mut self, now: u64) -> (logged: bool)
        requires
            old(self).count < u64::MAX,
        ensures
            logged == (old(self).count == 0 || elapsed(now, old(self).last_log)
                >= MEDIA_ERROR_INTERVAL),
            final(self).count == old(self).count + 1,
            final(self).last_log == if logged {
                now
            } else {
                old(self).last_log
            },
    {
        let logged = self.count == 0 || elapsed_since(now, self.last_log) >= MEDIA_ERROR_INTERVAL;
        if logged {
            self.last_log = now;
        }
        self.count = self.count + 1;
        logged
    }
}

/// Before the handshake a session takes no media, and sends no OPEN datagram.
pub proof fn law_nothing_before_handshake(s: SessionState, video: bool, b: Seq<u8>, now: u64)
    requires
        s.client_id == 0,
    ensures
        s.media(video, b, now) == (s, None::<Media>),
        !s.opens(now, s.opts.video, s.video_flowing),
        !s.opens(now, s.opts.audio_link, s.audio_flowing),
{
}

/// Media of another client is never taken.
pub proof fn law_media_of_others_is_dropped(s: SessionState, video: bool, d: Datagram, now: u64)
    requires
        d.client_id != s.client_id,
    ensures
        s.media(video, d.wire(), now) == (s, None::<Media>),
{
    super::codec::law_parse_of_wire(d);
}

/// Once media has come on a port, no more OPEN datagrams go out to it, whatever comes
/// later.
pub proof fn law_opening_ends_with_media(
    s: SessionState,
    video: bool,
    b: Seq<u8>,
    now: u64,
    f: FrameView,
    other: bool,
    c: Seq<u8>,
    then: u64,
)
    requires
        s.takes_media(b),
    ensures
        ({
            let t = s.media(video, b, now).0;
            let u = t.dispatch(f).0.media(other, c, then).0.tick(then);
            &&& video ==> !t.opens(then, t.opts.video, t.video_flowing)
            &&& !video ==> !t.opens(then, t.opts.audio_link, t.audio_flowing)
            &&& video ==> !u.opens(then, u.opts.video, u.video_flowing)
            &&& !video ==> !u.opens(then, u.opts.audio_link, u.audio_flowing)
        }),
{
}

/// The two media ports and the control port do not touch each other's streams.
pub proof fn law_streams_are_apart(
    s: SessionState,
    video: bool,
    b: Seq<u8>,
    now: u64,
    f: FrameView,
)
    ensures
        s.media(video, b, now).0.stream(!video) == s.stream(!video),
        s.media(video, b, now).0.tx == s.tx,
        s.media(video, b, now).0.rx == s.rx,
        s.dispatch(f).0.audio == s.audio,
        s.dispatch(f).0.video == s.video,
{
}

/// A session that is over stays over.
pub proof fn law_closed_stays_closed(
    s: SessionState,
    f: FrameView,
    video: bool,
    b: Seq<u8>,
    now: u64,
)
    requires
        s.closed,
    ensures
        s.dispatch(f).0.closed,
        s.media(video, b, now).0.closed,
        s.tick(now).closed,
{
}

/// What the phone sends on the control port is what it does to the session. An acknowledgement
/// goes to the sender. The answer to the greeting makes the connection, with the identifier that
/// the phone gave. A farewell is passed on as the end. Everything else about the session stays.
pub proof fn law_control_frame_does_what_it_says(s: SessionState, f: FrameView, a: u32)
    ensures
        f.kind == Some(FrameKind::Ack) && f.payload == Some(PayloadView::AckSeq(a)) ==> s.dispatch(f)
            == (SessionState { tx: s.tx.ack(a), ..s }, Seq::<InboundView>::empty()),
        f.kind == Some(FrameKind::HelloAck) ==> (f.payload matches Some(
            PayloadView::HelloAck { client_id, scid, audio_codec, video_codec },
        ) ==> {
            let (t, out) = s.dispatch(f);
            &&& t.connected && t.client_id == client_id && t.hello_ack == f.payload
            &&& out == seq![InboundView::Connected]
            &&& t == (SessionState {
                connected: true,
                client_id,
                hello_ack: f.payload,
                ..s
            })
        }),
        f.kind == Some(FrameKind::Bye) ==> s.dispatch(f) == (s, seq![InboundView::Closed]),
        f.kind == Some(FrameKind::Heartbeat) || f.kind == Some(FrameKind::Hello) || f.kind is None
            ==> s.dispatch(f) == (s, Seq::<InboundView>::empty()),
{
}

/// A data frame on the control port is owed an acknowledgement, whether it is new or not, and
/// whatever messages it completes are passed on, in order, as they are; a receiver that has
/// given up says so instead.
pub proof fn law_control_data_is_passed_on(s: SessionState, f: FrameView, j: int)
    requires
        f.kind == Some(FrameKind::Data),
        f.stream is Some,
    ensures
        ({
            let (t, out) = s.dispatch(f);
            let (rx, msgs) = s.rx.receive(f);
            &&& !s.rx.dead ==> {
                &&& t == (SessionState { rx, ack_owed: true, ..s })
                &&& out.len() == msgs.len()
                &&& 0 <= j < msgs.len() ==> out[j] == InboundView::Control(msgs[j])
            }
            &&& s.rx.dead ==> t == s && out.len() == 1 && out[0] is Error
        }),
{
}

/// Media of this session is put together: a datagram with the identifier that the phone gave,
/// and that is not the one that registers an endpoint, goes to the stream of its port, and the
/// message that it completes is passed on.
pub proof fn law_own_media_is_put_together(s: SessionState, video: bool, d: Datagram, now: u64)
    requires
        s.client_id != 0,
        d.client_id == s.client_id,
        d.frag_total != 0xFFFF,
    ensures
        ({
            let (t, m) = s.media(video, d.wire(), now);
            let (a, out) = (if video {
                s.video
            } else {
                s.audio
            }).push(d, now);
            &&& m == out
            &&& video ==> t.video == a && t.audio == s.audio && t.video_flowing
                && t.audio_flowing == s.audio_flowing
            &&& !video ==> t.audio == a && t.video == s.video && t.audio_flowing
                && t.video_flowing == s.video_flowing
        }),
{
    super::codec::law_parse_of_wire(d);
}

/// A round of the clock looks after the control stream, sends no acknowledgement twice, shows
/// that it is there every five seconds, and asks for media every half second, for as long as
/// none has come and it is wanted. Of media under way it drops what has been stuck for half a
/// second. The session ends exactly where the sender gives up.
pub proof fn law_round_of_the_clock(s: SessionState, now: u64)
    requires
        !s.closed,
        s.last_heartbeat <= now,
        s.last_open <= now,
    ensures
        ({
            let t = s.tick(now);
            let gone = s.tx.round(now).stalled;
            &&& t.tx == s.tx.round(now)
            &&& t.rx == s.rx
            &&& !t.ack_owed
            &&& t.closed <==> gone
            &&& s.heartbeat_due(now) <==> now - s.last_heartbeat >= 5_000_000_000
            &&& s.open_due(now) <==> now - s.last_open >= 500_000_000
            &&& !gone ==> {
                &&& t.last_heartbeat == if now - s.last_heartbeat >= 5_000_000_000 {
                    now
                } else {
                    s.last_heartbeat
                }
                &&& t.last_open == if now - s.last_open >= 500_000_000 {
                    now
                } else {
                    s.last_open
                }
                &&& t.audio == s.audio.sweep(now, 500_000_000)
                &&& t.video == s.video.sweep(now, 500_000_000)
                &&& s.opens(now, s.opts.video, s.video_flowing) <==> now - s.last_open
                    >= 500_000_000 && s.client_id != 0 && s.opts.video && !s.video_flowing
                &&& s.opens(now, s.opts.audio_link, s.audio_flowing) <==> now - s.last_open
                    >= 500_000_000 && s.client_id != 0 && s.opts.audio_link && !s.audio_flowing
            }
            &&& t.connected == s.connected && t.client_id == s.client_id && t.msg_id == s.msg_id
            &&& t.audio_flowing == s.audio_flowing && t.video_flowing == s.video_flowing
        }),
{
}

/// A frame that stands alone goes out on the control stream, is no piece of a message and takes no
/// sequence number; the datagram that opens a media stream has a header alone, which names the
/// client and the number of pieces 65535 that no message has.
pub proof fn law_frame_stands_alone(kind: FrameKind, payload: Option<PayloadView>, client_id: u32)
    ensures
        ({
            let f = plain_frame(kind, payload);
            &&& f.stream == Some(Stream::Ctrl) && f.kind == Some(kind) && f.payload == payload
            &&& f.seq == 0 && f.msg_id == 0 && f.frag == 0 && f.frag_total == 0
            &&& open_datagram(client_id).client_id == client_id
            &&& open_datagram(client_id).frag_total == 65535
            &&& open_datagram(client_id).payload.len() == 0
            &&& open_datagram(client_id).msg_id == 0 && open_datagram(client_id).flags == 0
        }),
{
}

/// A session begins unconnected, with nothing sent, received or put together; its first message and
/// its first fragment have the number 1.
pub proof fn law_session_begins_with_nothing(scid: Seq<char>, opts: ConnectOpts, now: u64)
    ensures
        ({
            let s = SessionState::fresh(scid, opts, now);
            &&& s.scid == scid && s.opts == opts
            &&& !s.connected && !s.closed && s.hello_ack is None && s.client_id == 0
            &&& !s.audio_flowing && !s.video_flowing && !s.ack_owed
            &&& s.tx.next_seq == 1 && s.tx.window.len() == 0 && s.tx.held.len() == 0
            &&& !s.tx.stalled
            &&& s.rx.next_seq == 1 && s.rx.buf.dom().is_empty() && !s.rx.dead
            &&& s.audio.last_seq == 0 && s.audio.parts.dom().is_empty()
            &&& s.video.last_seq == 0 && s.video.parts.dom().is_empty()
            &&& s.msg_id == 1
            &&& s.last_heartbeat == now && s.last_open == now && s.last_pressure == now
        }),
{
}

/// A warning comes where something is sent again while eight fragments or more are on their way, and
/// at most every two seconds.
pub proof fn law_warnings_are_two_seconds_apart(s: SessionState, now: u64)
    requires
        s.last_pressure <= now,
    ensures
        s.warns(now) <==> resent_frames(s.tx.window, now).len() > 0 && s.tx.window.len() >= 8 && now
            - s.last_pressure >= 2_000_000_000,
        s.after_ctrl(now).last_pressure == if s.warns(now) {
            now
        } else {
            s.last_pressure
        },
        s.warns(now) ==> !s.after_ctrl(now).warns(now),
{
}

} // verus!
