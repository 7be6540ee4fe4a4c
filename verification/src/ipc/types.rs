//! Frames between the daemon and its window: four bytes of length (the least significant
//! first), one byte of type, and the payload.
use crate::text::{cat2, copy_text, decimal_text};
use bytes::{Buf, BufMut};
use vstd::prelude::*;

verus! {

pub const FRAME_TYPE_REQUEST: u8 = 0;

pub const FRAME_TYPE_RESPONSE: u8 = 1;

pub const FRAME_TYPE_EVENT: u8 = 2;

/// Kept for later.
pub const FRAME_TYPE_AUDIO: u8 = 3;

/// The buffer that frames are read from and written to.
#[verifier::external_type_specification]
#[verifier::external_body]
pub struct ExBytesMut(bytes::BytesMut);

/// The bytes that a buffer holds.
pub uninterp spec fn buffered(b: bytes::BytesMut) -> Seq<u8>;

/// `bytes::BytesMut::len`: how many bytes the buffer holds.
#[verifier::external_body]
fn buffer_len(b: &bytes::BytesMut) -> (r: usize)
    ensures
        r == buffered(*b).len(),
{
    b.len()
}

/// The slice that `bytes::BytesMut` gives of its bytes, from `from` to `to`, copied.
#[verifier::external_body]
fn buffer_part(b: &bytes::BytesMut, from: usize, to: usize) -> (r: Vec<u8>)
    requires
        from <= to <= buffered(*b).len(),
    ensures
        r@ == buffered(*b).subrange(from as int, to as int),
{
    b[from..to].to_vec()
}

/// `bytes::Buf::advance` of `bytes::BytesMut`: takes bytes off the front.
#[verifier::external_body]
fn buffer_advance(b: &mut bytes::BytesMut, n: usize)
    requires
        n <= buffered(*old(b)).len(),
    ensures
        buffered(*final(b)) == buffered(*old(b)).skip(n as int),
{
    b.advance(n);
}

/// `bytes::BytesMut::reserve`: makes room and leaves the bytes as they are. It panics where
/// what it would have to allocate is more than memory can address. The allocation may still
/// hold bytes that were taken off the front, of which nothing is said here: such a buffer
/// would have to fill the better part of the address space.
#[verifier::external_body]
fn buffer_reserve(b: &mut bytes::BytesMut, n: usize)
    requires
        buffered(*old(b)).len() + n <= isize::MAX,
    ensures
        buffered(*final(b)) == buffered(*old(b)),
{
    b.reserve(n);
}

/// `bytes::BufMut::put_u32_le` of `bytes::BytesMut`: appends a number, the least significant
/// byte first.
#[verifier::external_body]
fn buffer_put_u32_le(b: &mut bytes::BytesMut, x: u32)
    requires
        buffered(*old(b)).len() + 4 <= isize::MAX,
    ensures
        buffered(*final(b)) == buffered(*old(b)) + crate::wire::le_bytes(x as nat, 4),
{
    b.put_u32_le(x);
}

/// `bytes::BufMut::put_u8` of `bytes::BytesMut`: appends a byte.
#[verifier::external_body]
fn buffer_put_u8(b: &mut bytes::BytesMut, x: u8)
    requires
        buffered(*old(b)).len() + 1 <= isize::MAX,
    ensures
        buffered(*final(b)) == buffered(*old(b)).push(x),
{
    b.put_u8(x);
}

/// `bytes::BytesMut::extend_from_slice`: appends bytes.
#[verifier::external_body]
fn buffer_extend(b: &mut bytes::BytesMut, s: &[u8])
    requires
        buffered(*old(b)).len() + s@.len() <= isize::MAX,
    ensures
        buffered(*final(b)) == buffered(*old(b)) + s@,
{
    b.extend_from_slice(s);
}

/// The bytes of a frame. A payload that is too long for its length field is given the low
/// bytes of its length.
pub open spec fn frame_wire(frame_type: u8, payload: Seq<u8>) -> Seq<u8> {
    crate::wire::le_bytes(payload.len(), 4).push(frame_type) + payload
}

/// How long the frame at the beginning of `b` is, where its head is there.
pub open spec fn frame_len(b: Seq<u8>) -> nat {
    5 + crate::wire::le_value(b.subrange(0, 4))
}

/// The frame at the beginning of `b`, where all of it is there.
pub open spec fn first_frame(b: Seq<u8>) -> Option<(u8, Seq<u8>)> {
    if b.len() < 5 || b.len() < frame_len(b) {
        None
    } else {
        Some((b[4], b.subrange(5, frame_len(b) as int)))
    }
}

/// Reads and writes frames.
#[derive(Debug, Clone, Copy, PartialEq, Eq, Structural)]
pub struct FrameCodec;

impl Default for FrameCodec {
    fn default() -> (r: Self)
        ensures
            r == FrameCodec,
    {
        FrameCodec
    }
}

impl FrameCodec {
    /// Takes the first frame out of the buffer, once all of it is there. Reading never
    /// fails.
    pub fn decode(&mut self, src: &mut bytes::BytesMut) -> (r: Result<
        Option<(u8, Vec<u8>)>,
        std::io::Error,
    >)
        ensures
            match first_frame(buffered(*old(src))) {
                Some((t, p)) => {
                    &&& r matches Ok(Some(f))
                    &&& f.0 == t
                    &&& f.1@ == p
                    &&& buffered(*final(src)) == buffered(*old(src)).skip(
                        frame_len(buffered(*old(src))) as int,
                    )
                },
                None => r matches Ok(None) && buffered(*final(src)) == buffered(*old(src)),
            },
    {
        let have: usize = buffer_len(src);
        if have < 5 {
            return Ok(None);
        }
        let head = buffer_part(src, 0, 5);
        let ghost all = buffered(*src);
        proof {
            assert(head@.subrange(0, 4) =~= all.subrange(0, 4));
            crate::wire::lemma_le_value_bound(all.subrange(0, 4));
            crate::wire::lemma_pow256_values();
        }
        let len: u64 = crate::wire::read_le(head.as_slice(), 0, 4);
        let total: u64 = 5 + len;
        if (have as u64) < total {
            if total <= isize::MAX as u64 {
                buffer_reserve(src, (total - have as u64) as usize);
            }
            return Ok(None);
        }
        let frame_type: u8 = head[4];
        let payload = buffer_part(src, 5, total as usize);
        buffer_advance(src, total as usize);
        Ok(Some((frame_type, payload)))
    }

    /// Appends a frame to the buffer. Writing never fails.
    pub fn encode(&mut self, item: (u8, Vec<u8>), dst: &mut bytes::BytesMut) -> (r: Result<
        (),
        std::io::Error,
    >)
        requires
            buffered(*old(dst)).len() + 5 + item.1@.len() <= isize::MAX,
        ensures
            r is Ok,
            buffered(*final(dst)) == buffered(*old(dst)) + frame_wire(item.0, item.1@),
    {
        let (frame_type, payload) = item;
        let ghost before = buffered(*dst);
        let low: u64 = payload.len() as u64 % 0x1_0000_0000;
        proof {
            lemma_low_bytes(payload@.len());
            crate::wire::lemma_le_bytes_len(payload@.len(), 4);
        }
        buffer_put_u32_le(dst, low as u32);
        buffer_put_u8(dst, frame_type);
        buffer_extend(dst, payload.as_slice());
        assert(buffered(*dst) =~= before + frame_wire(frame_type, payload@));
        Ok(())
    }
}

proof fn lemma_low_bytes(x: nat)
    ensures
        crate::wire::le_bytes(x % 0x1_0000_0000, 4) == crate::wire::le_bytes(x, 4),
{
    let y = x % 0x1_0000_0000;
    reveal_with_fuel(crate::wire::le_bytes, 5);
    assert(y % 256 == x % 256);
    assert((y / 256) % 256 == (x / 256) % 256);
    assert((y / 256 / 256) % 256 == (x / 256 / 256) % 256);
    assert((y / 256 / 256 / 256) % 256 == (x / 256 / 256 / 256) % 256);
    assert(crate::wire::le_bytes(y, 4) =~= crate::wire::le_bytes(x, 4));
}

/// A frame that was written is read back as it was, whatever stands behind it, and what
/// stands behind it stays. So any number of frames can stand in one buffer.
pub proof fn law_frame_is_read_back(frame_type: u8, payload: Seq<u8>, rest: Seq<u8>)
    requires
        payload.len() <= u32::MAX,
    ensures
        ({
            let b = frame_wire(frame_type, payload) + rest;
            &&& first_frame(b) == Some((frame_type, payload))
            &&& b.skip(frame_len(b) as int) == rest
        }),
{
    let b = frame_wire(frame_type, payload) + rest;
    crate::wire::lemma_le_bytes_len(payload.len(), 4);
    crate::wire::lemma_pow256_values();
    crate::wire::law_le_value_of_le_bytes(payload.len(), 4);
    assert(b.subrange(0, 4) =~= crate::wire::le_bytes(payload.len(), 4));
    assert(b.subrange(5, frame_len(b) as int) =~= payload);
    assert(b.skip(frame_len(b) as int) =~= rest);
}

/// A frame of which something is missing is not read.
pub proof fn law_cut_frame_is_not_read(frame_type: u8, payload: Seq<u8>, n: nat)
    requires
        payload.len() <= u32::MAX,
        n < frame_wire(frame_type, payload).len(),
    ensures
        first_frame(frame_wire(frame_type, payload).take(n as int)) is None,
{
    let w = frame_wire(frame_type, payload);
    let b = w.take(n as int);
    crate::wire::lemma_le_bytes_len(payload.len(), 4);
    crate::wire::lemma_pow256_values();
    crate::wire::law_le_value_of_le_bytes(payload.len(), 4);
    if n >= 5 {
        assert(b.subrange(0, 4) =~= crate::wire::le_bytes(payload.len(), 4));
    }
}

/// What is told of a session.
#[derive(Debug, Clone)]
pub struct SessionSummary {
    pub uuid: u128,
    pub id: String,
    pub serial: String,
    pub name: String,
    /// How the device stands with adb.
    pub state: String,
    /// connecting, running, failed or stopped.
    pub session_state: String,
    pub clipboard_sync: bool,
    pub notification_sync: bool,
    pub audio_enabled: bool,
    /// In percent.
    pub volume: u16,
    /// How much audio is waiting to be played, in milliseconds.
    pub audio_buffer_ms: u64,
}

/// What is told of a session, as the contracts speak of it.
#[verifier::ext_equal]
pub struct Summary {
    pub uuid: u128,
    pub id: Seq<char>,
    pub serial: Seq<char>,
    pub name: Seq<char>,
    pub state: Seq<char>,
    pub session_state: Seq<char>,
    pub clipboard_sync: bool,
    pub notification_sync: bool,
    pub audio_enabled: bool,
    pub volume: u16,
    pub audio_buffer_ms: u64,
}

impl View for SessionSummary {
    type V = Summary;

    open spec fn view(&self) -> Summary {
        Summary {
            uuid: self.uuid,
            id: self.id@,
            serial: self.serial@,
            name: self.name@,
            state: self.state@,
            session_state: self.session_state@,
            clipboard_sync: self.clipboard_sync,
            notification_sync: self.notification_sync,
            audio_enabled: self.audio_enabled,
            volume: self.volume,
            audio_buffer_ms: self.audio_buffer_ms,
        }
    }
}

pub open spec fn summary_views(v: Seq<SessionSummary>) -> Seq<Summary> {
    v.map_values(|s: SessionSummary| s@)
}

/// The sessions, as they are told.
#[derive(Debug, Clone)]
pub struct SessionListData {
    pub sessions: Vec<SessionSummary>,
}

/// What the clipboard holds, and where that came from.
#[derive(Debug)]
pub struct ClipboardData {
    pub text: String,
    pub serial: String,
}

/// A notification of a device.
#[derive(Debug)]
pub struct NotifData {
    pub serial: String,
    pub title: String,
    pub text: String,
    pub app: String,
}

/// What the daemon tells a window of its own accord.
#[derive(Debug)]
#[allow(inconsistent_fields)]
pub enum Event {
    DeviceUpdated { data: Vec<crate::types::Device> },
    AdbUpdated { data: Vec<crate::types::Device> },
    SessionUpdated { data: SessionListData },
    ClipboardChanged { data: ClipboardData },
    Notification { data: NotifData },
}

impl Event {
    /// What the event is called.
    pub open spec fn called(self) -> Seq<char> {
        match self {
            Event::DeviceUpdated { .. } => "device.updated"@,
            Event::AdbUpdated { .. } => "adb.updated"@,
            Event::SessionUpdated { .. } => "session.updated"@,
            Event::ClipboardChanged { .. } => "clipboard.changed"@,
            Event::Notification { .. } => "notification"@,
        }
    }

    pub fn name(&self) -> (r: &'static str)
        ensures
            r@ == self.called(),
    {
        match self {
            Event::DeviceUpdated { .. } => "device.updated",
            Event::AdbUpdated { .. } => "adb.updated",
            Event::SessionUpdated { .. } => "session.updated",
            Event::ClipboardChanged { .. } => "clipboard.changed",
            Event::Notification { .. } => "notification",
        }
    }
}

/// The error of `serde_json`, which is carried along and never looked into.
#[verifier::external_type_specification]
#[verifier::external_body]
pub struct ExJsonError(serde_json::Error);

/// `serde_json::Error::to_string`. The text is the error's own; nothing is said of it.
#[verifier::external_body]
fn json_error_text(e: &serde_json::Error) -> (r: String) {
    e.to_string()
}

/// What can go wrong between the daemon and its window.
#[derive(Debug)]
pub enum IpcError {
    Io(std::io::Error),
    Serde(serde_json::Error),
    UnknownFrameType(u8),
    MethodNotFound(String),
    InvalidParams(String),
}

impl IpcError {
    /// `r` is how the error is told. Of an error that carries another, only what stands
    /// before the text of that other is fixed.
    pub open spec fn told_as(self, r: Seq<char>) -> bool {
        match self {
            IpcError::Io(_) => exists|cause: Seq<char>| r == #[trigger] ("io error: "@ + cause),
            IpcError::Serde(_) => exists|cause: Seq<char>|
                r == #[trigger] ("serialization error: "@ + cause),
            IpcError::UnknownFrameType(t) => r == "unknown frame type: "@ + crate::text::decimal(
                t as nat,
            ),
            IpcError::MethodNotFound(m) => r == "method not found: "@ + m@,
            IpcError::InvalidParams(m) => r == "invalid params: "@ + m@,
        }
    }

    /// How the error is told.
    pub fn to_string(&self) -> (r: String)
        ensures
            self.told_as(r@),
    {
        match self {
            IpcError::Io(e) => {
                let cause = crate::types::io_error_text(e);
                cat2("io error: ", cause.as_str())
            },
            IpcError::Serde(e) => {
                let cause = json_error_text(e);
                cat2("serialization error: ", cause.as_str())
            },
            IpcError::UnknownFrameType(t) => cat2(
                "unknown frame type: ",
                decimal_text(*t as u64).as_str(),
            ),
            IpcError::MethodNotFound(m) => cat2("method not found: ", m.as_str()),
            IpcError::InvalidParams(m) => cat2("invalid params: ", m.as_str()),
        }
    }
}

impl SessionSummary {
    pub fn duplicate(&self) -> (r: Self)
        ensures
            r@ == self@,
    {
        SessionSummary {
            uuid: self.uuid,
            id: copy_text(&self.id),
            serial: copy_text(&self.serial),
            name: copy_text(&self.name),
            state: copy_text(&self.state),
            session_state: copy_text(&self.session_state),
            clipboard_sync: self.clipboard_sync,
            notification_sync: self.notification_sync,
            audio_enabled: self.audio_enabled,
            volume: self.volume,
            audio_buffer_ms: self.audio_buffer_ms,
        }
    }
}

} // verus!
