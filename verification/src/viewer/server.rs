//! Connecting to the server on the phone and making it a display.
use crate::proto::messages::{CtrlMsg, Msg};
use crate::proto::session::Event;
use crate::text::{cat2, chars_of, find, find_char, number, parse_number, string_of, trim, trimmed};
use vstd::prelude::*;

verus! {

/// What the identifier of every session begins with.
pub const SCID_PREFIX: u32 = 0x4B4C_0000;

/// How long the server has to make the display.
pub const READY_TIMEOUT: u64 = 5_000_000_000;

/// The identifier of the session on port `port`: eight hexadecimal digits.
pub fn scid_for_port(port: u16) -> (r: String)
    ensures
        r@ == crate::text::hex((SCID_PREFIX + port) as nat, 8),
{
    crate::scrcpy::scid_hex(port)
}

/// A display: its size and its density.
pub open spec fn display_of(s: Seq<char>) -> Result<(int, int, int), Seq<char>> {
    let slash = find(s, '/');
    let size = s.take(slash as int);
    let dpi = s.skip(slash as int + 1);
    let x = find(size, 'x');
    let w = size.take(x as int);
    let h = size.skip(x as int + 1);
    if slash == s.len() || x == size.len() {
        Err("非法显示器规格（应为 WxH/DPI）: "@ + s)
    } else {
        match (
            number(trimmed(w), 0xFFFF),
            number(trimmed(h), 0xFFFF),
            number(trimmed(dpi), 0xFFFF),
        ) {
            (None, _, _) => Err("非法宽度: "@ + w),
            (Some(_), None, _) => Err("非法高度: "@ + h),
            (Some(_), Some(_), None) => Err("非法 DPI: "@ + dpi),
            (Some(a), Some(b), Some(c)) => if a == 0 || b == 0 || c == 0 {
                Err("显示器规格必须为正数: "@ + s)
            } else {
                Ok((a as int, b as int, c as int))
            },
        }
    }
}

/// Reads a display written as `WxH/DPI`.
pub fn parse_display(display: &str) -> (r: Result<(u16, u16, u16), String>)
    ensures
        match r {
            Ok(d) => display_of(display@) == Ok::<(int, int, int), Seq<char>>(
                (d.0 as int, d.1 as int, d.2 as int),
            ),
            Err(e) => display_of(display@) == Err::<(int, int, int), Seq<char>>(e@),
        },
{
    let all = chars_of(display);
    let s: &[char] = all.as_slice();
    let slash: usize = find_char(s, '/');
    if slash == s.len() {
        return Err(cat2("非法显示器规格（应为 WxH/DPI）: ", display));
    }
    let size: &[char] = &s[0..slash];
    assert(size@ =~= s@.take(slash as int));
    let dpi: &[char] = &s[slash + 1..s.len()];
    assert(dpi@ =~= s@.skip(slash + 1));
    let x: usize = find_char(size, 'x');
    if x == size.len() {
        return Err(cat2("非法显示器规格（应为 WxH/DPI）: ", display));
    }
    let w: &[char] = &size[0..x];
    assert(w@ =~= size@.take(x as int));
    let h: &[char] = &size[x + 1..size.len()];
    assert(h@ =~= size@.skip(x + 1));
    let a: u16 = match parse_number(trim(w), 0xFFFF) {
        Some(a) => a as u16,
        None => {
            return Err(cat2("非法宽度: ", string_of(w).as_str()));
        },
    };
    let b: u16 = match parse_number(trim(h), 0xFFFF) {
        Some(b) => b as u16,
        None => {
            return Err(cat2("非法高度: ", string_of(h).as_str()));
        },
    };
    let c: u16 = match parse_number(trim(dpi), 0xFFFF) {
        Some(c) => c as u16,
        None => {
            return Err(cat2("非法 DPI: ", string_of(dpi).as_str()));
        },
    };
    if a == 0 || b == 0 || c == 0 {
        return Err(cat2("显示器规格必须为正数: ", display));
    }
    Ok((a, b, c))
}

/// A display that is read has a positive size and density.
pub proof fn law_display_is_positive(s: Seq<char>)
    ensures
        display_of(s) matches Ok(d) ==> 0 < d.0 <= 0xFFFF && 0 < d.1 <= 0xFFFF && 0 < d.2
            <= 0xFFFF,
{
}

/// What to do next while the display is being made.
#[derive(Debug, Clone)]
pub enum ReadyStep {
    /// Look for the next event at once.
    Next,
    /// Wait ten milliseconds, then look again.
    Sleep,
    /// The display is there.
    Ready(ViewerSession),
    /// It will not be; `close` is whether the session is still to be closed.
    Failed { reason: String, close: bool },
}

/// A viewer that has its display.
#[derive(Debug, Clone, Copy, PartialEq, Eq, Structural)]
pub struct ViewerSession {
    /// The display that the server made.
    pub display_id: u32,
    /// How its pictures are encoded.
    pub codec_id: u32,
}

/// The display that `event` announces.
pub open spec fn announced(event: Event) -> Option<ViewerSession> {
    match event {
        Event::Control(m) => match m.msg {
            Some(Msg::DisplayReady(d)) => Some(
                ViewerSession { display_id: d.display_id, codec_id: d.codec_id },
            ),
            _ => None,
        },
        _ => None,
    }
}

impl ViewerSession {
    /// How to connect: the identifier to greet with, and the display to ask for once the
    /// handshake is done.
    pub fn connect(port: u16, display: &str) -> (r: Result<(String, CtrlMsg), String>)
        ensures
            match r {
                Ok(p) => {
                    &&& p.0@ == crate::text::hex((SCID_PREFIX + port) as nat, 8)
                    &&& p.1.msg matches Some(Msg::CreateDisplay(c)) && display_of(display@) == Ok::<
                        (int, int, int),
                        Seq<char>,
                    >((c.width as int, c.height as int, c.dpi as int))
                },
                Err(e) => display_of(display@) == Err::<(int, int, int), Seq<char>>(e@),
            },
    {
        match parse_display(display) {
            Ok((w, h, dpi)) => Ok(
                (
                    scid_for_port(port),
                    crate::proto::msgs::create_display(w as u32, h as u32, dpi as u32),
                ),
            ),
            Err(e) => Err(e),
        }
    }

    /// What to do on `event`, which is `None` where there is none at the moment. `deadline`
    /// is when the display must have been announced.
    pub fn await_ready(event: Option<Event>, now: u64, deadline: u64) -> (r: ReadyStep)
        ensures
            match event {
                None => if now >= deadline {
                    r matches ReadyStep::Failed { reason, close } && reason@
                        == "等待 DisplayReady 超时（server/网络异常？）"@ && close
                } else {
                    r == ReadyStep::Sleep
                },
                Some(Event::Error(e)) => r matches ReadyStep::Failed { reason, close } && reason@
                    == "会话错误: "@ + e@ && !close,
                Some(Event::Closed) => r matches ReadyStep::Failed { reason, close } && reason@
                    == "会话被关闭"@ && !close,
                Some(e) => r == match announced(e) {
                    Some(v) => ReadyStep::Ready(v),
                    None => ReadyStep::Next,
                },
            },
    {
        match event {
            None => {
                if now >= deadline {
                    ReadyStep::Failed {
                        reason: "等待 DisplayReady 超时（server/网络异常？）".to_owned(),
                        close: true,
                    }
                } else {
                    ReadyStep::Sleep
                }
            },
            Some(Event::Error(e)) => ReadyStep::Failed {
                reason: cat2("会话错误: ", e.as_str()),
                close: false,
            },
            Some(Event::Closed) => ReadyStep::Failed {
                reason: "会话被关闭".to_owned(),
                close: false,
            },
            Some(Event::Control(m)) => match m.msg {
                Some(Msg::DisplayReady(d)) => ReadyStep::Ready(
                    ViewerSession { display_id: d.display_id, codec_id: d.codec_id },
                ),
                _ => ReadyStep::Next,
            },
            Some(_) => ReadyStep::Next,
        }
    }

    /// What the failure of sending a message is called.
    pub fn send_ctrl(failure: Option<&str>) -> (r: Result<(), String>)
        ensures
            match failure {
                None => r is Ok,
                Some(e) => r matches Err(t) && t@ == "控制通道写入失败: "@ + e@,
            },
    {
        match failure {
            None => Ok(()),
            Some(e) => Err(cat2("控制通道写入失败: ", e)),
        }
    }
}

/// What the failure of the handshake with the server at `addr` is called.
pub fn connect_failure(addr: &str, e: &str) -> (r: String)
    ensures
        r@ == "连接 "@ + addr@ + " 失败: "@ + e@,
{
    cat2(crate::text::cat3("连接 ", addr, " 失败: ").as_str(), e)
}

/// What the failure of asking for a display is called.
pub fn create_display_failure(e: &str) -> (r: String)
    ensures
        r@ == "CreateDisplay 发送失败: "@ + e@,
{
    cat2("CreateDisplay 发送失败: ", e)
}

} // verus!
