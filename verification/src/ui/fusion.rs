//! Windows that show one application each: which display they ask for, what they pass on to
//! the page that draws, and which input they pass on to the phone.
use crate::proto::codec::{MEDIA_FLAG_KEYFRAME, MEDIA_STREAM_VIDEO};
use crate::proto::messages::{CtrlMsg, Msg};
use crate::proto::msgs;
use crate::proto::session::{ConnectOpts, Event};
use crate::text::{cat2, chars_of, find, find_char, number, parse_number, same, string_of};
use crate::viewer::control::POINTER_ID_MOUSE;
use vstd::prelude::*;

verus! {

/// The density of a display where none is given.
pub const DEFAULT_DPI: u32 = 160;

/// The display that a new window asks for.
pub const DISPLAY_SPEC: &'static str = "1280x960/160";

/// How long the server has to make the display.
pub const READY_TIMEOUT: u64 = 10_000_000_000;

/// The density that follows the first `/`, up to the next.
pub open spec fn dpi_of(s: Seq<char>) -> nat {
    let slash = find(s, '/');
    let rest = s.skip(slash as int + 1);
    if slash == s.len() {
        DEFAULT_DPI as nat
    } else {
        match number(rest.take(find(rest, '/') as int), 0xFFFF_FFFF) {
            Some(n) => n,
            None => DEFAULT_DPI as nat,
        }
    }
}

/// The display that `s` describes: width, height, density.
pub open spec fn display_of(s: Seq<char>) -> Result<(nat, nat, nat), Seq<char>> {
    let dims = s.take(find(s, '/') as int);
    let x = find(dims, 'x');
    let w = dims.take(x as int);
    let h = dims.skip(x as int + 1);
    if x == dims.len() {
        Err("无效显示器规格: "@ + s)
    } else {
        match (number(w, 0xFFFF_FFFF), number(h, 0xFFFF_FFFF)) {
            (None, _) => Err("无效宽度: "@ + w),
            (Some(_), None) => Err("无效高度: "@ + h),
            (Some(a), Some(b)) => Ok((a, b, dpi_of(s))),
        }
    }
}

/// Reads a display written as `WxH/DPI`. A density that cannot be read is 160.
pub fn parse_display_spec(spec: &str) -> (r: Result<(u32, u32, u32), String>)
    ensures
        match r {
            Ok(d) => display_of(spec@) == Ok::<(nat, nat, nat), Seq<char>>(
                (d.0 as nat, d.1 as nat, d.2 as nat),
            ),
            Err(e) => display_of(spec@) == Err::<(nat, nat, nat), Seq<char>>(e@),
        },
{
    let all = chars_of(spec);
    let s: &[char] = all.as_slice();
    let slash: usize = find_char(s, '/');
    let dims: &[char] = &s[0..slash];
    assert(dims@ =~= s@.take(slash as int));
    let dpi: u32 = if slash < s.len() {
        let rest: &[char] = &s[slash + 1..s.len()];
        assert(rest@ =~= s@.skip(slash + 1));
        let end: usize = find_char(rest, '/');
        let word: &[char] = &rest[0..end];
        assert(word@ =~= rest@.take(end as int));
        match parse_number(word, 0xFFFF_FFFF) {
            Some(n) => n as u32,
            None => DEFAULT_DPI,
        }
    } else {
        DEFAULT_DPI
    };
    let x: usize = find_char(dims, 'x');
    if x == dims.len() {
        return Err(cat2("无效显示器规格: ", spec));
    }
    let w: &[char] = &dims[0..x];
    assert(w@ =~= dims@.take(x as int));
    let h: &[char] = &dims[x + 1..dims.len()];
    assert(h@ =~= dims@.skip(x + 1));
    let width: u32 = match parse_number(w, 0xFFFF_FFFF) {
        Some(n) => n as u32,
        None => {
            return Err(cat2("无效宽度: ", string_of(w).as_str()));
        },
    };
    let height: u32 = match parse_number(h, 0xFFFF_FFFF) {
        Some(n) => n as u32,
        None => {
            return Err(cat2("无效高度: ", string_of(h).as_str()));
        },
    };
    Ok((width, height, dpi))
}

/// How a window connects: with this identifier, only for video, and then asks for a display.
#[derive(Debug, Clone)]
pub struct StartPlan {
    pub scid: String,
    pub opts: ConnectOpts,
    pub create: CtrlMsg,
}

/// The display of a new window is 1280 x 960 with a density of 160.
proof fn lemma_display_spec()
    ensures
        display_of(DISPLAY_SPEC@) == Ok::<(nat, nat, nat), Seq<char>>((1280, 960, 160)),
{
    let s = DISPLAY_SPEC@;
    reveal_strlit("1280x960/160");
    assert(s.len() == 12);
    crate::text::lemma_find(s, '/');
    assert(s[8] == '/');
    assert(find(s, '/') == 8);
    let dims = s.take(8);
    crate::text::lemma_find(dims, 'x');
    assert(dims[4] == 'x');
    assert(find(dims, 'x') == 4);
    let rest = s.skip(9);
    crate::text::lemma_find(rest, '/');
    assert(find(rest, '/') == 3);
    reveal_with_fuel(crate::text::digits_value, 5);
    let w = dims.take(4);
    assert(w =~= seq!['1', '2', '8', '0']);
    assert(crate::text::number(w, 0xFFFF_FFFF) == Some(1280nat));
    let h = dims.skip(5);
    assert(h =~= seq!['9', '6', '0']);
    assert(crate::text::number(h, 0xFFFF_FFFF) == Some(960nat));
    let d = rest.take(3);
    assert(d =~= seq!['1', '6', '0']);
    assert(crate::text::number(d, 0xFFFF_FFFF) == Some(160nat));
}

/// How a window connects to the server on `port`.
pub fn fusion_start(port: u16) -> (r: Result<StartPlan, String>)
    ensures
        r matches Ok(p) && {
            &&& p.scid@ == crate::text::hex(crate::scrcpy::scid(port) as nat, 8)
            &&& !p.opts.audio_link && !p.opts.hello_audio && p.opts.video
            &&& p.create.msg == Some(
                Msg::CreateDisplay(
                    crate::proto::messages::CreateDisplay { width: 1280, height: 960, dpi: 160 },
                ),
            )
        },
{
    proof {
        lemma_display_spec();
    }
    match parse_display_spec(DISPLAY_SPEC) {
        Ok((w, h, dpi)) => Ok(
            StartPlan {
                scid: crate::scrcpy::scid_hex(port),
                opts: ConnectOpts { audio_link: false, hello_audio: false, video: true },
                create: msgs::create_display(w, h, dpi),
            },
        ),
        Err(e) => Err(e),
    }
}

/// What to do next while the display is being made.
#[derive(Debug, Clone)]
pub enum WaitStep {
    /// Wait 25 milliseconds, then look for the next event.
    Sleep,
    /// The display is there; the application is to be started on it.
    Ready { display_id: u32 },
    /// It will not be; the session is to be closed.
    Failed(String),
}

/// What to do on `event`, which is `None` where there is none at the moment. That the time
/// is over is seen before the event.
pub fn await_ready(event: Option<Event>, now: u64, deadline: u64) -> (r: WaitStep)
    ensures
        if now > deadline {
            r matches WaitStep::Failed(e) && e@ == "等待 DisplayReady 超时"@
        } else {
            match event {
                Some(Event::Error(e)) => r matches WaitStep::Failed(t) && t@ == "会话错误: "@
                    + e@,
                Some(e) => r == match crate::viewer::server::announced(e) {
                    Some(v) => WaitStep::Ready { display_id: v.display_id },
                    None => WaitStep::Sleep,
                },
                None => r == WaitStep::Sleep,
            }
        },
{
    if now > deadline {
        return WaitStep::Failed("等待 DisplayReady 超时".to_owned());
    }
    match event {
        Some(Event::Error(e)) => WaitStep::Failed(cat2("会话错误: ", e.as_str())),
        Some(Event::Control(m)) => match m.msg {
            Some(Msg::DisplayReady(d)) => WaitStep::Ready { display_id: d.display_id },
            _ => WaitStep::Sleep,
        },
        _ => WaitStep::Sleep,
    }
}

/// What the failure of starting the application is called.
pub fn start_app_failure(e: &str) -> (r: String)
    ensures
        r@ == "START_APP 失败: "@ + e@,
{
    cat2("START_APP 失败: ", e)
}

/// What the page that draws is given: an encoded picture, or the parameter sets.
#[derive(Debug, Clone)]
pub struct VideoFramePayload {
    pub data: Vec<u8>,
    pub pts: u64,
    pub is_key: bool,
    pub is_config: bool,
}

#[verifier::ext_equal]
pub struct PayloadView {
    pub data: Seq<u8>,
    pub pts: u64,
    pub is_key: bool,
    pub is_config: bool,
}

impl View for VideoFramePayload {
    type V = PayloadView;

    open spec fn view(&self) -> PayloadView {
        PayloadView {
            data: self.data@,
            pts: self.pts,
            is_key: self.is_key,
            is_config: self.is_config,
        }
    }
}

/// What the pump does.
#[derive(Debug, Clone)]
pub enum PumpStep {
    /// Hand this to the page.
    Pass(VideoFramePayload),
    /// Go on.
    Skip,
    /// Close the session, and forget the window.
    Stop,
}

/// What the page is given of an event: pictures, and the parameter sets of the video.
pub open spec fn passed_on(e: Event) -> Option<PayloadView> {
    match e {
        Event::Video(f) => Some(
            PayloadView {
                data: f.data@,
                pts: f.pts,
                is_key: f.flags / 2 % 2 == 1,
                is_config: false,
            },
        ),
        Event::Control(m) => match m.msg {
            Some(Msg::MediaConfig(c)) => if c.stream == MEDIA_STREAM_VIDEO {
                Some(PayloadView { data: c.data@, pts: 0, is_key: false, is_config: true })
            } else {
                None
            },
            _ => None,
        },
        _ => None,
    }
}

/// Whether `e` ends the pump.
pub open spec fn ends(e: Option<Event>) -> bool {
    match e {
        None => true,
        Some(Event::Closed) => true,
        Some(Event::Error(_)) => true,
        _ => false,
    }
}

/// What the pump does on an event of the session; `None` is its end.
pub fn on_event(event: Option<Event>) -> (r: PumpStep)
    ensures
        match r {
            PumpStep::Stop => ends(event),
            PumpStep::Skip => !ends(event) && passed_on(event->0) is None,
            PumpStep::Pass(p) => !ends(event) && passed_on(event->0) == Some(p@),
        },
{
    match event {
        Some(Event::Video(f)) => {
            let flags: u32 = f.flags;
            assert(flags & 2 == 2 * (flags / 2 % 2)) by (bit_vector);
            PumpStep::Pass(
                VideoFramePayload {
                    data: f.data,
                    pts: f.pts,
                    is_key: flags & MEDIA_FLAG_KEYFRAME != 0,
                    is_config: false,
                },
            )
        },
        Some(Event::Control(m)) => match m.msg {
            Some(Msg::MediaConfig(c)) => if c.stream == MEDIA_STREAM_VIDEO {
                PumpStep::Pass(
                    VideoFramePayload { data: c.data, pts: 0, is_key: false, is_config: true },
                )
            } else {
                PumpStep::Skip
            },
            _ => PumpStep::Skip,
        },
        Some(Event::Error(_)) => PumpStep::Stop,
        Some(Event::Closed) => PumpStep::Stop,
        None => PumpStep::Stop,
        _ => PumpStep::Skip,
    }
}

/// What is known of a window.
#[derive(Debug)]
pub struct FusionSession {
    label: String,
    display_id: u32,
}

/// The windows that are open, by their label.
#[derive(Debug)]
pub struct FusionSessions {
    sessions: Vec<FusionSession>,
}

/// What was noted last under `label`.
pub closed spec fn listed(s: Seq<FusionSession>, label: Seq<char>) -> Option<u32>
    decreases s.len(),
{
    if s.len() == 0 {
        None
    } else if s.last().label@ == label {
        Some(s.last().display_id)
    } else {
        listed(s.drop_last(), label)
    }
}

impl View for FusionSessions {
    type V = Map<Seq<char>, u32>;

    closed spec fn view(&self) -> Map<Seq<char>, u32> {
        Map::new(
            |l: Seq<char>| listed(self.sessions@, l) is Some,
            |l: Seq<char>| listed(self.sessions@, l)->0,
        )
    }
}

impl FusionSessions {
    pub fn new() -> (r: Self)
        ensures
            r@ == Map::<Seq<char>, u32>::empty(),
    {
        let r = FusionSessions { sessions: Vec::new() };
        assert(r@ =~= Map::empty());
        r
    }

    /// Notes that the window `label` has the display `display_id`, and forgets what was
    /// noted of it before.
    pub fn insert(&mut self, label: &str, display_id: u32)
        ensures
            final(self)@ == old(self)@.insert(label@, display_id),
    {
        self.fusion_close(label);
        let ghost before = self.sessions@;
        let ghost kept = self@;
        self.sessions.push(FusionSession { label: label.to_owned(), display_id });
        assert(self.sessions@.drop_last() =~= before);
        assert(self@ =~= kept.insert(label@, display_id));
        assert(self@ =~= old(self)@.insert(label@, display_id));
    }

    /// Forgets the window `label`.
    pub fn fusion_close(&mut self, label: &str)
        ensures
            final(self)@ == old(self)@.remove(label@),
    {
        let mut kept: Vec<FusionSession> = Vec::new();
        let mut i: usize = 0;
        while i < self.sessions.len()
            invariant
                i <= self.sessions@.len(),
                self.sessions@ == old(self).sessions@,
                forall|l: Seq<char>|
                    #[trigger] listed(kept@, l) == if l == label@ {
                        None
                    } else {
                        listed(self.sessions@.take(i as int), l)
                    },
            decreases self.sessions@.len() - i,
        {
            let s: &FusionSession = &self.sessions[i];
            let ghost before = kept@;
            let ghost more = self.sessions@.take(i + 1);
            assert(more.drop_last() =~= self.sessions@.take(i as int));
            assert(more.last() == self.sessions@[i as int]);
            if !same(s.label.as_str(), label) {
                kept.push(
                    FusionSession { label: s.label.as_str().to_owned(), display_id: s.display_id },
                );
                assert(kept@.drop_last() =~= before);
            }
            assert forall|l: Seq<char>| #[trigger]
                listed(kept@, l) == if l == label@ {
                    None
                } else {
                    listed(more, l)
                } by {
                assert(listed(before, l) == if l == label@ {
                    None
                } else {
                    listed(more.drop_last(), l)
                });
            }
            i += 1;
        }
        assert(self.sessions@.take(i as int) =~= self.sessions@);
        self.sessions = kept;
        assert(self@ =~= old(self)@.remove(label@));
    }

    /// The display of the window `label`.
    pub fn fusion_ctrl(&self, label: &str) -> (r: Result<u32, String>)
        ensures
            match r {
                Ok(d) => self@.dom().contains(label@) && self@[label@] == d,
                Err(e) => !self@.dom().contains(label@) && e@ == "融合窗口不存在或已关闭"@,
            },
    {
        let mut i: usize = self.sessions.len();
        assert(self.sessions@.take(i as int) =~= self.sessions@);
        while i > 0
            invariant
                i <= self.sessions@.len(),
                listed(self.sessions@, label@) == listed(self.sessions@.take(i as int), label@),
            decreases i,
        {
            let ghost front = self.sessions@.take(i as int);
            assert(front.last() == self.sessions@[i - 1]);
            assert(front.drop_last() =~= self.sessions@.take(i - 1));
            if same(self.sessions[i - 1].label.as_str(), label) {
                return Ok(self.sessions[i - 1].display_id);
            }
            i -= 1;
        }
        Err("融合窗口不存在或已关闭".to_owned())
    }

    /// The message for a touch in the window `label`; `pressure` is the bits of a number.
    #[allow(clippy::too_many_arguments)]
    pub fn fusion_touch(
        &self,
        label: &str,
        action: u32,
        x: i32,
        y: i32,
        screen_width: u32,
        screen_height: u32,
        pressure: u32,
    ) -> (r: Result<CtrlMsg, String>)
        ensures
            match r {
                Ok(m) => self@.dom().contains(label@) && m.msg == Some(
                    Msg::InjectTouch(
                        crate::proto::messages::InjectTouch {
                            display_id: self@[label@],
                            action,
                            pointer_id: POINTER_ID_MOUSE,
                            x,
                            y,
                            screen_width,
                            screen_height,
                            pressure,
                            action_button: 0,
                            buttons: 0,
                        },
                    ),
                ),
                Err(e) => !self@.dom().contains(label@) && e@ == "融合窗口不存在或已关闭"@,
            },
    {
        match self.fusion_ctrl(label) {
            Ok(d) => Ok(
                msgs::inject_touch(
                    d,
                    action,
                    POINTER_ID_MOUSE,
                    x,
                    y,
                    screen_width,
                    screen_height,
                    pressure,
                    0,
                    0,
                ),
            ),
            Err(e) => Err(e),
        }
    }

    /// The message for a turn of the wheel; the distances are the bits of numbers.
    #[allow(clippy::too_many_arguments)]
    pub fn fusion_scroll(
        &self,
        label: &str,
        x: i32,
        y: i32,
        screen_width: u32,
        screen_height: u32,
        scroll_x: u32,
        scroll_y: u32,
    ) -> (r: Result<CtrlMsg, String>)
        ensures
            match r {
                Ok(m) => self@.dom().contains(label@) && m.msg == Some(
                    Msg::InjectScroll(
                        crate::proto::messages::InjectScroll {
                            display_id: self@[label@],
                            x,
                            y,
                            screen_width,
                            screen_height,
                            hscroll: scroll_x,
                            vscroll: scroll_y,
                            buttons: 0,
                        },
                    ),
                ),
                Err(e) => !self@.dom().contains(label@) && e@ == "融合窗口不存在或已关闭"@,
            },
    {
        match self.fusion_ctrl(label) {
            Ok(d) => Ok(
                msgs::inject_scroll(d, x, y, screen_width, screen_height, scroll_x, scroll_y, 0),
            ),
            Err(e) => Err(e),
        }
    }

    /// The message for a key.
    pub fn fusion_key(&self, label: &str, action: u32, keycode: u32) -> (r: Result<CtrlMsg, String>)
        ensures
            match r {
                Ok(m) => self@.dom().contains(label@) && m.msg == Some(
                    Msg::InjectKeycode(
                        crate::proto::messages::InjectKeycode {
                            display_id: self@[label@],
                            action,
                            keycode,
                            repeat: 0,
                            meta_state: 0,
                        },
                    ),
                ),
                Err(e) => !self@.dom().contains(label@) && e@ == "融合窗口不存在或已关闭"@,
            },
    {
        match self.fusion_ctrl(label) {
            Ok(d) => Ok(msgs::inject_keycode(d, action, keycode, 0, 0)),
            Err(e) => Err(e),
        }
    }

    /// The message for text that was typed.
    pub fn fusion_text(&self, label: &str, text: &str) -> (r: Result<CtrlMsg, String>)
        ensures
            match r {
                Ok(m) => self@.dom().contains(label@) && (m.msg matches Some(Msg::InjectText(t))
                    && t.display_id == self@[label@] && t.text@ == text@),
                Err(e) => !self@.dom().contains(label@) && e@ == "融合窗口不存在或已关闭"@,
            },
    {
        match self.fusion_ctrl(label) {
            Ok(d) => Ok(msgs::inject_text(d, text)),
            Err(e) => Err(e),
        }
    }

    /// The message for the back key.
    pub fn fusion_back(&self, label: &str, action: u32) -> (r: Result<CtrlMsg, String>)
        ensures
            match r {
                Ok(m) => self@.dom().contains(label@) && m.msg == Some(
                    Msg::BackOrScreenOn(
                        crate::proto::messages::BackOrScreenOn {
                            display_id: self@[label@],
                            action,
                        },
                    ),
                ),
                Err(e) => !self@.dom().contains(label@) && e@ == "融合窗口不存在或已关闭"@,
            },
    {
        match self.fusion_ctrl(label) {
            Ok(d) => Ok(msgs::back_or_screen_on(d, action)),
            Err(e) => Err(e),
        }
    }

    /// The message that asks for a display of another size.
    pub fn fusion_resize(&self, label: &str, width: u32, height: u32) -> (r: Result<
        CtrlMsg,
        String,
    >)
        ensures
            match r {
                Ok(m) => self@.dom().contains(label@) && m.msg == Some(
                    Msg::ResizeDisplay(
                        crate::proto::messages::ResizeDisplay {
                            display_id: self@[label@],
                            width,
                            height,
                        },
                    ),
                ),
                Err(e) => !self@.dom().contains(label@) && e@ == "融合窗口不存在或已关闭"@,
            },
    {
        match self.fusion_ctrl(label) {
            Ok(d) => Ok(msgs::resize_display(d, width, height)),
            Err(e) => Err(e),
        }
    }
}

} // verus!
