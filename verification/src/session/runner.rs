//! The loop of a session: what it does with each thing that happens.
//!
//! The loop waits for one of four things: to be stopped, its clock, the phone, the desktop's
//! clipboard. Some answers need something to be sent; whether that succeeded is handed back
//! before the loop goes on.
use super::audio::{
    AudioRuntime, AudioTarget, Issue, Link, LinkState, Progress, Reason, ACK_TIMEOUT,
};
use crate::proto::codec::{AssembledMedia, MEDIA_STREAM_AUDIO};
use crate::proto::messages::{CtrlMsg, Msg};
use crate::proto::msgs::{set_audio, set_clipboard};
use crate::proto::session::Event;
use vstd::prelude::*;

verus! {

/// What goes to the task that plays audio. Each carries its generation, so that what comes
/// late of an earlier one can be dropped.
pub enum AudioEvent {
    /// The parameters of the codec.
    Config { revision: u64, data: Vec<u8> },
    Frame { revision: u64, frame: AssembledMedia },
}

/// What has to be sent before the loop goes on.
pub enum Request {
    /// The plan goes to the phone and, once that has worked, to the task that plays.
    Audio(Issue),
    /// The phone's clipboard goes to the core.
    Forward(String),
    /// The desktop's clipboard goes to the phone.
    Clipboard(CtrlMsg),
}

/// What the loop does with one thing that happened.
pub struct Reaction {
    /// No audio is heard: the delay that is shown is set to 0.
    pub reset_latency: bool,
    pub to_player: Option<AudioEvent>,
    pub request: Option<Request>,
    /// What is shown of the audio from now on.
    pub publish: Option<AudioRuntime>,
    /// The loop is over: the session is closed.
    pub exit: bool,
}

/// What came of waiting for the desktop's clipboard.
pub enum ClipInput {
    Text(String),
    /// Some texts were missed.
    Lagged(u64),
    Closed,
}

/// What the loop waits for.
#[derive(Debug, Clone, Copy, PartialEq, Eq, Structural)]
pub enum Phase {
    Waiting,
    /// A plan is being sent, in the round of this time.
    Issuing(u64),
    /// The answer to a stall is being sent.
    Retrying,
    Forwarding,
    SettingClipboard,
    Ended,
}

/// What the loop knows.
#[verifier::ext_equal]
pub struct RunState {
    pub link: LinkState,
    pub phase: Phase,
}

impl RunState {
    /// The rest of a round of the clock: a stall may be due to be answered.
    pub open spec fn settled(self, now: u64) -> (RunState, Option<Issue>) {
        if self.link.answers_stall(now) {
            let link = self.link.issued(now, self.link.applied, Reason::Stall, 0);
            (
                RunState { link, phase: Phase::Retrying },
                Some(Issue { plan: link.plan, reason: Reason::Stall }),
            )
        } else {
            (RunState { phase: Phase::Waiting, ..self }, None)
        }
    }

    /// One round of the clock.
    pub open spec fn ticked(self, now: u64, target: AudioTarget, frames: u64) -> (
        RunState,
        Option<Issue>,
    ) {
        let (link, reason) = self.link.driven(now, target, frames);
        match reason {
            Some(reason) => (
                RunState { link, phase: Phase::Issuing(now) },
                Some(Issue { plan: link.plan, reason }),
            ),
            None => RunState { link, ..self }.settled(now),
        }
    }

    pub open spec fn ended(self) -> RunState {
        RunState { phase: Phase::Ended, ..self }
    }
}

/// What has to be sent, as the contracts speak of it.
pub enum Ask {
    Audio(Issue),
    /// This text goes to the core.
    Forward(Seq<char>),
    /// The phone's clipboard shall hold this text.
    Clipboard { sequence: u64, paste: bool, text: Seq<char> },
    Other,
}

/// What the loop does with one thing that happened, as the contracts speak of it.
#[verifier::ext_equal]
pub struct Act {
    pub reset_latency: bool,
    pub to_player: Option<super::playback::Heard>,
    pub request: Option<Ask>,
    pub publish: Option<super::audio::Running>,
    pub exit: bool,
}

impl View for Request {
    type V = Ask;

    open spec fn view(&self) -> Ask {
        match *self {
            Request::Audio(issue) => Ask::Audio(issue),
            Request::Forward(text) => Ask::Forward(text@),
            Request::Clipboard(m) => match m.msg {
                Some(Msg::SetClipboard(c)) => Ask::Clipboard {
                    sequence: c.sequence,
                    paste: c.paste,
                    text: c.text@,
                },
                _ => Ask::Other,
            },
        }
    }
}

impl View for Reaction {
    type V = Act;

    open spec fn view(&self) -> Act {
        Act {
            reset_latency: self.reset_latency,
            to_player: match self.to_player {
                Some(e) => Some(super::playback::heard(e)),
                None => None,
            },
            request: match self.request {
                Some(r) => Some(r@),
                None => None,
            },
            publish: match self.publish {
                Some(p) => Some(p@),
                None => None,
            },
            exit: self.exit,
        }
    }
}

impl Act {
    pub open spec fn none() -> Act {
        Act { reset_latency: false, to_player: None, request: None, publish: None, exit: false }
    }

    pub open spec fn end() -> Act {
        Act { exit: true, ..Act::none() }
    }
}

impl RunState {
    /// The loop once something has come from the phone, and what it does.
    pub open spec fn met(self, event: Option<Event>, clipboard_enabled: bool) -> (RunState, Act) {
        match event {
            Some(Event::Control(CtrlMsg { msg: Some(Msg::ClipboardChanged(c)) })) => if clipboard_enabled {
                (
                    RunState { phase: Phase::Forwarding, ..self },
                    Act { request: Some(Ask::Forward(c.text@)), ..Act::none() },
                )
            } else {
                (self, Act::none())
            },
            Some(Event::Control(CtrlMsg { msg: Some(Msg::MediaConfig(c)) })) => if c.stream
                == MEDIA_STREAM_AUDIO && self.link.plan.admits(c.revision) {
                (
                    self,
                    Act {
                        to_player: Some(
                            super::playback::Heard::Config { revision: c.revision, data: c.data@ },
                        ),
                        ..Act::none()
                    },
                )
            } else {
                (self, Act::none())
            },
            Some(Event::Control(CtrlMsg { msg: Some(Msg::AudioState(s)) })) => if s.revision
                >= self.link.plan.revision {
                let link = self.link.reported(s.revision, s.enabled, s.codec_id, s.error@);
                (RunState { link, ..self }, Act { publish: Some(link.runtime), ..Act::none() })
            } else {
                (self, Act::none())
            },
            Some(Event::Audio(frame)) => (
                self,
                Act {
                    to_player: Some(
                        super::playback::Heard::Frame {
                            revision: frame.revision,
                            flags: frame.flags,
                            data: frame.data@,
                        },
                    ),
                    ..Act::none()
                },
            ),
            Some(Event::Error(_)) | Some(Event::Closed) | None => (self.ended(), Act::end()),
            _ => (self, Act::none()),
        }
    }

    /// The loop once a text came from the desktop's clipboard, and what it does.
    pub open spec fn clipped(self, text: Seq<char>, clipboard_enabled: bool) -> (RunState, Act) {
        if clipboard_enabled {
            (
                RunState { phase: Phase::SettingClipboard, ..self },
                Act {
                    request: Some(Ask::Clipboard { sequence: 0, paste: false, text }),
                    ..Act::none()
                },
            )
        } else {
            (self, Act::none())
        }
    }
}

/// What the loop does where nothing is to be done.
pub open spec fn quiet(r: Reaction) -> bool {
    !r.reset_latency && r.to_player is None && r.request is None && r.publish is None && !r.exit
}

/// What the loop does where it ends.
pub open spec fn ends(r: Reaction) -> bool {
    !r.reset_latency && r.to_player is None && r.request is None && r.publish is None && r.exit
}

fn nothing() -> (r: Reaction)
    ensures
        quiet(r),
{
    Reaction { reset_latency: false, to_player: None, request: None, publish: None, exit: false }
}

fn leave() -> (r: Reaction)
    ensures
        ends(r),
{
    Reaction { reset_latency: false, to_player: None, request: None, publish: None, exit: true }
}

/// The loop of a session.
pub struct SessionRun {
    link: Link,
    phase: Phase,
}

impl View for SessionRun {
    type V = RunState;

    closed spec fn view(&self) -> RunState {
        RunState { link: self.link@, phase: self.phase }
    }
}

impl SessionRun {
    /// The link is consistent.
    pub open spec fn wf(&self) -> bool {
        self@.link.consistent()
    }

    /// The loop of a session whose handshake is done, and what is shown of its audio.
    pub fn new(target: AudioTarget, now: u64) -> (r: (Self, AudioRuntime))
        ensures
            r.0.wf(),
            r.0@ == (RunState { link: LinkState::fresh(target, now), phase: Phase::Waiting }),
            r.1@ == r.0@.link.runtime,
    {
        let link = Link::new(target, now);
        let runtime = link.runtime();
        let r = SessionRun { link, phase: Phase::Waiting };
        assert(r@ =~= (RunState { link: LinkState::fresh(target, now), phase: Phase::Waiting }));
        (r, runtime)
    }

    pub fn phase(&self) -> (r: Phase)
        ensures
            r == self@.phase,
    {
        self.phase
    }

    /// The plan that the task that plays goes by.
    pub fn plan(&self) -> (r: super::audio::AudioPlan)
        ensures
            r == self@.link.plan,
    {
        self.link.plan()
    }

    /// The session shall stop.
    pub fn on_stop(&mut self) -> (r: Reaction)
        requires
            old(self).wf(),
        ensures
            final(self).wf(),
            final(self)@ == old(self)@.ended(),
            ends(r),
    {
        self.phase = Phase::Ended;
        leave()
    }

    fn settle(&mut self, now: u64, reset_latency: bool) -> (r: Reaction)
        requires
            old(self).wf(),
            old(self)@.link.plan.revision < u64::MAX,
            now + ACK_TIMEOUT <= u64::MAX,
        ensures
            final(self).wf(),
            final(self)@ == old(self)@.settled(now).0,
            r.reset_latency == reset_latency,
            r.to_player is None,
            !r.exit,
            match old(self)@.settled(now).1 {
                Some(issue) => r.request == Some(Request::Audio(issue)) && r.publish is None,
                None => r.request is None && (r.publish matches Some(p) && p@
                    == final(self)@.link.runtime),
            },
    {
        let ghost before = self@;
        match self.link.poll_stall_retry(now) {
            Some(issue) => {
                self.phase = Phase::Retrying;
                assert(self@ =~= before.settled(now).0);
                Reaction {
                    reset_latency,
                    to_player: None,
                    request: Some(Request::Audio(issue)),
                    publish: None,
                    exit: false,
                }
            },
            None => {
                self.phase = Phase::Waiting;
                assert(self@ =~= before.settled(now).0);
                let runtime = self.link.runtime();
                Reaction {
                    reset_latency,
                    to_player: None,
                    request: None,
                    publish: Some(runtime),
                    exit: false,
                }
            },
        }
    }

    /// One round of the clock: what the user wants now, and how many frames have been
    /// played. A plan may have to be sent. Otherwise a stall may be due to be answered, and
    /// otherwise what is known of the audio is shown.
    pub fn on_tick(&mut self, now: u64, target: AudioTarget, frames: u64) -> (r: Reaction)
        requires
            old(self).wf(),
            old(self)@.phase == Phase::Waiting,
            old(self)@.link.plan.revision < u64::MAX,
            now + ACK_TIMEOUT <= u64::MAX,
        ensures
            final(self).wf(),
            final(self)@ == old(self)@.ticked(now, target, frames).0,
            r.reset_latency == old(self)@.link.stalls(now, frames),
            r.to_player is None,
            !r.exit,
            match old(self)@.ticked(now, target, frames).1 {
                Some(issue) => r.request == Some(Request::Audio(issue)) && r.publish is None,
                None => r.request is None && (r.publish matches Some(p) && p@
                    == final(self)@.link.runtime),
            },
    {
        let ghost before = self@;
        let step = self.link.drive(now, target, Progress { frames });
        match step.issue {
            Some(issue) => {
                self.phase = Phase::Issuing(now);
                assert(self@ =~= before.ticked(now, target, frames).0);
                Reaction {
                    reset_latency: step.stalled,
                    to_player: None,
                    request: Some(Request::Audio(issue)),
                    publish: None,
                    exit: false,
                }
            },
            None => {
                assert(self@ =~= (RunState {
                    link: before.link.driven(now, target, frames).0,
                    ..before
                }));
                self.settle(now, step.stalled)
            },
        }
    }

    /// Whether what had to be sent could be sent. A session that cannot send a plan, or a
    /// clipboard in either direction, is over; an answer to a stall may be lost.
    pub fn on_sent(&mut self, ok: bool) -> (r: Reaction)
        requires
            old(self).wf(),
            old(self)@.phase != Phase::Waiting && old(self)@.phase != Phase::Ended,
            old(self)@.link.plan.revision < u64::MAX,
            old(self)@.phase matches Phase::Issuing(now) ==> now + ACK_TIMEOUT <= u64::MAX,
        ensures
            final(self).wf(),
            match old(self)@.phase {
                Phase::Issuing(now) => if ok {
                    &&& final(self)@ == old(self)@.settled(now).0
                    &&& !r.reset_latency && r.to_player is None && !r.exit
                    &&& match old(self)@.settled(now).1 {
                        Some(issue) => r.request == Some(Request::Audio(issue)) && r.publish
                            is None,
                        None => r.request is None && (r.publish matches Some(p) && p@
                            == final(self)@.link.runtime),
                    }
                } else {
                    final(self)@ == old(self)@.ended() && ends(r)
                },
                Phase::Retrying => {
                    &&& final(self)@ == (RunState { phase: Phase::Waiting, ..old(self)@ })
                    &&& !r.reset_latency && r.to_player is None && !r.exit && r.request is None
                    &&& r.publish matches Some(p) && p@ == final(self)@.link.runtime
                },
                _ => if ok {
                    final(self)@ == (RunState { phase: Phase::Waiting, ..old(self)@ }) && quiet(r)
                } else {
                    final(self)@ == old(self)@.ended() && ends(r)
                },
            },
    {
        let ghost before = self@;
        match self.phase {
            Phase::Issuing(now) => {
                if ok {
                    self.settle(now, false)
                } else {
                    self.phase = Phase::Ended;
                    leave()
                }
            },
            Phase::Retrying => {
                self.phase = Phase::Waiting;
                let runtime = self.link.runtime();
                Reaction {
                    reset_latency: false,
                    to_player: None,
                    request: None,
                    publish: Some(runtime),
                    exit: false,
                }
            },
            _ => {
                if ok {
                    self.phase = Phase::Waiting;
                    nothing()
                } else {
                    self.phase = Phase::Ended;
                    leave()
                }
            },
        }
    }

    /// Something came from the phone; `None` where the session has no more to give.
    ///
    /// The phone's clipboard is passed on while that is wanted. Parameters of a codec are
    /// passed on where they are those of the audio of the present generation: those of an
    /// earlier one would leave the decoder unable to read any frame. A report on the audio
    /// is taken unless it is of an earlier generation. An error, or the end, ends the loop.
    pub fn on_event(&mut self, event: Option<Event>, clipboard_enabled: bool) -> (r: Reaction)
        requires
            old(self).wf(),
            old(self)@.phase == Phase::Waiting,
        ensures
            final(self).wf(),
            (final(self)@, r@) == old(self)@.met(event, clipboard_enabled),
            match event {
                Some(Event::Control(CtrlMsg { msg: Some(Msg::ClipboardChanged(c)) })) => if clipboard_enabled {
                    &&& final(self)@ == (RunState { phase: Phase::Forwarding, ..old(self)@ })
                    &&& r.request == Some(Request::Forward(c.text))
                    &&& !r.reset_latency && r.to_player is None && r.publish is None && !r.exit
                } else {
                    final(self)@ == old(self)@ && quiet(r)
                },
                Some(Event::Control(CtrlMsg { msg: Some(Msg::MediaConfig(c)) })) => {
                    &&& final(self)@ == old(self)@
                    &&& if c.stream == MEDIA_STREAM_AUDIO && old(self)@.link.plan.admits(
                        c.revision,
                    ) {
                        &&& r.to_player == Some(
                            AudioEvent::Config { revision: c.revision, data: c.data },
                        )
                        &&& !r.reset_latency && r.request is None && r.publish is None && !r.exit
                    } else {
                        quiet(r)
                    }
                },
                Some(Event::Control(CtrlMsg { msg: Some(Msg::AudioState(s)) })) => if s.revision
                    >= old(self)@.link.plan.revision {
                    &&& final(self)@ == (RunState {
                        link: old(self)@.link.reported(
                            s.revision,
                            s.enabled,
                            s.codec_id,
                            s.error@,
                        ),
                        ..old(self)@
                    })
                    &&& r.publish matches Some(p) && p@ == final(self)@.link.runtime
                    &&& !r.reset_latency && r.to_player is None && r.request is None && !r.exit
                } else {
                    final(self)@ == old(self)@ && quiet(r)
                },
                Some(Event::Audio(frame)) => {
                    &&& final(self)@ == old(self)@
                    &&& r.to_player == Some(AudioEvent::Frame { revision: frame.revision, frame })
                    &&& !r.reset_latency && r.request is None && r.publish is None && !r.exit
                },
                Some(Event::Error(_)) | Some(Event::Closed) | None => final(self)@
                    == old(self)@.ended() && ends(r),
                _ => final(self)@ == old(self)@ && quiet(r),
            },
    {
        match event {
            Some(Event::Control(msg)) => match msg.msg {
                Some(Msg::ClipboardChanged(c)) => {
                    if clipboard_enabled {
                        self.phase = Phase::Forwarding;
                        Reaction {
                            reset_latency: false,
                            to_player: None,
                            request: Some(Request::Forward(c.text)),
                            publish: None,
                            exit: false,
                        }
                    } else {
                        nothing()
                    }
                },
                Some(Msg::MediaConfig(c)) => {
                    if c.stream == MEDIA_STREAM_AUDIO && self.link.plan().accepts(c.revision) {
                        Reaction {
                            reset_latency: false,
                            to_player: Some(
                                AudioEvent::Config { revision: c.revision, data: c.data },
                            ),
                            request: None,
                            publish: None,
                            exit: false,
                        }
                    } else {
                        nothing()
                    }
                },
                Some(Msg::AudioState(s)) => {
                    if self.link.on_state(s.revision, s.enabled, s.codec_id, s.error.as_str()) {
                        let runtime = self.link.runtime();
                        Reaction {
                            reset_latency: false,
                            to_player: None,
                            request: None,
                            publish: Some(runtime),
                            exit: false,
                        }
                    } else {
                        nothing()
                    }
                },
                _ => nothing(),
            },
            Some(Event::Audio(frame)) => Reaction {
                reset_latency: false,
                to_player: Some(AudioEvent::Frame { revision: frame.revision, frame }),
                request: None,
                publish: None,
                exit: false,
            },
            Some(Event::Video(_)) => nothing(),
            Some(Event::Connected) => nothing(),
            Some(Event::Error(_)) => {
                self.phase = Phase::Ended;
                leave()
            },
            Some(Event::Closed) => {
                self.phase = Phase::Ended;
                leave()
            },
            None => {
                self.phase = Phase::Ended;
                leave()
            },
        }
    }

    /// Something came from the desktop's clipboard. Its text goes to the phone while that
    /// is wanted.
    pub fn on_clip(&mut self, input: ClipInput, clipboard_enabled: bool) -> (r: Reaction)
        requires
            old(self).wf(),
            old(self)@.phase == Phase::Waiting,
        ensures
            final(self).wf(),
            input matches ClipInput::Text(text) ==> (final(self)@, r@) == old(self)@.clipped(
                text@,
                clipboard_enabled,
            ),
            match input {
                ClipInput::Text(text) => if clipboard_enabled {
                    &&& final(self)@ == (RunState { phase: Phase::SettingClipboard, ..old(self)@ })
                    &&& r.request matches Some(Request::Clipboard(m))
                    &&& m.msg matches Some(Msg::SetClipboard(c))
                    &&& c.sequence == 0 && !c.paste && c.text@ == text@
                    &&& !r.reset_latency && r.to_player is None && r.publish is None && !r.exit
                } else {
                    final(self)@ == old(self)@ && quiet(r)
                },
                ClipInput::Lagged(_) => final(self)@ == old(self)@ && quiet(r),
                ClipInput::Closed => final(self)@ == old(self)@.ended() && ends(r),
            },
    {
        match input {
            ClipInput::Text(text) => {
                if clipboard_enabled {
                    self.phase = Phase::SettingClipboard;
                    Reaction {
                        reset_latency: false,
                        to_player: None,
                        request: Some(Request::Clipboard(set_clipboard(0, false, text.as_str()))),
                        publish: None,
                        exit: false,
                    }
                } else {
                    nothing()
                }
            },
            ClipInput::Lagged(_) => nothing(),
            ClipInput::Closed => {
                self.phase = Phase::Ended;
                leave()
            },
        }
    }
}

/// The message that carries a plan to the phone.
pub fn send_audio(plan: &super::audio::AudioPlan) -> (r: CtrlMsg)
    ensures
        r.msg matches Some(Msg::SetAudio(m)) && m.enabled == plan.enabled && m.codec == plan.codec
            && m.revision == plan.revision,
{
    set_audio(plan.enabled, plan.codec as u32, plan.revision)
}

/// A round of the clock that sends a plan sends the one that the link then holds, and its
/// generation is the next one.
pub proof fn law_sent_plan_is_newest(s: RunState, now: u64, target: AudioTarget, frames: u64)
    requires
        s.link.consistent(),
        s.link.plan.revision < u64::MAX,
    ensures
        ({
            let (t, issue) = s.ticked(now, target, frames);
            match issue {
                Some(i) => i.plan == t.link.plan && i.plan.revision == s.link.plan.revision + 1,
                None => t.link.plan == s.link.plan,
            }
        }),
{
}

/// Once a round has sent a plan for what the user wants, it does not answer a stall in the
/// same round: the plan that was sent has ended the stall.
pub proof fn law_one_plan_per_round(s: RunState, now: u64, target: AudioTarget, frames: u64)
    requires
        s.link.consistent(),
        s.link.plan.revision < u64::MAX,
        s.ticked(now, target, frames).0.phase is Issuing,
    ensures
        s.ticked(now, target, frames).0.settled(now).1 is None,
{
}

/// A text that was copied on the phone goes to the core, as it is, exactly where the clipboards
/// are kept the same; and one that was copied on the desktop goes to the phone. The audio is not
/// touched by it.
pub proof fn law_copied_text_is_passed_on(
    s: RunState,
    c: crate::proto::messages::ClipboardChanged,
    text: Seq<char>,
    enabled: bool,
)
    ensures
        ({
            let event = Some(Event::Control(CtrlMsg { msg: Some(Msg::ClipboardChanged(c)) }));
            let (t, act) = s.met(event, enabled);
            &&& enabled ==> act.request == Some(Ask::Forward(c.text@)) && t.phase
                == Phase::Forwarding
            &&& !enabled ==> act.request is None && t.phase == s.phase
            &&& t.link == s.link
            &&& act.to_player is None && act.publish is None && !act.exit && !act.reset_latency
        }),
        ({
            let (t, act) = s.clipped(text, enabled);
            &&& enabled ==> act.request == Some(
                Ask::Clipboard { sequence: 0, paste: false, text },
            ) && t.phase == Phase::SettingClipboard
            &&& !enabled ==> act.request is None && t.phase == s.phase
            &&& t.link == s.link
            &&& act.to_player is None && act.publish is None && !act.exit && !act.reset_latency
        }),
{
}

/// Every piece of audio goes to the task that plays, as it is and with its generation.
/// Parameters of a codec go there exactly where they are for audio and of the present
/// generation, while audio is on.
pub proof fn law_audio_goes_to_the_player(
    s: RunState,
    frame: crate::proto::codec::AssembledMedia,
    c: crate::proto::messages::MediaConfig,
    enabled: bool,
)
    ensures
        s.met(Some(Event::Audio(frame)), enabled) == (
            s,
            Act {
                to_player: Some(
                    super::playback::Heard::Frame {
                        revision: frame.revision,
                        flags: frame.flags,
                        data: frame.data@,
                    },
                ),
                reset_latency: false,
                request: None,
                publish: None,
                exit: false,
            },
        ),
        ({
            let event = Some(Event::Control(CtrlMsg { msg: Some(Msg::MediaConfig(c)) }));
            let (t, act) = s.met(event, enabled);
            &&& t == s
            &&& !act.exit && act.request is None && act.publish is None && !act.reset_latency
            &&& act.to_player is Some <==> c.stream == 1 && s.link.plan.enabled && c.revision
                == s.link.plan.revision
            &&& act.to_player is Some ==> act.to_player == Some(
                super::playback::Heard::Config { revision: c.revision, data: c.data@ },
            )
        }),
{
}

/// What the phone reports of the audio is shown, unless it speaks of an earlier plan.
pub proof fn law_phone_report_is_published(
    s: RunState,
    a: crate::proto::messages::AudioState,
    enabled: bool,
)
    ensures
        ({
            let event = Some(Event::Control(CtrlMsg { msg: Some(Msg::AudioState(a)) }));
            let (t, act) = s.met(event, enabled);
            &&& a.revision < s.link.plan.revision ==> t == s && act.publish is None
            &&& a.revision >= s.link.plan.revision ==> {
                &&& act.publish == Some(t.link.runtime)
                &&& t.link == s.link.reported(a.revision, a.enabled, a.codec_id, a.error@)
                &&& t.phase == s.phase
            }
            &&& act.to_player is None && act.request is None && !act.exit
        }),
{
}

/// The loop ends exactly where the connection has: at an error, when it was closed, and when it
/// has no more to give. Then it does nothing else.
pub proof fn law_loop_ends_with_the_connection(s: RunState, event: Option<Event>, enabled: bool)
    ensures
        s.met(event, enabled).1.exit <==> (event is None || event->0 is Error || event->0
            is Closed),
        s.met(event, enabled).1.exit ==> {
            let (t, act) = s.met(event, enabled);
            &&& t.phase == Phase::Ended
            &&& t.link == s.link
            &&& act.request is None && act.to_player is None && act.publish is None
        },
        event is Some && (event->0 is Video || event->0 is Connected) ==> s.met(event, enabled).0
            == s && s.met(event, enabled).1.request is None,
{
}

/// A round of the clock sends what the link decides, and shows how the audio stands where it
/// sends nothing: first comes what the user wants, then what the phone has not reported on, and
/// then a stall.
pub proof fn law_round_follows_the_link(s: RunState, now: u64, target: AudioTarget, frames: u64)
    ensures
        ({
            let (link, reason) = s.link.driven(now, target, frames);
            let (t, issue) = s.ticked(now, target, frames);
            &&& reason is Some ==> issue == Some(Issue { plan: link.plan, reason: reason->0 })
                && t.link == link && t.phase == Phase::Issuing(now)
            &&& reason is None && link.answers_stall(now) ==> {
                &&& t.link == link.issued(now, link.applied, Reason::Stall, 0)
                &&& issue == Some(Issue { plan: t.link.plan, reason: Reason::Stall })
                &&& t.phase == Phase::Retrying
            }
            &&& reason is None && !link.answers_stall(now) ==> issue is None && t.link == link
                && t.phase == Phase::Waiting
        }),
{
}

/// Doing nothing is to do none of the five things, and ending is to do nothing but end.
pub proof fn law_quiet_loop_does_nothing(r: Reaction)
    ensures
        quiet(r) ==> !r.exit,
        ends(r) ==> r.exit,
        quiet(r) || ends(r) ==> !r.reset_latency && r.to_player is None && r.request is None
            && r.publish is None,
{
}

} // verus!
