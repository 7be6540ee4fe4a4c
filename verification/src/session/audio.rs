//! The audio link of a session: from what the user wants, over the plans that are sent to
//! the phone, to what is really going on.
//!
//! A plan carries a generation number. Media, codec parameters and the phone's reports
//! carry it too, so whatever an earlier generation left behind can be told apart and
//! dropped. The link reads no clock and touches no socket: times (in nanoseconds on a
//! clock that never goes back) and progress are handed to it.
use crate::proto::reliable::{elapsed, elapsed_since};
use crate::text::{cat3, decimal_text};
use vstd::prelude::*;

verus! {

/// What the user wants.
#[derive(Debug, Clone, Copy, PartialEq, Eq, Structural)]
pub struct AudioTarget {
    pub enabled: bool,
    /// 0 raw, 1 opus, 2 aac, 3 flac.
    pub codec: u8,
}

impl AudioTarget {
    pub fn new(enabled: bool, codec: u8) -> (r: Self)
        ensures
            r.enabled == enabled,
            r.codec == codec,
    {
        AudioTarget { enabled, codec }
    }
}

/// What the phone was told.
#[derive(Debug, Clone, Copy, PartialEq, Eq, Structural)]
pub struct AudioPlan {
    pub revision: u64,
    pub enabled: bool,
    pub codec: u8,
}

impl AudioPlan {
    /// Whether data of generation `revision` belong to this plan.
    pub fn accepts(&self, revision: u64) -> (r: bool)
        ensures
            r == self.admits(revision),
    {
        self.enabled && revision == self.revision
    }

    /// Whether data of generation `revision` belong to this plan.
    pub open spec fn admits(self, revision: u64) -> bool {
        self.enabled && revision == self.revision
    }
}

/// How many frames have been played so far.
#[derive(Debug, Clone, Copy, PartialEq, Eq, Structural)]
pub struct Progress {
    pub frames: u64,
}

impl Default for Progress {
    fn default() -> (r: Self)
        ensures
            r.frames == 0,
    {
        Progress { frames: 0 }
    }
}

/// Why a plan is sent.
#[derive(Debug, Clone, Copy, PartialEq, Eq, Structural)]
pub enum Reason {
    /// The user wants something else.
    Target,
    /// The phone has not reported in time.
    Retry,
    /// Audio was playing and frames stopped coming.
    Stall,
}

impl Reason {
    pub fn label(self) -> (r: &'static str)
        ensures
            r@ == match self {
                Reason::Target => "目标变更"@,
                Reason::Retry => "重试"@,
                Reason::Stall => "断流自救"@,
            },
    {
        match self {
            Reason::Target => "目标变更",
            Reason::Retry => "重试",
            Reason::Stall => "断流自救",
        }
    }
}

/// A plan to send.
#[derive(Debug, Clone, Copy, PartialEq, Eq, Structural)]
pub struct Issue {
    pub plan: AudioPlan,
    pub reason: Reason,
}

/// What one step of the link decides.
#[derive(Debug, Clone, Copy, PartialEq, Eq, Structural)]
pub struct Tick {
    pub issue: Option<Issue>,
    /// Frames have just been found to have stopped.
    pub stalled: bool,
    /// Audio has just been found to play again.
    pub recovered: bool,
}

pub const AUDIO_STATE_OFF: u8 = 0;

/// A plan was sent that switches audio on; the phone has not reported.
pub const AUDIO_STATE_STARTING: u8 = 1;

pub const AUDIO_STATE_ON: u8 = 2;

/// A plan was sent that switches audio off; the phone has not reported.
pub const AUDIO_STATE_STOPPING: u8 = 3;

/// The phone reported an error, never reported, or frames stopped coming.
pub const AUDIO_STATE_FAILED: u8 = 4;

pub fn state_str(state: u8) -> (r: &'static str)
    ensures
        r@ == if state == AUDIO_STATE_OFF {
            "off"@
        } else if state == AUDIO_STATE_STARTING {
            "starting"@
        } else if state == AUDIO_STATE_ON {
            "on"@
        } else if state == AUDIO_STATE_STOPPING {
            "stopping"@
        } else if state == AUDIO_STATE_FAILED {
            "failed"@
        } else {
            "unknown"@
        },
{
    if state == AUDIO_STATE_OFF {
        "off"
    } else if state == AUDIO_STATE_STARTING {
        "starting"
    } else if state == AUDIO_STATE_ON {
        "on"
    } else if state == AUDIO_STATE_STOPPING {
        "stopping"
    } else if state == AUDIO_STATE_FAILED {
        "failed"
    } else {
        "unknown"
    }
}

/// What is going on, for display.
#[derive(Debug, Clone, PartialEq, Eq)]
pub struct AudioRuntime {
    /// The generation of the plan that was sent last.
    pub revision: u64,
    pub state: u8,
    /// The codec that the phone reported; 0 where audio is off.
    pub codec_id: u32,
    /// Why audio has failed; empty where it has not.
    pub error: String,
}

/// What is going on, as the contracts speak of it.
#[verifier::ext_equal]
pub struct Running {
    pub revision: u64,
    pub state: u8,
    pub codec_id: u32,
    pub error: Seq<char>,
}

impl View for AudioRuntime {
    type V = Running;

    open spec fn view(&self) -> Running {
        Running {
            revision: self.revision,
            state: self.state,
            codec_id: self.codec_id,
            error: self.error@,
        }
    }
}

impl Running {
    pub open spec fn idle() -> Running {
        Running { revision: 0, state: AUDIO_STATE_OFF, codec_id: 0, error: Seq::empty() }
    }
}

impl Default for AudioRuntime {
    fn default() -> (r: Self)
        ensures
            r@ == Running::idle(),
    {
        AudioRuntime { revision: 0, state: AUDIO_STATE_OFF, codec_id: 0, error: String::new() }
    }
}

/// What is shared about a session's audio before it starts.
pub fn shared_runtime() -> (r: AudioRuntime)
    ensures
        r@ == Running::idle(),
{
    AudioRuntime::default()
}

/// A copy of what is shared.
pub fn snapshot(runtime: &AudioRuntime) -> (r: AudioRuntime)
    ensures
        r@ == runtime@,
{
    AudioRuntime {
        revision: runtime.revision,
        state: runtime.state,
        codec_id: runtime.codec_id,
        error: runtime.error.clone(),
    }
}

/// Replaces what is shared.
pub fn publish(runtime: &mut AudioRuntime, snapshot: AudioRuntime)
    ensures
        final(runtime)@ == snapshot@,
{
    *runtime = snapshot;
}

/// The link is stepped every 250 ms.
pub const TICK: u64 = 250_000_000;

/// The phone has 2 s to report.
pub const ACK_TIMEOUT: u64 = 2_000_000_000;

/// How often a plan is sent again, and how often a stall is answered.
pub const MAX_RETRIES: u32 = 3;

/// Audio that was playing has stalled when no frame has come for 3 s.
pub const STALL_TIMEOUT: u64 = 3_000_000_000;

/// A stall is answered every 10 s.
pub const STALL_RETRY_INTERVAL: u64 = 10_000_000_000;

/// What a link holds.
#[verifier::ext_equal]
pub struct LinkState {
    /// What the user wanted when the last plan was made.
    pub applied: AudioTarget,
    pub plan: AudioPlan,
    /// The phone has not reported on the plan: how often it was sent again, and when that
    /// is due next.
    pub pending: Option<(u32, u64)>,
    /// Frames have stopped: how often that was answered, and when it last was.
    pub stalled: Option<(u32, u64)>,
    pub last_frames: u64,
    pub last_progress: u64,
    pub runtime: Running,
}

impl LinkState {
    pub open spec fn fresh(target: AudioTarget, now: u64) -> LinkState {
        LinkState {
            applied: target,
            plan: AudioPlan { revision: 0, enabled: target.enabled, codec: target.codec },
            pending: None,
            stalled: None,
            last_frames: 0,
            last_progress: now,
            runtime: Running {
                state: if target.enabled {
                    AUDIO_STATE_STARTING
                } else {
                    AUDIO_STATE_OFF
                },
                ..Running::idle()
            },
        }
    }

    /// The plan is what the user wanted; an error is shown exactly where audio has failed;
    /// frames can only be missed where there should be any; retries are limited.
    pub open spec fn consistent(self) -> bool {
        &&& self.plan.enabled == self.applied.enabled
        &&& self.plan.codec == self.applied.codec
        &&& self.runtime.revision == self.plan.revision
        &&& self.runtime.state <= AUDIO_STATE_FAILED
        &&& self.runtime.state == AUDIO_STATE_FAILED <==> self.runtime.error.len() > 0
        &&& self.pending matches Some(p) ==> p.0 <= MAX_RETRIES
        &&& self.stalled matches Some(s) ==> s.0 <= MAX_RETRIES && self.plan.enabled
    }

    pub open spec fn shown(self, state: u8, error: Seq<char>) -> LinkState {
        LinkState { runtime: Running { state, error, ..self.runtime }, ..self }
    }

    /// A new plan, of the next generation.
    pub open spec fn issued(self, now: u64, target: AudioTarget, reason: Reason, tried: u32) -> LinkState {
        LinkState {
            applied: target,
            plan: AudioPlan {
                revision: (self.plan.revision + 1) as u64,
                enabled: target.enabled,
                codec: target.codec,
            },
            pending: Some((tried, (now + ACK_TIMEOUT) as u64)),
            stalled: if reason == Reason::Stall {
                Some(
                    (
                        (match self.stalled {
                            Some(s) => s.0 + 1,
                            None => 1,
                        }) as u32,
                        now,
                    ),
                )
            } else {
                None
            },
            last_progress: now,
            runtime: Running {
                revision: (self.plan.revision + 1) as u64,
                state: if target.enabled {
                    AUDIO_STATE_STARTING
                } else {
                    AUDIO_STATE_STOPPING
                },
                error: Seq::empty(),
                ..self.runtime
            },
            ..self
        }
    }

    /// Frames have come since the last step.
    pub open spec fn progressed(self, frames: u64) -> bool {
        frames != self.last_frames
    }

    /// Audio that should play, and did not, plays.
    pub open spec fn recovers(self, frames: u64) -> bool {
        self.progressed(frames) && self.plan.enabled && self.runtime.state != AUDIO_STATE_ON
    }

    /// Audio that played has stopped.
    pub open spec fn stalls(self, now: u64, frames: u64) -> bool {
        !self.progressed(frames) && self.plan.enabled && self.runtime.state == AUDIO_STATE_ON
            && elapsed(now, self.last_progress) >= STALL_TIMEOUT && self.stalled is None
    }

    /// The link once it has seen how many frames were played.
    pub open spec fn observed(self, now: u64, frames: u64) -> LinkState {
        if self.progressed(frames) {
            let s = LinkState { last_frames: frames, last_progress: now, stalled: None, ..self };
            if self.recovers(frames) {
                s.shown(AUDIO_STATE_ON, Seq::empty())
            } else {
                s
            }
        } else if self.stalls(now, frames) {
            LinkState { stalled: Some((0, now)), ..self }.shown(
                AUDIO_STATE_FAILED,
                "音频帧断流"@,
            )
        } else {
            self
        }
    }

    /// The phone's time to report has run out.
    pub open spec fn overdue(self, now: u64) -> bool {
        self.pending matches Some(p) && now >= p.1
    }

    /// The link once it has decided whether to send a plan, and why it does.
    pub open spec fn decided(self, now: u64, target: AudioTarget) -> (LinkState, Option<Reason>) {
        if target != self.applied {
            (self.issued(now, target, Reason::Target, 0), Some(Reason::Target))
        } else if !self.overdue(now) {
            (self, None)
        } else if self.pending->Some_0.0 >= MAX_RETRIES {
            (
                LinkState { pending: None, ..self }.shown(
                    AUDIO_STATE_FAILED,
                    unconfirmed(self.pending->Some_0.0),
                ),
                None,
            )
        } else {
            (
                self.issued(
                    now,
                    self.applied,
                    Reason::Retry,
                    (self.pending->Some_0.0 + 1) as u32,
                ),
                Some(Reason::Retry),
            )
        }
    }

    /// The link after one step.
    pub open spec fn driven(self, now: u64, target: AudioTarget, frames: u64) -> (
        LinkState,
        Option<Reason>,
    ) {
        self.observed(now, frames).decided(now, target)
    }

    /// A stall is due to be answered.
    pub open spec fn answers_stall(self, now: u64) -> bool {
        self.stalled matches Some(s) && s.0 < MAX_RETRIES && elapsed(now, s.1)
            >= STALL_RETRY_INTERVAL
    }

    /// The link after a report from the phone, where it is not of an earlier generation.
    pub open spec fn reported(
        self,
        revision: u64,
        enabled: bool,
        codec_id: u32,
        error: Seq<char>,
    ) -> LinkState {
        let s = if error.len() == 0 {
            LinkState { runtime: Running { codec_id, ..self.runtime }, ..self }.shown(
                if enabled {
                    AUDIO_STATE_ON
                } else {
                    AUDIO_STATE_OFF
                },
                Seq::empty(),
            )
        } else {
            self.shown(AUDIO_STATE_FAILED, error)
        };
        if revision == self.plan.revision {
            LinkState { pending: None, ..s }
        } else {
            s
        }
    }
}

/// What is shown where the phone never reported.
pub open spec fn unconfirmed(tried: u32) -> Seq<char> {
    "设备未确认音频切换（已重试 "@ + crate::text::decimal(tried as nat) + " 次）"@
}

/// The audio link of a session.
pub struct Link {
    applied: AudioTarget,
    plan: AudioPlan,
    pending: Option<(u32, u64)>,
    stalled: Option<(u32, u64)>,
    last_frames: u64,
    last_progress: u64,
    runtime: AudioRuntime,
}

impl View for Link {
    type V = LinkState;

    closed spec fn view(&self) -> LinkState {
        LinkState {
            applied: self.applied,
            plan: self.plan,
            pending: self.pending,
            stalled: self.stalled,
            last_frames: self.last_frames,
            last_progress: self.last_progress,
            runtime: self.runtime@,
        }
    }
}

impl Link {
    /// A link that starts with what the session was opened for; generation 0.
    pub fn new(target: AudioTarget, now: u64) -> (r: Self)
        ensures
            r@ == LinkState::fresh(target, now),
            r@.consistent(),
    {
        let r = Link {
            applied: target,
            plan: AudioPlan { revision: 0, enabled: target.enabled, codec: target.codec },
            pending: None,
            stalled: None,
            last_frames: 0,
            last_progress: now,
            runtime: AudioRuntime {
                revision: 0,
                state: if target.enabled {
                    AUDIO_STATE_STARTING
                } else {
                    AUDIO_STATE_OFF
                },
                codec_id: 0,
                error: String::new(),
            },
        };
        assert(r@ =~= LinkState::fresh(target, now));
        r
    }

    pub fn plan(&self) -> (r: AudioPlan)
        ensures
            r == self@.plan,
    {
        self.plan
    }

    pub fn runtime(&self) -> (r: AudioRuntime)
        ensures
            r@ == self@.runtime,
    {
        snapshot(&self.runtime)
    }

    /// One step: the user wants something else, the phone has not reported in time, or
    /// frames have stopped. Sending a plan again takes a new generation too: the phone
    /// acts on greater generations only, so it cannot mistake it for the earlier one.
    pub fn drive(&mut self, now: u64, target: AudioTarget, progress: Progress) -> (r: Tick)
        requires
            old(self)@.consistent(),
            old(self)@.plan.revision < u64::MAX,
            now + ACK_TIMEOUT <= u64::MAX,
        ensures
            final(self)@.consistent(),
            final(self)@ == old(self)@.driven(now, target, progress.frames).0,
            r.recovered == old(self)@.recovers(progress.frames),
            r.stalled == old(self)@.stalls(now, progress.frames),
            match old(self)@.driven(now, target, progress.frames).1 {
                Some(reason) => r.issue == Some(Issue { plan: final(self)@.plan, reason }),
                None => r.issue is None,
            },
    {
        let ghost before = self@;
        let mut stalled = false;
        let mut recovered = false;
        if progress.frames != self.last_frames {
            self.last_frames = progress.frames;
            self.last_progress = now;
            self.stalled = None;
            if self.plan.enabled && self.runtime.state != AUDIO_STATE_ON {
                self.set_state(AUDIO_STATE_ON, String::new());
                recovered = true;
            }
        } else if self.plan.enabled && self.runtime.state == AUDIO_STATE_ON && elapsed_since(
            now,
            self.last_progress,
        ) >= STALL_TIMEOUT && self.stalled.is_none() {
            self.stalled = Some((0, now));
            proof {
                reveal_strlit("音频帧断流");
            }
            self.set_state(AUDIO_STATE_FAILED, "音频帧断流".to_owned());
            stalled = true;
        }
        assert(self@ =~= before.observed(now, progress.frames));
        let issue = self.decide(now, target);
        Tick { issue, stalled, recovered }
    }

    /// Takes a report from the phone; `false` where it is of an earlier generation and is
    /// dropped.
    pub fn on_state(&mut self, revision: u64, enabled: bool, codec_id: u32, error: &str) -> (r:
        bool)
        requires
            old(self)@.consistent(),
        ensures
            final(self)@.consistent(),
            r == (revision >= old(self)@.plan.revision),
            final(self)@ == if r {
                old(self)@.reported(revision, enabled, codec_id, error@)
            } else {
                old(self)@
            },
    {
        let ghost before = self@;
        if revision < self.plan.revision {
            return false;
        }
        if error.is_empty() {
            self.runtime.codec_id = codec_id;
            self.set_state(
                if enabled {
                    AUDIO_STATE_ON
                } else {
                    AUDIO_STATE_OFF
                },
                String::new(),
            );
        } else {
            self.set_state(AUDIO_STATE_FAILED, error.to_owned());
        }
        if revision == self.plan.revision {
            self.pending = None;
        }
        assert(self@ =~= before.reported(revision, enabled, codec_id, error@));
        true
    }

    fn decide(&mut self, now: u64, target: AudioTarget) -> (r: Option<Issue>)
        requires
            old(self)@.consistent(),
            old(self)@.plan.revision < u64::MAX,
            now + ACK_TIMEOUT <= u64::MAX,
        ensures
            final(self)@.consistent(),
            final(self)@ == old(self)@.decided(now, target).0,
            match old(self)@.decided(now, target).1 {
                Some(reason) => r == Some(Issue { plan: final(self)@.plan, reason }),
                None => r is None,
            },
    {
        if target != self.applied {
            return Some(self.issue(now, target, Reason::Target, 0));
        }
        let (tried, retry_at): (u32, u64) = match self.pending {
            Some(p) => p,
            None => {
                return None;
            },
        };
        if now < retry_at {
            return None;
        }
        if tried >= MAX_RETRIES {
            let number = decimal_text(tried as u64);
            let msg = cat3("设备未确认音频切换（已重试 ", number.as_str(), " 次）");
            proof {
                reveal_strlit("设备未确认音频切换（已重试 ");
            }
            self.pending = None;
            self.set_state(AUDIO_STATE_FAILED, msg);
            return None;
        }
        Some(self.issue(now, self.applied, Reason::Retry, tried + 1))
    }

    /// Answers a stall, at a fixed interval and a limited number of times, with a plan of
    /// a new generation. This is apart from the phone's time to report: there no report
    /// comes, here the report was good and frames are missing.
    pub fn poll_stall_retry(&mut self, now: u64) -> (r: Option<Issue>)
        requires
            old(self)@.consistent(),
            old(self)@.plan.revision < u64::MAX,
            now + ACK_TIMEOUT <= u64::MAX,
        ensures
            final(self)@.consistent(),
            r is Some <==> old(self)@.answers_stall(now),
            r matches Some(i) ==> i == (Issue { plan: final(self)@.plan, reason: Reason::Stall }),
            final(self)@ == if r is Some {
                old(self)@.issued(now, old(self)@.applied, Reason::Stall, 0)
            } else {
                old(self)@
            },
    {
        let (tried, since): (u32, u64) = match self.stalled {
            Some(s) => s,
            None => {
                return None;
            },
        };
        if tried >= MAX_RETRIES || elapsed_since(now, since) < STALL_RETRY_INTERVAL {
            return None;
        }
        Some(self.issue(now, self.applied, Reason::Stall, 0))
    }

    fn issue(&mut self, now: u64, target: AudioTarget, reason: Reason, tried: u32) -> (r: Issue)
        requires
            old(self)@.consistent(),
            old(self)@.plan.revision < u64::MAX,
            now + ACK_TIMEOUT <= u64::MAX,
            tried <= MAX_RETRIES,
            reason == Reason::Stall ==> target == old(self)@.applied && (
            old(self)@.stalled matches Some(s) && s.0 < MAX_RETRIES),
        ensures
            final(self)@.consistent(),
            final(self)@ == old(self)@.issued(now, target, reason, tried),
            r == (Issue { plan: final(self)@.plan, reason }),
    {
        let ghost before = self@;
        self.applied = target;
        self.plan = AudioPlan {
            revision: self.plan.revision + 1,
            enabled: target.enabled,
            codec: target.codec,
        };
        self.runtime.revision = self.plan.revision;
        self.pending = Some((tried, now + ACK_TIMEOUT));
        self.last_progress = now;
        self.stalled = match reason {
            Reason::Stall => {
                let kept: u32 = match self.stalled {
                    Some(s) => s.0,
                    None => 0,
                };
                Some((kept + 1, now))
            },
            _ => None,
        };
        self.set_state(
            if target.enabled {
                AUDIO_STATE_STARTING
            } else {
                AUDIO_STATE_STOPPING
            },
            String::new(),
        );
        assert(self@ =~= before.issued(now, target, reason, tried));
        Issue { plan: self.plan, reason }
    }

    fn set_state(&mut self, state: u8, error: String)
        ensures
            final(self)@ == old(self)@.shown(state, error@),
    {
        let ghost before = self@;
        self.runtime.state = state;
        self.runtime.error = error;
        assert(self@ =~= before.shown(state, error@));
    }
}

/// Generations never fall: a step or an answer to a stall either leaves the plan or makes
/// one of the next generation, and a report leaves it.
pub proof fn law_generations_never_fall(
    s: LinkState,
    now: u64,
    target: AudioTarget,
    frames: u64,
    revision: u64,
    enabled: bool,
    codec_id: u32,
    error: Seq<char>,
)
    requires
        s.plan.revision < u64::MAX,
    ensures
        ({
            let (t, reason) = s.driven(now, target, frames);
            &&& reason is Some ==> t.plan.revision == s.plan.revision + 1
            &&& reason is None ==> t.plan == s.plan
        }),
        s.issued(now, s.applied, Reason::Stall, 0).plan.revision == s.plan.revision + 1,
        s.reported(revision, enabled, codec_id, error).plan == s.plan,
{
}

/// A step brings the plan to what the user wants, whatever it was before, with one plan.
pub proof fn law_latest_target_wins(s: LinkState, now: u64, target: AudioTarget, frames: u64)
    requires
        s.consistent(),
        s.plan.revision < u64::MAX,
    ensures
        s.driven(now, target, frames).0.applied == target,
        target != s.applied ==> s.driven(now, target, frames).1 == Some(Reason::Target)
            && s.driven(now, target, frames).0.plan == (AudioPlan {
            revision: (s.plan.revision + 1) as u64,
            enabled: target.enabled,
            codec: target.codec,
        }),
{
}

/// A link that has been switched off does not come back to life, and does not stall, by
/// itself: as long as the user wants it off, frames that were on their way do not count,
/// missing ones are not missed, and no stall is answered.
pub proof fn law_disabled_link_stays_quiet(
    s: LinkState,
    now: u64,
    later: u64,
    target: AudioTarget,
    frames: u64,
)
    requires
        s.consistent(),
        !s.plan.enabled,
    ensures
        !s.recovers(frames),
        !s.stalls(now, frames),
        !s.answers_stall(now),
        target == s.applied ==> !s.driven(now, target, frames).0.plan.enabled && !s.driven(
            now,
            target,
            frames,
        ).0.answers_stall(later),
{
}

/// Once the phone has reported on the plan, nothing is sent as long as the user wants the
/// same.
pub proof fn law_settled_link_sends_nothing(
    s: LinkState,
    enabled: bool,
    codec_id: u32,
    error: Seq<char>,
    now: u64,
    frames: u64,
)
    ensures
        ({
            let t = s.reported(s.plan.revision, enabled, codec_id, error);
            t.driven(now, s.applied, frames).1 is None
        }),
{
}

/// A plan that the phone never reports on is sent again at most three times: with the
/// last retry overdue the link fails, says so, and sends nothing more.
pub proof fn law_retries_are_limited(s: LinkState, now: u64, later: u64, frames: u64)
    requires
        s.consistent(),
        s.pending matches Some(p) && p.0 == MAX_RETRIES,
        s.overdue(now),
        !s.progressed(frames),
    ensures
        ({
            let (t, reason) = s.driven(now, s.applied, frames);
            &&& reason is None
            &&& t.runtime.state == AUDIO_STATE_FAILED
            &&& t.runtime.error == unconfirmed(MAX_RETRIES)
            &&& t.driven(later, s.applied, frames).1 is None
        }),
{
}

/// Each retry waits for the phone's full time to report, and counts.
pub proof fn law_retry_waits(s: LinkState, now: u64, frames: u64)
    requires
        s.consistent(),
        now + ACK_TIMEOUT <= u64::MAX,
        s.pending matches Some(p) && p.0 < MAX_RETRIES,
    ensures
        !s.overdue(now) ==> s.driven(now, s.applied, frames).1 is None,
        s.overdue(now) ==> s.driven(now, s.applied, frames).1 == Some(Reason::Retry) && s.driven(
            now,
            s.applied,
            frames,
        ).0.pending == Some(((s.pending->Some_0.0 + 1) as u32, (now + ACK_TIMEOUT) as u64)),
{
}

/// What can happen to a link.
pub enum LinkStep {
    Drive { now: u64, target: AudioTarget, frames: u64 },
    Report { revision: u64, enabled: bool, codec_id: u32, error: Seq<char> },
    PollStall { now: u64 },
}

impl LinkState {
    /// The link after a step, and why a plan was sent, where one was.
    pub open spec fn stepped(self, step: LinkStep) -> (LinkState, Option<Reason>) {
        match step {
            LinkStep::Drive { now, target, frames } => self.driven(now, target, frames),
            LinkStep::Report { revision, enabled, codec_id, error } => (
                if revision >= self.plan.revision {
                    self.reported(revision, enabled, codec_id, error)
                } else {
                    self
                },
                None,
            ),
            LinkStep::PollStall { now } => if self.answers_stall(now) {
                (self.issued(now, self.applied, Reason::Stall, 0), Some(Reason::Stall))
            } else {
                (self, None)
            },
        }
    }

    /// The link after all of `steps`, and the plans that were sent on the way: why, and at
    /// which step.
    pub open spec fn ran(self, steps: Seq<LinkStep>) -> (LinkState, Seq<(Reason, int)>)
        decreases steps.len(),
    {
        if steps.len() == 0 {
            (self, Seq::empty())
        } else {
            let (s, sent) = self.ran(steps.drop_last());
            let (t, reason) = s.stepped(steps.last());
            match reason {
                Some(r) => (t, sent.push((r, steps.len() - 1))),
                None => (t, sent),
            }
        }
    }
}

/// A plan that is sent accepts nothing of the generation before it, or of any earlier one,
/// and its own generation exactly where it switches audio on. A plan that switches audio off
/// accepts nothing.
pub proof fn law_new_plan_drops_older_media(s: LinkState, step: LinkStep, revision: u64)
    requires
        s.plan.revision < u64::MAX,
        s.stepped(step).1 is Some,
    ensures
        ({
            let plan = s.stepped(step).0.plan;
            &&& revision <= s.plan.revision ==> !plan.admits(revision)
            &&& plan.admits(plan.revision) == plan.enabled
            &&& !plan.enabled ==> !plan.admits(revision)
        }),
{
}

/// The generation is the number of plans that have been sent, and what is shown names the
/// same one.
pub proof fn law_generation_counts_plans(target: AudioTarget, start: u64, steps: Seq<LinkStep>)
    requires
        steps.len() <= u64::MAX,
    ensures
        ({
            let (t, sent) = LinkState::fresh(target, start).ran(steps);
            &&& sent.len() <= steps.len()
            &&& t.plan.revision == sent.len()
            &&& t.runtime.revision == sent.len()
        }),
    decreases steps.len(),
{
    if steps.len() > 0 {
        law_generation_counts_plans(target, start, steps.drop_last());
    }
}

/// The frames that the last of the steps told of; none before the first.
pub open spec fn frames_told(steps: Seq<LinkStep>) -> u64
    decreases steps.len(),
{
    if steps.len() == 0 {
        0
    } else {
        match steps.last() {
            LinkStep::Drive { now, target, frames } => frames,
            _ => frames_told(steps.drop_last()),
        }
    }
}

proof fn lemma_last_frames(s: LinkState, steps: Seq<LinkStep>)
    requires
        s.last_frames == 0,
    ensures
        s.ran(steps).0.last_frames == frames_told(steps),
    decreases steps.len(),
{
    if steps.len() > 0 {
        lemma_last_frames(s, steps.drop_last());
    }
}

/// Audio recovers exactly where frames have come since the step before, audio should play and
/// was not playing. It stalls only where no frame has come and audio was playing. So it never
/// does both, and neither where audio is off; a stall that no new plan answers shows as a
/// failure.
pub proof fn law_stall_and_recovery_exclude_each_other(
    target: AudioTarget,
    start: u64,
    steps: Seq<LinkStep>,
    now: u64,
    wanted: AudioTarget,
    frames: u64,
)
    ensures
        ({
            let s = LinkState::fresh(target, start).ran(steps).0;
            let (t, reason) = s.driven(now, wanted, frames);
            &&& s.recovers(frames) <==> frames != frames_told(steps) && s.plan.enabled
                && s.runtime.state != AUDIO_STATE_ON
            &&& s.stalls(now, frames) ==> frames == frames_told(steps) && s.plan.enabled
                && s.runtime.state == AUDIO_STATE_ON
            &&& !(s.recovers(frames) && s.stalls(now, frames))
            &&& !s.plan.enabled ==> !s.recovers(frames) && !s.stalls(now, frames)
            &&& s.stalls(now, frames) && reason is None ==> t.runtime.state == AUDIO_STATE_FAILED
        }),
{
    lemma_last_frames(LinkState::fresh(target, start), steps);
}

proof fn lemma_answered_stays(s: LinkState, steps: Seq<LinkStep>)
    requires
        s.pending is None,
        s.ran(steps).1.len() == 0,
    ensures
        s.ran(steps).0.pending is None,
        s.ran(steps).0.applied == s.applied,
        s.ran(steps).0.plan == s.plan,
    decreases steps.len(),
{
    if steps.len() > 0 {
        lemma_answered_stays(s, steps.drop_last());
    }
}

/// A plan that the phone has answered, be it with an error, is not sent again: until another
/// plan is sent, whatever happens, a step sends nothing as long as the user wants the same.
pub proof fn law_answered_plan_is_not_sent_again(
    s: LinkState,
    enabled: bool,
    codec_id: u32,
    error: Seq<char>,
    steps: Seq<LinkStep>,
    now: u64,
    target: AudioTarget,
    frames: u64,
)
    requires
        s.consistent(),
        target.enabled == s.plan.enabled,
        target.codec == s.plan.codec,
        s.reported(s.plan.revision, enabled, codec_id, error).ran(steps).1.len() == 0,
    ensures
        s.reported(s.plan.revision, enabled, codec_id, error).ran(steps).0.driven(
            now,
            target,
            frames,
        ).1 is None,
{
    lemma_answered_stays(s.reported(s.plan.revision, enabled, codec_id, error), steps);
    assert(target == s.applied);
}

/// When a step happened; a report has no time of its own.
pub open spec fn time_of(step: LinkStep) -> u64 {
    match step {
        LinkStep::Drive { now, target, frames } => now,
        LinkStep::PollStall { now } => now,
        LinkStep::Report { revision, enabled, codec_id, error } => 0,
    }
}

/// No frame comes in the course of the steps, and no plan is sent but to answer a stall.
pub open spec fn silent(s: LinkState, steps: Seq<LinkStep>) -> bool {
    &&& forall|k: int|
        0 <= k < steps.len() ==> (#[trigger] steps[k] matches LinkStep::Drive { frames, .. } ==> frames
            == s.last_frames)
    &&& forall|j: int|
        0 <= j < s.ran(steps).1.len() ==> (#[trigger] s.ran(steps).1[j]).0 == Reason::Stall
}

/// How often the stall that goes on has been answered.
pub open spec fn answers_given(s: LinkState) -> nat {
    match s.stalled {
        Some(a) => a.0 as nat,
        None => 0,
    }
}

/// As long as no frame comes, a stall is answered at most three times, and between its
/// beginning and the first answer, and between one answer and the next, lie at least ten
/// seconds.
pub proof fn law_stall_is_answered_three_times(s: LinkState, steps: Seq<LinkStep>)
    requires
        answers_given(s) <= MAX_RETRIES,
        silent(s, steps),
    ensures
        ({
            let (t, sent) = s.ran(steps);
            &&& answers_given(s) + sent.len() == answers_given(t)
            &&& answers_given(t) <= MAX_RETRIES
            &&& sent.len() > 0 ==> (t.stalled matches Some(a) && a.1 == time_of(
                steps[sent.last().1],
            ))
            &&& forall|j: int|
                0 <= j < sent.len() ==> 0 <= (#[trigger] sent[j]).1 < steps.len()
            &&& forall|j: int|
                0 < j < sent.len() ==> elapsed(
                    time_of(steps[(#[trigger] sent[j]).1]),
                    time_of(steps[sent[j - 1].1]),
                ) >= STALL_RETRY_INTERVAL
            &&& s.stalled matches Some(a) ==> (if sent.len() > 0 {
                elapsed(time_of(steps[sent[0].1]), a.1) >= STALL_RETRY_INTERVAL
            } else {
                t.stalled == s.stalled
            })
            &&& t.last_frames == s.last_frames
        }),
    decreases steps.len(),
{
    if steps.len() > 0 {
        let before = steps.drop_last();
        let (t, sent) = s.ran(before);
        let all = s.ran(steps).1;
        assert(silent(s, before)) by {
            assert forall|k: int| 0 <= k < before.len() implies (#[trigger] before[k] matches
                LinkStep::Drive { frames, .. } ==> frames == s.last_frames) by {
                assert(before[k] == steps[k]);
            }
            assert forall|j: int| 0 <= j < sent.len() implies (#[trigger] sent[j]).0
                == Reason::Stall by {
                assert(all[j] == sent[j]);
            }
        }
        law_stall_is_answered_three_times(s, before);
        let last = steps.last();
        assert(last == steps[steps.len() - 1]);
        let (u, reason) = t.stepped(last);
        if reason is Some {
            assert(all.last() == (reason->0, steps.len() - 1));
            assert(all[all.len() - 1].0 == Reason::Stall);
            assert(last is PollStall);
            assert(t.answers_stall(time_of(last)));
        }
        assert forall|j: int| 0 <= j < all.len() implies 0 <= (#[trigger] all[j]).1
            < steps.len() by {
            if j < sent.len() {
                assert(all[j] == sent[j]);
            }
        }
        assert forall|j: int| 0 < j < all.len() implies elapsed(
            time_of(steps[(#[trigger] all[j]).1]),
            time_of(steps[all[j - 1].1]),
        ) >= STALL_RETRY_INTERVAL by {
            assert(all[j - 1] == sent[j - 1]);
            assert(before[sent[j - 1].1] == steps[sent[j - 1].1]);
            if j < sent.len() {
                assert(all[j] == sent[j]);
                assert(before[sent[j].1] == steps[sent[j].1]);
            }
        }
    }
}

impl LinkState {
    /// The link after a step, and the plan that was sent, where one was. The phone reports at
    /// once that it plays it, with the codec `codec_id`.
    pub open spec fn served(self, step: LinkStep, codec_id: u32) -> (LinkState, Option<Issue>) {
        match self.stepped(step) {
            (t, Some(reason)) => (
                t.reported(t.plan.revision, true, codec_id, Seq::empty()),
                Some(Issue { plan: t.plan, reason }),
            ),
            (t, None) => (t, None),
        }
    }

    /// The link after all of `steps`, where the phone reports at once on every plan, and the
    /// plans that were sent on the way: each, and at which step.
    pub open spec fn served_all(self, steps: Seq<LinkStep>, codec_id: u32) -> (
        LinkState,
        Seq<(Issue, int)>,
    )
        decreases steps.len(),
    {
        if steps.len() == 0 {
            (self, Seq::empty())
        } else {
            let (s, sent) = self.served_all(steps.drop_last(), codec_id);
            let (t, issue) = s.served(steps.last(), codec_id);
            match issue {
                Some(i) => (t, sent.push((i, steps.len() - 1))),
                None => (t, sent),
            }
        }
    }
}

/// The link is driven with as many frames as before and for what the user wanted before, or
/// asked whether to answer a stall; nothing else happens.
pub open spec fn waits(s: LinkState, steps: Seq<LinkStep>) -> bool {
    forall|k: int|
        0 <= k < steps.len() ==> match #[trigger] steps[k] {
            LinkStep::Drive { now, target, frames } => target == s.applied && frames
                == s.last_frames,
            LinkStep::PollStall { now } => true,
            LinkStep::Report { revision, enabled, codec_id, error } => false,
        }
}

/// When a stall that began at `since` was answered last: at the last of the steps at which a
/// plan was sent.
pub open spec fn answered_at(since: u64, steps: Seq<LinkStep>, sent: Seq<(Issue, int)>) -> u64 {
    if sent.len() == 0 {
        since
    } else {
        time_of(steps[sent.last().1])
    }
}

/// A link whose plan the phone has reported on stalls at `since`. From then on no frame comes,
/// the user wants the same, and the phone reports at once on every plan. Then at most three
/// plans are sent, all of them to answer the stall, each of the next generation: the first at
/// least ten seconds after `since`, and each other at least ten seconds after the one before.
/// While there have been fewer than three, the next is sent as soon as it is asked for ten
/// seconds after the last; after the third none is, at any time.
pub proof fn law_answered_stall_ends_after_three_plans(
    before: LinkState,
    since: u64,
    steps: Seq<LinkStep>,
    codec_id: u32,
    later: u64,
)
    requires
        before.consistent(),
        before.pending is None,
        before.stalls(since, before.last_frames),
        before.plan.revision + 3 <= u64::MAX,
        waits(before, steps),
    ensures
        ({
            let s = before.driven(since, before.applied, before.last_frames).0;
            let (t, sent) = s.served_all(steps, codec_id);
            &&& sent.len() <= 3
            &&& forall|j: int|
                0 <= j < sent.len() ==> {
                    &&& 0 <= (#[trigger] sent[j]).1 < steps.len()
                    &&& sent[j].0 == Issue {
                        plan: AudioPlan {
                            revision: (before.plan.revision + j + 1) as u64,
                            ..before.plan
                        },
                        reason: Reason::Stall,
                    }
                    &&& elapsed(
                        time_of(steps[sent[j].1]),
                        answered_at(since, steps, sent.take(j)),
                    ) >= STALL_RETRY_INTERVAL
                }
            &&& t.plan == AudioPlan {
                revision: (before.plan.revision + sent.len()) as u64,
                ..before.plan
            }
            &&& t.applied == before.applied
            &&& t.pending is None
            &&& t.last_frames == before.last_frames
            &&& t.stalled == Some((sent.len() as u32, answered_at(since, steps, sent)))
            &&& t.answers_stall(later) <==> sent.len() < 3 && elapsed(
                later,
                answered_at(since, steps, sent),
            ) >= STALL_RETRY_INTERVAL
        }),
    decreases steps.len(),
{
    if steps.len() > 0 {
        let front = steps.drop_last();
        assert(waits(before, front)) by {
            assert forall|k: int| 0 <= k < front.len() implies match #[trigger] front[k] {
                LinkStep::Drive { now, target, frames } => target == before.applied && frames
                    == before.last_frames,
                LinkStep::PollStall { now } => true,
                LinkStep::Report { revision, enabled, codec_id, error } => false,
            } by {
                assert(front[k] == steps[k]);
            }
        }
        law_answered_stall_ends_after_three_plans(before, since, front, codec_id, later);
        let s = before.driven(since, before.applied, before.last_frames).0;
        let (t, sent) = s.served_all(front, codec_id);
        let all = s.served_all(steps, codec_id).1;
        let last = steps.last();
        assert(last == steps[steps.len() - 1]);
        assert(answered_at(since, front, sent) == answered_at(since, steps, sent)) by {
            if sent.len() > 0 {
                assert(0 <= sent[sent.len() - 1].1 < front.len());
            }
        }
        assert forall|j: int| 0 <= j < all.len() implies {
            &&& 0 <= (#[trigger] all[j]).1 < steps.len()
            &&& all[j].0 == Issue {
                plan: AudioPlan { revision: (before.plan.revision + j + 1) as u64, ..before.plan },
                reason: Reason::Stall,
            }
            &&& elapsed(time_of(steps[all[j].1]), answered_at(since, steps, all.take(j)))
                >= STALL_RETRY_INTERVAL
        } by {
            if j < sent.len() {
                assert(all[j] == sent[j]);
                assert(all.take(j) =~= sent.take(j));
                assert(front[sent[j].1] == steps[sent[j].1]);
                if j > 0 {
                    assert(sent.take(j).last() == sent[j - 1]);
                    assert(front[sent[j - 1].1] == steps[sent[j - 1].1]);
                }
            } else {
                assert(all.take(j) =~= sent);
            }
        }
    }
}

/// Audio that plays has stalled exactly where three seconds have passed without a frame and no
/// stall was seen before. It shows as a failure from then on, with a reason, and the time of the
/// stall is kept; nothing is sent for it in that step.
pub proof fn law_silence_is_a_stall(s: LinkState, now: u64)
    requires
        s.plan.enabled,
        s.runtime.state == 2,
        s.pending is None,
        s.last_progress <= now,
    ensures
        ({
            let (t, reason) = s.driven(now, s.applied, s.last_frames);
            let silent = now - s.last_progress >= 3_000_000_000 && s.stalled is None;
            &&& reason is None
            &&& silent <==> s.stalls(now, s.last_frames)
            &&& silent ==> {
                &&& t.stalled == Some((0u32, now))
                &&& t.runtime.state == 4
                &&& t.runtime.error == "音频帧断流"@
                &&& t.plan == s.plan && t.applied == s.applied && t.pending == s.pending
                &&& t.last_progress == s.last_progress
            }
            &&& !silent ==> t == s
        }),
{
}

/// A frame that was played since the last step ends a stall and shows that audio plays, where it
/// should. When it came is kept, so that the next silence is measured from there.
pub proof fn law_frames_show_that_audio_plays(s: LinkState, now: u64, frames: u64)
    requires
        frames != s.last_frames,
        s.pending is None,
    ensures
        ({
            let (t, reason) = s.driven(now, s.applied, frames);
            &&& reason is None
            &&& t.last_frames == frames
            &&& t.last_progress == now
            &&& t.stalled is None
            &&& t.plan == s.plan
            &&& s.plan.enabled ==> t.runtime.state == 2
            &&& s.plan.enabled && s.runtime.state != 2 ==> t.runtime.error.len() == 0
            &&& !s.plan.enabled ==> t.runtime == s.runtime
            &&& s.recovers(frames) <==> s.plan.enabled && s.runtime.state != 2
        }),
{
}

/// A plan for what the user wants is sent as soon as that changes, with two seconds for the
/// phone to report; until it does, audio is shown as starting or as stopping, and nothing of an
/// earlier stall or failure is left.
pub proof fn law_wish_becomes_a_plan(s: LinkState, now: u64, target: AudioTarget, frames: u64)
    requires
        target != s.applied,
        s.plan.revision < u64::MAX,
        now + 2_000_000_000 <= u64::MAX,
    ensures
        ({
            let (t, reason) = s.driven(now, target, frames);
            &&& reason == Some(Reason::Target)
            &&& t.plan.enabled == target.enabled && t.plan.codec == target.codec
            &&& t.plan.revision == s.plan.revision + 1
            &&& t.applied == target
            &&& t.pending == Some((0u32, (now + 2_000_000_000) as u64))
            &&& t.stalled is None
            &&& t.last_progress == now
            &&& t.last_frames == frames
            &&& t.runtime.revision == t.plan.revision
            &&& t.runtime.error.len() == 0
            &&& t.runtime.state == if target.enabled {
                1u8
            } else {
                3u8
            }
        }),
{
}

/// A plan that the phone does not report on in time is sent again as it was, as one of the next
/// generation, three times; after that audio has failed and nothing is sent.
pub proof fn law_unreported_plan_is_sent_again(s: LinkState, now: u64, tried: u32, due: u64)
    requires
        s.consistent(),
        s.pending == Some((tried, due)),
        s.plan.revision < u64::MAX,
        now + 2_000_000_000 <= u64::MAX,
    ensures
        ({
            let (t, reason) = s.driven(now, s.applied, s.last_frames);
            &&& now < due ==> reason is None && t.pending == s.pending && t.plan == s.plan
            &&& now >= due && tried < 3 ==> {
                &&& reason == Some(Reason::Retry)
                &&& t.plan.revision == s.plan.revision + 1
                &&& t.plan.enabled == s.plan.enabled && t.plan.codec == s.plan.codec
                &&& t.pending == Some(((tried + 1) as u32, (now + 2_000_000_000) as u64))
            }
            &&& now >= due && tried >= 3 ==> {
                &&& reason is None
                &&& t.pending is None
                &&& t.plan == s.plan
                &&& t.runtime.state == 4
                &&& t.runtime.error.len() > 0
            }
        }),
{
    reveal_strlit("设备未确认音频切换（已重试 ");
}

/// A stall that goes on is answered exactly where ten seconds have passed since it began, or
/// since the last answer, and fewer than three answers were given. The answer is the same plan,
/// of the next generation.
pub proof fn law_stall_is_answered_every_ten_seconds(
    s: LinkState,
    given: u32,
    since: u64,
    now: u64,
)
    requires
        s.consistent(),
        s.stalled == Some((given, since)),
        since <= now,
        s.plan.revision < u64::MAX,
        now + 2_000_000_000 <= u64::MAX,
    ensures
        s.answers_stall(now) <==> given < 3 && now - since >= 10_000_000_000,
        ({
            let t = s.issued(now, s.applied, Reason::Stall, 0);
            &&& t.plan.revision == s.plan.revision + 1
            &&& t.plan.enabled == s.plan.enabled && t.plan.codec == s.plan.codec
            &&& given < 3 ==> t.stalled == Some(((given + 1) as u32, now))
            &&& t.pending == Some((0u32, (now + 2_000_000_000) as u64))
        }),
{
}

/// Without a stall nothing is answered.
pub proof fn law_no_answer_without_a_stall(s: LinkState, now: u64)
    requires
        s.stalled is None,
    ensures
        !s.answers_stall(now),
{
}

/// What the phone reports is shown: that audio plays, or is off, or why it failed. A report on
/// the present plan ends the wait for it; one on a later plan does not. The plan stays.
pub proof fn law_report_is_shown(
    s: LinkState,
    revision: u64,
    enabled: bool,
    codec_id: u32,
    error: Seq<char>,
)
    ensures
        ({
            let t = s.reported(revision, enabled, codec_id, error);
            &&& t.plan == s.plan && t.applied == s.applied && t.stalled == s.stalled
            &&& t.last_frames == s.last_frames && t.last_progress == s.last_progress
            &&& t.runtime.revision == s.runtime.revision
            &&& error.len() == 0 && enabled ==> t.runtime.state == 2
            &&& error.len() == 0 && !enabled ==> t.runtime.state == 0
            &&& error.len() == 0 ==> t.runtime.codec_id == codec_id && t.runtime.error.len() == 0
            &&& error.len() > 0 ==> t.runtime.state == 4 && t.runtime.error == error
                && t.runtime.codec_id == s.runtime.codec_id
            &&& revision == s.plan.revision ==> t.pending is None
            &&& revision != s.plan.revision ==> t.pending == s.pending
        }),
{
}

/// Media belongs to a plan exactly where the plan switches audio on and the generations are the
/// same.
pub proof fn law_media_belongs_to_its_generation(plan: AudioPlan, revision: u64)
    ensures
        plan.admits(revision) <==> plan.enabled && plan.revision == revision,
{
}

/// A link begins with the plan that is wanted, under the number 0: nothing waits for an answer and
/// nothing is stalled. What is shown is that audio is starting where it is wanted, and off where not.
pub proof fn law_link_begins_as_wanted(target: AudioTarget, now: u64)
    ensures
        ({
            let s = LinkState::fresh(target, now);
            &&& s.applied == target
            &&& s.plan.revision == 0 && s.plan.enabled == target.enabled && s.plan.codec
                == target.codec
            &&& s.pending is None && s.stalled is None
            &&& s.last_frames == 0 && s.last_progress == now
            &&& s.runtime.revision == 0 && s.runtime.codec_id == 0 && s.runtime.error.len() == 0
            &&& s.runtime.state == if target.enabled {
                1u8
            } else {
                0u8
            }
        }),
{
}

} // verus!
