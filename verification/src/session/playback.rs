//! The task that plays a session's audio: what it does with each plan, parameter set and
//! frame.
//!
//! Only audio of the present generation is played. A new plan throws away the parameters
//! and the decoder of the earlier one. A codec that needs parameters gets no decoder before
//! those of its own generation have come: it would never read a frame.
use super::audio::AudioPlan;
use super::runner::AudioEvent;
use crate::audio_player::{AudioCodec, AUDIO_BUFFER_MAX_MS};
use crate::proto::codec::{MEDIA_FLAG_CONFIG, MEDIA_FLAG_SESSION};
use crate::proto::reliable::elapsed_since;
use crate::wire::copy_bytes;
use vstd::prelude::*;

verus! {

/// How often the delay is logged: every 5 seconds, in nanoseconds.
pub const LOG_INTERVAL: u64 = 5_000_000_000;

/// The codec of index `index`; raw samples where there is none.
pub open spec fn codec_at(index: u8) -> AudioCodec {
    match AudioCodec::indexed(index) {
        Some(c) => c,
        None => AudioCodec::Raw,
    }
}

pub fn codec_of(index: u8) -> (r: AudioCodec)
    ensures
        r == codec_at(index),
{
    match AudioCodec::from_handshake_byte(index) {
        Some(c) => c,
        None => AudioCodec::Raw,
    }
}

/// What the codec of index `index` is called.
pub fn codec_label(index: u8) -> (r: &'static str)
    ensures
        r@ == codec_at(index).spelled(),
{
    codec_of(index).name()
}

/// What a codec identifier is called in the log.
pub fn audio_codec_name(id: u32) -> (r: &'static str)
    ensures
        r@ == if id == 0x6f707573 {
            "OPUS"@
        } else if id == 0x00616163 {
            "AAC"@
        } else if id == 0x666c6163 {
            "FLAC"@
        } else if id == 0x00726177 {
            "RAW"@
        } else {
            "UNKNOWN"@
        },
{
    if id == 0x6f707573 {
        "OPUS"
    } else if id == 0x00616163 {
        "AAC"
    } else if id == 0x666c6163 {
        "FLAC"
    } else if id == 0x00726177 {
        "RAW"
    } else {
        "UNKNOWN"
    }
}

/// What the task does with what came.
pub enum PlayStep {
    /// Nothing: it is not of the present generation, or carries no audio.
    Drop,
    /// The decoder is thrown away; the next frame makes a new one.
    Discard,
    /// The frame is dropped: its codec waits for its parameters. Said once.
    AwaitConfig { warn: bool },
    /// A decoder for `codec` has to be made, from the parameters if there are any. Then the
    /// frame is played.
    Build { codec: AudioCodec, config: Option<Vec<u8>>, data: Vec<u8> },
    /// The frame is played.
    Play { data: Vec<u8> },
}

/// What is done before a frame is handed to the decoder.
#[derive(Debug, Clone, Copy, PartialEq, Eq, Structural)]
pub struct Prepare {
    /// The volume to set, in percent.
    pub volume: Option<u16>,
    /// Too much audio is waiting; it is thrown away.
    pub flush: bool,
}

/// What is done after a frame was handed to the decoder.
#[derive(Debug, Clone, Copy, PartialEq, Eq, Structural)]
pub struct Finish {
    /// The delay to show, in milliseconds.
    pub latency: Option<u64>,
    /// The frame counts as played.
    pub played: bool,
    /// The delay is logged.
    pub log: bool,
}

/// What the task knows.
#[verifier::ext_equal]
pub struct Playing {
    pub plan: AudioPlan,
    /// The parameters of the codec.
    pub config: Option<Seq<u8>>,
    /// There is a decoder.
    pub player: bool,
    /// The volume that was set last.
    pub volume: u16,
    pub logged_at: u64,
    pub warned: bool,
}

impl Playing {
    pub open spec fn fresh(plan: AudioPlan, volume: u16, now: u64) -> Playing {
        Playing { plan, config: None, player: false, volume, logged_at: now, warned: false }
    }

    pub open spec fn codec(self) -> AudioCodec {
        codec_at(self.plan.codec)
    }

    /// A decoder that needs parameters has them.
    pub open spec fn sound(self) -> bool {
        self.player && self.codec().wants_config() ==> self.config is Some
    }

    /// A new plan: nothing of the earlier one is kept.
    pub open spec fn replanned(self, plan: AudioPlan) -> Playing {
        Playing { plan, config: None, player: false, warned: false, ..self }
    }

    /// Parameters that came apart from the frames.
    pub open spec fn configured(self, data: Seq<u8>) -> Playing {
        Playing { config: Some(data), player: false, warned: false, ..self }
    }

    /// Parameters that came as a frame.
    pub open spec fn inlined(self, data: Seq<u8>) -> Playing {
        Playing { config: Some(data), player: false, ..self }
    }

    /// The codec waits for its parameters.
    pub open spec fn starved(self) -> bool {
        !self.player && self.codec().wants_config() && self.config is None
    }
}

/// What came for the task, as the contracts speak of it.
pub enum Heard {
    Config { revision: u64, data: Seq<u8> },
    Frame { revision: u64, flags: u32, data: Seq<u8> },
}

/// What came for the task.
pub open spec fn heard(event: AudioEvent) -> Heard {
    match event {
        AudioEvent::Config { revision, data } => Heard::Config { revision, data: data@ },
        AudioEvent::Frame { revision, frame } => Heard::Frame {
            revision,
            flags: frame.flags,
            data: frame.data@,
        },
    }
}

/// What the task does with what came, as the contracts speak of it.
pub enum Step {
    Drop,
    Discard,
    AwaitConfig { warn: bool },
    Build { codec: AudioCodec, config: Option<Seq<u8>>, data: Seq<u8> },
    Play { data: Seq<u8> },
}

impl View for PlayStep {
    type V = Step;

    open spec fn view(&self) -> Step {
        match *self {
            PlayStep::Drop => Step::Drop,
            PlayStep::Discard => Step::Discard,
            PlayStep::AwaitConfig { warn } => Step::AwaitConfig { warn },
            PlayStep::Build { codec, config, data } => Step::Build {
                codec,
                config: bytes_view(config),
                data: data@,
            },
            PlayStep::Play { data } => Step::Play { data: data@ },
        }
    }
}

impl Playing {
    /// The task once it has met with what came, and what it does.
    pub open spec fn met(self, event: Heard) -> (Playing, Step) {
        match event {
            Heard::Config { revision, data } => if self.plan.admits(revision) {
                (self.configured(data), Step::Discard)
            } else {
                (self, Step::Drop)
            },
            Heard::Frame { revision, flags, data } => if !self.plan.admits(revision) || has_flag(
                flags,
                MEDIA_FLAG_SESSION,
            ) {
                (self, Step::Drop)
            } else if has_flag(flags, MEDIA_FLAG_CONFIG) {
                (self.inlined(data), Step::Discard)
            } else if self.starved() {
                (Playing { warned: true, ..self }, Step::AwaitConfig { warn: !self.warned })
            } else if self.player {
                (self, Step::Play { data })
            } else {
                (self, Step::Build { codec: self.codec(), config: self.config, data })
            },
        }
    }
}

/// The flags of a frame, as bits.
pub open spec fn has_flag(flags: u32, flag: u32) -> bool {
    flags & flag != 0
}

/// The task that plays a session's audio.
pub struct Playback {
    plan: AudioPlan,
    config: Option<Vec<u8>>,
    player: bool,
    volume: u16,
    logged_at: u64,
    warned: bool,
}

/// The bytes of an optional vector.
pub open spec fn bytes_view(o: Option<Vec<u8>>) -> Option<Seq<u8>> {
    match o {
        Some(v) => Some(v@),
        None => None,
    }
}

impl View for Playback {
    type V = Playing;

    closed spec fn view(&self) -> Playing {
        Playing {
            plan: self.plan,
            config: bytes_view(self.config),
            player: self.player,
            volume: self.volume,
            logged_at: self.logged_at,
            warned: self.warned,
        }
    }
}

impl Playback {
    pub fn new(plan: AudioPlan, volume: u16, now: u64) -> (r: Self)
        ensures
            r@ == Playing::fresh(plan, volume, now),
            r@.sound(),
    {
        Playback { plan, config: None, player: false, volume, logged_at: now, warned: false }
    }

    /// A new plan. The decoder and its parameters are thrown away. The result tells whether
    /// the delay that is shown has to be set to 0, which it is where audio is now off.
    pub fn on_plan(&mut self, plan: AudioPlan) -> (silent: bool)
        ensures
            final(self)@ == old(self)@.replanned(plan),
            final(self)@.sound(),
            silent == !plan.enabled,
    {
        self.plan = plan;
        self.player = false;
        self.config = None;
        self.warned = false;
        assert(self@ =~= old(self)@.replanned(plan));
        !plan.enabled
    }

    /// Something came for the task.
    pub fn on_event(&mut self, event: AudioEvent) -> (r: PlayStep)
        requires
            old(self)@.sound(),
        ensures
            final(self)@.sound(),
            (final(self)@, r@) == old(self)@.met(heard(event)),
            match event {
                AudioEvent::Config { revision, data } => if old(self)@.plan.admits(revision) {
                    final(self)@ == old(self)@.configured(data@) && r is Discard
                } else {
                    final(self)@ == old(self)@ && r is Drop
                },
                AudioEvent::Frame { revision, frame } => if !old(self)@.plan.admits(revision)
                    || has_flag(frame.flags, MEDIA_FLAG_SESSION) {
                    final(self)@ == old(self)@ && r is Drop
                } else if has_flag(frame.flags, MEDIA_FLAG_CONFIG) {
                    final(self)@ == old(self)@.inlined(frame.data@) && r is Discard
                } else if old(self)@.starved() {
                    &&& final(self)@ == (Playing { warned: true, ..old(self)@ })
                    &&& r matches PlayStep::AwaitConfig { warn } && warn == !old(self)@.warned
                } else {
                    &&& final(self)@ == old(self)@
                    &&& if old(self)@.player {
                        r == (PlayStep::Play { data: frame.data })
                    } else {
                        &&& r matches PlayStep::Build { codec, config, data }
                        &&& codec == old(self)@.codec()
                        &&& bytes_view(config) == old(self)@.config
                        &&& data == frame.data
                    }
                },
            },
    {
        let ghost before = self@;
        match event {
            AudioEvent::Config { revision, data } => {
                if !self.plan.accepts(revision) {
                    return PlayStep::Drop;
                }
                self.config = Some(data);
                self.player = false;
                self.warned = false;
                assert(self@ =~= before.configured(data@));
                PlayStep::Discard
            },
            AudioEvent::Frame { revision, frame } => {
                if !self.plan.accepts(revision) {
                    return PlayStep::Drop;
                }
                if frame.flags & MEDIA_FLAG_SESSION != 0 {
                    return PlayStep::Drop;
                }
                if frame.flags & MEDIA_FLAG_CONFIG != 0 {
                    let ghost data = frame.data@;
                    self.config = Some(frame.data);
                    self.player = false;
                    assert(self@ =~= before.inlined(data));
                    return PlayStep::Discard;
                }
                if self.player {
                    return PlayStep::Play { data: frame.data };
                }
                let codec = codec_of(self.plan.codec);
                if codec.needs_config() && self.config.is_none() {
                    let warn: bool = !self.warned;
                    self.warned = true;
                    assert(self@ =~= (Playing { warned: true, ..before }));
                    return PlayStep::AwaitConfig { warn };
                }
                let config = match &self.config {
                    Some(c) => Some(copy_bytes(c.as_slice())),
                    None => None,
                };
                PlayStep::Build { codec, config, data: frame.data }
            },
        }
    }

    /// The decoder that was asked for was made (`true`), or could not be: then the frame is
    /// dropped, and the next one tries again.
    pub fn on_built(&mut self, ok: bool)
        requires
            old(self)@.sound(),
            !old(self)@.starved(),
        ensures
            final(self)@ == (Playing { player: ok, ..old(self)@ }),
            final(self)@.sound(),
    {
        self.player = ok;
        assert(self@ =~= (Playing { player: ok, ..old(self)@ }));
    }

    /// Before a frame is handed to the decoder: `volume` is what the user wants, and
    /// `buffer_ms` how much audio is waiting.
    pub fn before_frame(&mut self, volume: u16, buffer_ms: u64) -> (r: Prepare)
        requires
            old(self)@.sound(),
        ensures
            final(self)@ == (Playing { volume, ..old(self)@ }),
            final(self)@.sound(),
            r.volume == if volume != old(self)@.volume {
                Some(volume)
            } else {
                None
            },
            r.flush == (buffer_ms > AUDIO_BUFFER_MAX_MS),
    {
        let changed: bool = volume != self.volume;
        self.volume = volume;
        assert(self@ =~= (Playing { volume, ..old(self)@ }));
        Prepare {
            volume: if changed {
                Some(volume)
            } else {
                None
            },
            flush: buffer_ms > AUDIO_BUFFER_MAX_MS,
        }
    }

    /// After a frame was handed to the decoder, which could read it (`ok`) or could not.
    pub fn after_frame(&mut self, ok: bool, buffer_ms: u64, now: u64) -> (r: Finish)
        requires
            old(self)@.sound(),
        ensures
            final(self)@.sound(),
            r.played == ok,
            r.latency == if ok {
                Some(buffer_ms)
            } else {
                None
            },
            r.log == (crate::proto::reliable::elapsed(now, old(self)@.logged_at) >= LOG_INTERVAL),
            final(self)@ == if r.log {
                Playing { logged_at: now, ..old(self)@ }
            } else {
                old(self)@
            },
    {
        let log: bool = elapsed_since(now, self.logged_at) >= LOG_INTERVAL;
        if log {
            self.logged_at = now;
        }
        assert(self@ =~= if log {
            Playing { logged_at: now, ..old(self)@ }
        } else {
            old(self)@
        });
        Finish {
            latency: if ok {
                Some(buffer_ms)
            } else {
                None
            },
            played: ok,
            log,
        }
    }
}

/// After a new plan no frame is played before a decoder was made for it, and no decoder is
/// made of parameters that came before it.
pub proof fn law_new_plan_starts_clean(p: Playing, plan: AudioPlan)
    ensures
        !p.replanned(plan).player,
        p.replanned(plan).config is None,
        p.replanned(plan).plan == plan,
        codec_at(plan.codec).wants_config() ==> p.replanned(plan).starved(),
        p.replanned(plan).replanned(plan) == p.replanned(plan),
{
}

/// A frame of the present generation that carries nothing but audio reaches a decoder: that
/// which there is, or one that is made for it, of the codec of the plan and with the parameters
/// that have come. It is held back only where the codec is AAC or FLAC, there is no decoder and
/// no parameters have come; raw audio and opus never are. Nothing but the warning changes.
pub proof fn law_frame_reaches_a_decoder(p: Playing, data: Seq<u8>)
    requires
        p.plan.enabled,
    ensures
        ({
            let (q, step) = p.met(Heard::Frame { revision: p.plan.revision, flags: 0, data });
            let index = p.plan.codec;
            let held = !p.player && p.config is None && (index == 2 || index == 3);
            &&& held <==> step is AwaitConfig
            &&& !held && p.player ==> step == (Step::Play { data })
            &&& !held && !p.player ==> step == (Step::Build {
                codec: if index == 1 {
                    AudioCodec::Opus
                } else if index == 2 {
                    AudioCodec::Aac
                } else if index == 3 {
                    AudioCodec::Flac
                } else {
                    AudioCodec::Raw
                },
                config: p.config,
                data,
            })
            &&& step matches Step::AwaitConfig { warn } ==> warn != p.warned
            &&& q == (Playing { warned: p.warned || held, ..p })
        }),
{
    assert(0u32 & MEDIA_FLAG_SESSION == 0) by (bit_vector);
    assert(0u32 & MEDIA_FLAG_CONFIG == 0) by (bit_vector);
}

/// Parameters of the present generation are kept for the decoder that the next frame makes,
/// whether they came by themselves or as a frame; a decoder that there was is thrown away.
pub proof fn law_parameters_make_the_next_decoder(p: Playing, config: Seq<u8>, data: Seq<u8>)
    requires
        p.plan.enabled,
    ensures
        ({
            let revision = p.plan.revision;
            let frame = Heard::Frame { revision, flags: 0, data };
            let (a, x) = p.met(Heard::Config { revision, data: config });
            let (b, y) = p.met(Heard::Frame { revision, flags: 1, data: config });
            &&& x is Discard && y is Discard
            &&& !a.player && a.config == Some(config) && a.plan == p.plan && a.volume == p.volume
            &&& !b.player && b.config == Some(config) && b.plan == p.plan && b.volume == p.volume
            &&& a.met(frame).1 matches Step::Build { config: c, data: d, .. } && c == Some(config)
                && d == data
            &&& b.met(frame).1 matches Step::Build { config: c, data: d, .. } && c == Some(config)
                && d == data
        }),
{
    let revision = p.plan.revision;
    assert(1u32 & 4 == 0 && 1u32 & 1 == 1) by (bit_vector);
    law_frame_reaches_a_decoder(p.met(Heard::Config { revision, data: config }).0, data);
    law_frame_reaches_a_decoder(p.met(Heard::Frame { revision, flags: 1, data: config }).0, data);
}

/// What belongs to another generation, or comes while audio is off, changes nothing and is not
/// played; nor is a frame that marks a session.
pub proof fn law_foreign_audio_is_dropped(p: Playing, revision: u64, flags: u32, data: Seq<u8>)
    ensures
        !p.plan.enabled || revision != p.plan.revision ==> {
            &&& p.met(Heard::Config { revision, data }) == (p, Step::Drop)
            &&& p.met(Heard::Frame { revision, flags, data }) == (p, Step::Drop)
        },
        flags & 4 != 0 ==> p.met(Heard::Frame { revision, flags, data }) == (p, Step::Drop),
{
}

/// Playing begins with the plan and the volume that were given, without parameters and without a
/// decoder.
pub proof fn law_playing_begins_without_a_decoder(plan: AudioPlan, volume: u16, now: u64)
    ensures
        ({
            let p = Playing::fresh(plan, volume, now);
            &&& p.plan == plan && p.volume == volume && p.logged_at == now
            &&& p.config is None && !p.player && !p.warned
        }),
{
}

/// After a new plan, and after parameters that came apart from the frames, a wait for parameters is
/// warned of again; what is played goes on at the same volume.
pub proof fn law_new_wait_is_warned_of(p: Playing, plan: AudioPlan, data: Seq<u8>)
    ensures
        ({
            let q = p.replanned(plan);
            &&& q.plan == plan && q.config is None && !q.player && !q.warned
            &&& q.volume == p.volume && q.logged_at == p.logged_at
        }),
        ({
            let q = p.configured(data);
            &&& q.config == Some(data) && !q.player && !q.warned
            &&& q.plan == p.plan && q.volume == p.volume && q.logged_at == p.logged_at
        }),
{
}

} // verus!
