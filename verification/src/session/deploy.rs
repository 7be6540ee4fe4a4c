//! How a session comes up: the server is brought to the phone and started, the phone's
//! name and address are found out, and the handshake is made.
use crate::proto::session::ConnectOpts;
use crate::scrcpy::{build_server_args, kill_by_scid, scid_hex};
use crate::settings::ScrcpyParams;
use crate::text::{copy_text, string_of, text_lossy};
use crate::types::Device;
use vstd::prelude::*;

verus! {

/// What is to be done next.
pub enum DeployStep {
    /// adb kills what an earlier session on this port has left on the phone. It does not
    /// matter whether that works.
    KillStale(Vec<String>),
    /// It is found out whether the server on the phone is the one that is here.
    CompareJar,
    /// The server is brought to the phone.
    Push,
    /// adb starts the server, with these arguments for the shell.
    Spawn(Vec<String>),
    /// adb is asked for the phone's name.
    AskName(Vec<String>),
    /// The phone's address is found out.
    Resolve,
    /// The handshake is made with the phone at this address.
    Connect { addr: String, scid: String, opts: ConnectOpts },
    /// The session cannot come up. Where the server was started, it is stopped.
    Fail { stop_server: bool },
    /// The session is up.
    Ready,
}

/// What is to be done next, without the arguments that adb gets.
pub enum Wanted {
    Kill,
    Compare,
    Push,
    Spawn,
    AskName,
    Resolve,
    Connect,
    Fail { stop_server: bool },
    Ready,
}

impl View for DeployStep {
    type V = Wanted;

    open spec fn view(&self) -> Wanted {
        match *self {
            DeployStep::KillStale(_) => Wanted::Kill,
            DeployStep::CompareJar => Wanted::Compare,
            DeployStep::Push => Wanted::Push,
            DeployStep::Spawn(_) => Wanted::Spawn,
            DeployStep::AskName(_) => Wanted::AskName,
            DeployStep::Resolve => Wanted::Resolve,
            DeployStep::Connect { .. } => Wanted::Connect,
            DeployStep::Fail { stop_server } => Wanted::Fail { stop_server },
            DeployStep::Ready => Wanted::Ready,
        }
    }
}

/// What became of what was awaited.
pub enum Outcome {
    Killed,
    Compared { needs_push: bool },
    Pushed { ok: bool },
    Spawned { ok: bool },
    Named,
    Resolved { found: bool },
    Connected { ok: bool },
}

/// What is awaited.
#[derive(Debug, Clone, Copy, PartialEq, Eq, Structural)]
pub enum DeployPhase {
    Killing,
    Comparing,
    Pushing,
    Spawning,
    Naming,
    Resolving,
    Connecting,
    Failed,
    Up,
}

/// The arguments that ask adb for the phone's name.
pub open spec fn name_args(serial: Seq<char>) -> Seq<Seq<char>> {
    seq!["-s"@, serial, "shell"@, "getprop"@, "ro.product.model"@]
}

pub fn build_name_args(serial: &str) -> (r: Vec<String>)
    ensures
        crate::text::string_views(r@) == name_args(serial@),
{
    let r = vec![
        "-s".to_owned(),
        serial.to_owned(),
        "shell".to_owned(),
        "getprop".to_owned(),
        "ro.product.model".to_owned(),
    ];
    assert(crate::text::string_views(r@) =~= name_args(serial@));
    r
}

/// The name that a phone gave, where it gave one.
pub open spec fn name_in(stdout: Option<Seq<u8>>) -> Option<Seq<char>> {
    match stdout {
        Some(b) => {
            let name = crate::text::trimmed(crate::text::lossy_text(b));
            if name.len() > 0 {
                Some(name)
            } else {
                None
            }
        },
        None => None,
    }
}

/// The bytes that adb printed, where it printed any.
pub open spec fn output_view(o: Option<&[u8]>) -> Option<Seq<u8>> {
    match o {
        Some(b) => Some(b@),
        None => None,
    }
}

pub fn read_name(stdout: Option<&[u8]>) -> (r: Option<String>)
    ensures
        crate::text::string_view(r) == name_in(output_view(stdout)),
{
    match stdout {
        Some(b) => {
            let text = text_lossy(b);
            let chars = crate::text::chars_of(text.as_str());
            let name = crate::text::trim(chars.as_slice());
            if name.len() > 0 {
                Some(string_of(name))
            } else {
                None
            }
        },
        None => None,
    }
}

/// How a handshake is made: the way for audio is always opened, because audio can be
/// switched on later, and no video is asked for.
pub open spec fn opts_for(hello_audio: bool) -> ConnectOpts {
    ConnectOpts { audio_link: true, hello_audio, video: false }
}

/// A session that is coming up.
pub struct Deployment {
    serial: String,
    /// The phone's name is not known yet.
    unnamed: bool,
    port: u16,
    params: ScrcpyParams,
    hello_audio: bool,
    phase: DeployPhase,
}

/// A session that is coming up, as the contracts speak of it.
#[verifier::ext_equal]
pub struct Deploying {
    pub serial: Seq<char>,
    pub unnamed: bool,
    pub port: u16,
    pub params: ScrcpyParams,
    pub hello_audio: bool,
    pub phase: DeployPhase,
}

impl Deploying {
    pub open spec fn at(self, phase: DeployPhase) -> Deploying {
        Deploying { phase, ..self }
    }

    /// What follows an outcome.
    pub open spec fn followed(self, o: Outcome) -> (Deploying, Wanted) {
        match o {
            Outcome::Killed => (self.at(DeployPhase::Comparing), Wanted::Compare),
            Outcome::Compared { needs_push: true } => (
                self.at(DeployPhase::Pushing),
                Wanted::Push,
            ),
            Outcome::Compared { needs_push: false } => (
                self.at(DeployPhase::Spawning),
                Wanted::Spawn,
            ),
            Outcome::Pushed { ok: true } => (self.at(DeployPhase::Spawning), Wanted::Spawn),
            Outcome::Spawned { ok: true } => if self.unnamed {
                (self.at(DeployPhase::Naming), Wanted::AskName)
            } else {
                (self.at(DeployPhase::Resolving), Wanted::Resolve)
            },
            Outcome::Named => (self.at(DeployPhase::Resolving), Wanted::Resolve),
            Outcome::Resolved { found: true } => (
                self.at(DeployPhase::Connecting),
                Wanted::Connect,
            ),
            Outcome::Connected { ok: true } => (self.at(DeployPhase::Up), Wanted::Ready),
            Outcome::Pushed { ok: false } | Outcome::Spawned { ok: false } => (
                self.at(DeployPhase::Failed),
                Wanted::Fail { stop_server: false },
            ),
            Outcome::Resolved { found: false } | Outcome::Connected { ok: false } => (
                self.at(DeployPhase::Failed),
                Wanted::Fail { stop_server: true },
            ),
        }
    }
}

impl View for Deployment {
    type V = Deploying;

    closed spec fn view(&self) -> Deploying {
        Deploying {
            serial: self.serial@,
            unnamed: self.unnamed,
            port: self.port,
            params: self.params,
            hello_audio: self.hello_audio,
            phase: self.phase,
        }
    }
}

impl Deployment {
    /// Begins: what an earlier session on this port has left is killed, and nothing else
    /// of that kind is touched.
    pub fn new(device: &Device, port: u16, params: ScrcpyParams, hello_audio: bool) -> (r: (
        Self,
        DeployStep,
    ))
        ensures
            r.0@ == (Deploying {
                serial: device@.serial,
                unnamed: device@.name.len() == 0,
                port,
                params,
                hello_audio,
                phase: DeployPhase::Killing,
            }),
            r.1 matches DeployStep::KillStale(args) && crate::text::string_views(args@)
                == crate::scrcpy::kill_args(device@.serial, port),
    {
        let args = kill_by_scid(device.serial.as_str(), port);
        let r = Deployment {
            serial: copy_text(&device.serial),
            unnamed: device.name.as_str().is_empty(),
            port,
            params,
            hello_audio,
            phase: DeployPhase::Killing,
        };
        (r, DeployStep::KillStale(args))
    }

    pub fn phase(&self) -> (r: DeployPhase)
        ensures
            r == self@.phase,
    {
        self.phase
    }

    pub fn on_killed(&mut self) -> (r: DeployStep)
        requires
            old(self)@.phase == DeployPhase::Killing,
        ensures
            final(self)@ == old(self)@.at(DeployPhase::Comparing),
            r is CompareJar,
            (final(self)@, r@) == old(self)@.followed(Outcome::Killed),
    {
        self.phase = DeployPhase::Comparing;
        DeployStep::CompareJar
    }

    fn spawn(&mut self) -> (r: DeployStep)
        ensures
            final(self)@ == old(self)@.at(DeployPhase::Spawning),
            r matches DeployStep::Spawn(args) && crate::text::string_views(args@)
                == crate::scrcpy::server_args(
                old(self)@.port,
                old(self)@.params.audio_codec@,
                old(self)@.params.audio_bit_rate,
            ),
    {
        self.phase = DeployPhase::Spawning;
        DeployStep::Spawn(build_server_args(self.port, &self.params))
    }

    fn fail(&mut self, stop_server: bool) -> (r: DeployStep)
        ensures
            final(self)@ == old(self)@.at(DeployPhase::Failed),
            r == (DeployStep::Fail { stop_server }),
    {
        self.phase = DeployPhase::Failed;
        DeployStep::Fail { stop_server }
    }

    /// The servers were compared.
    pub fn on_compared(&mut self, needs_push: bool) -> (r: DeployStep)
        requires
            old(self)@.phase == DeployPhase::Comparing,
        ensures
            if needs_push {
                final(self)@ == old(self)@.at(DeployPhase::Pushing) && r is Push
            } else {
                final(self)@ == old(self)@.at(DeployPhase::Spawning) && (
                r matches DeployStep::Spawn(args) && crate::text::string_views(args@)
                    == crate::scrcpy::server_args(
                    old(self)@.port,
                    old(self)@.params.audio_codec@,
                    old(self)@.params.audio_bit_rate,
                ))
            },
            (final(self)@, r@) == old(self)@.followed(Outcome::Compared { needs_push }),
    {
        if needs_push {
            self.phase = DeployPhase::Pushing;
            DeployStep::Push
        } else {
            self.spawn()
        }
    }

    /// The server was brought to the phone, or could not be.
    pub fn on_pushed(&mut self, ok: bool) -> (r: DeployStep)
        requires
            old(self)@.phase == DeployPhase::Pushing,
        ensures
            if ok {
                final(self)@ == old(self)@.at(DeployPhase::Spawning) && (
                r matches DeployStep::Spawn(args) && crate::text::string_views(args@)
                    == crate::scrcpy::server_args(
                    old(self)@.port,
                    old(self)@.params.audio_codec@,
                    old(self)@.params.audio_bit_rate,
                ))
            } else {
                final(self)@ == old(self)@.at(DeployPhase::Failed) && r == (DeployStep::Fail {
                    stop_server: false,
                })
            },
            (final(self)@, r@) == old(self)@.followed(Outcome::Pushed { ok }),
    {
        if ok {
            self.spawn()
        } else {
            self.fail(false)
        }
    }

    /// The server was started, or could not be. The phone is asked for its name where that
    /// is not known.
    pub fn on_spawned(&mut self, ok: bool) -> (r: DeployStep)
        requires
            old(self)@.phase == DeployPhase::Spawning,
        ensures
            if !ok {
                final(self)@ == old(self)@.at(DeployPhase::Failed) && r == (DeployStep::Fail {
                    stop_server: false,
                })
            } else if old(self)@.unnamed {
                final(self)@ == old(self)@.at(DeployPhase::Naming) && (
                r matches DeployStep::AskName(args) && crate::text::string_views(args@)
                    == name_args(old(self)@.serial))
            } else {
                final(self)@ == old(self)@.at(DeployPhase::Resolving) && r is Resolve
            },
            (final(self)@, r@) == old(self)@.followed(Outcome::Spawned { ok }),
    {
        if !ok {
            return self.fail(false);
        }
        if self.unnamed {
            self.phase = DeployPhase::Naming;
            DeployStep::AskName(build_name_args(self.serial.as_str()))
        } else {
            self.phase = DeployPhase::Resolving;
            DeployStep::Resolve
        }
    }

    /// What adb printed for the phone's name (`None` where it failed). A name goes to the
    /// core; without one the session comes up all the same.
    pub fn on_name(&mut self, stdout: Option<&[u8]>) -> (r: (Option<String>, DeployStep))
        requires
            old(self)@.phase == DeployPhase::Naming,
        ensures
            final(self)@ == old(self)@.at(DeployPhase::Resolving),
            crate::text::string_view(r.0) == name_in(output_view(stdout)),
            r.1 is Resolve,
            (final(self)@, r.1@) == old(self)@.followed(Outcome::Named),
    {
        self.phase = DeployPhase::Resolving;
        (read_name(stdout), DeployStep::Resolve)
    }

    /// The phone's address, where one was found.
    pub fn on_resolved(&mut self, addr: Option<String>) -> (r: DeployStep)
        requires
            old(self)@.phase == DeployPhase::Resolving,
        ensures
            match addr {
                Some(a) => {
                    &&& final(self)@ == old(self)@.at(DeployPhase::Connecting)
                    &&& r matches DeployStep::Connect { addr, scid, opts }
                    &&& addr == a
                    &&& scid@ == crate::text::hex(
                        crate::scrcpy::scid(old(self)@.port) as nat,
                        8,
                    )
                    &&& opts == opts_for(old(self)@.hello_audio)
                },
                None => final(self)@ == old(self)@.at(DeployPhase::Failed) && r == (
                DeployStep::Fail { stop_server: true }),
            },
            (final(self)@, r@) == old(self)@.followed(Outcome::Resolved { found: addr is Some }),
    {
        match addr {
            Some(addr) => {
                self.phase = DeployPhase::Connecting;
                DeployStep::Connect {
                    addr,
                    scid: scid_hex(self.port),
                    opts: ConnectOpts {
                        audio_link: true,
                        hello_audio: self.hello_audio,
                        video: false,
                    },
                }
            },
            None => self.fail(true),
        }
    }

    /// The handshake was made, or the address was no address, or the phone did not answer.
    pub fn on_connected(&mut self, ok: bool) -> (r: DeployStep)
        requires
            old(self)@.phase == DeployPhase::Connecting,
        ensures
            if ok {
                final(self)@ == old(self)@.at(DeployPhase::Up) && r is Ready
            } else {
                final(self)@ == old(self)@.at(DeployPhase::Failed) && r == (DeployStep::Fail {
                    stop_server: true,
                })
            },
            (final(self)@, r@) == old(self)@.followed(Outcome::Connected { ok }),
    {
        if ok {
            self.phase = DeployPhase::Up;
            DeployStep::Ready
        } else {
            self.fail(true)
        }
    }
}

/// A session comes up where all goes well: what is left of an earlier one is killed, the servers are
/// compared, the server is brought to the phone if need be and started, the phone is asked for its
/// name if that is not known, its address is found and the handshake made. What the session is for
/// does not change on the way.
pub proof fn law_session_comes_up(d: Deploying, needs_push: bool)
    ensures
        ({
            let (compared, w1) = d.followed(Outcome::Killed);
            let (pushed, w2) = compared.followed(Outcome::Compared { needs_push });
            let (spawned, w3) = if needs_push {
                pushed.followed(Outcome::Pushed { ok: true })
            } else {
                (pushed, w2)
            };
            let (named, w4) = spawned.followed(Outcome::Spawned { ok: true });
            let (resolved, w5) = if d.unnamed {
                named.followed(Outcome::Named)
            } else {
                (named, w4)
            };
            let (connected, w6) = resolved.followed(Outcome::Resolved { found: true });
            let (up, w7) = connected.followed(Outcome::Connected { ok: true });
            &&& w1 is Compare
            &&& if needs_push {
                w2 is Push
            } else {
                w2 is Spawn
            }
            &&& w3 is Spawn
            &&& if d.unnamed {
                w4 is AskName
            } else {
                w4 is Resolve
            }
            &&& w5 is Resolve && w6 is Connect && w7 is Ready
            &&& up == (Deploying { phase: DeployPhase::Up, ..d })
            &&& compared.phase == DeployPhase::Comparing
            &&& spawned.phase == DeployPhase::Spawning
            &&& resolved.phase == DeployPhase::Resolving
            &&& connected.phase == DeployPhase::Connecting
        }),
{
}

/// A step that goes wrong ends the attempt. The server on the phone is stopped where it was started
/// before, and is not where it never was.
pub proof fn law_failed_step_ends_the_attempt(d: Deploying)
    ensures
        d.followed(Outcome::Pushed { ok: false }).1 == (Wanted::Fail { stop_server: false }),
        d.followed(Outcome::Spawned { ok: false }).1 == (Wanted::Fail { stop_server: false }),
        d.followed(Outcome::Resolved { found: false }).1 == (Wanted::Fail { stop_server: true }),
        d.followed(Outcome::Connected { ok: false }).1 == (Wanted::Fail { stop_server: true }),
        d.followed(Outcome::Pushed { ok: false }).0.phase == DeployPhase::Failed,
        d.followed(Outcome::Spawned { ok: false }).0.phase == DeployPhase::Failed,
        d.followed(Outcome::Resolved { found: false }).0.phase == DeployPhase::Failed,
        d.followed(Outcome::Connected { ok: false }).0.phase == DeployPhase::Failed,
{
}

/// A phone's name is what it prints without the white space around it; nothing but white space is no
/// name.
pub proof fn law_printed_name_is_taken(
    b: Seq<u8>,
    before: Seq<char>,
    name: Seq<char>,
    after: Seq<char>,
)
    requires
        forall|i: int| 0 <= i < before.len() ==> crate::text::is_space(#[trigger] before[i]),
        forall|i: int| 0 <= i < after.len() ==> crate::text::is_space(#[trigger] after[i]),
        name.len() > 0 ==> !crate::text::is_space(name.first()) && !crate::text::is_space(
            name.last(),
        ),
        crate::text::lossy_text(b) == before + name + after,
    ensures
        name_in(Some(b)) == if name.len() > 0 {
            Some(name)
        } else {
            None
        },
        name_in(None) is None,
{
    crate::text::law_padding_is_trimmed(before, name, after);
}

/// The handshake of a session asks for the way for audio and for no video, and says whether audio is
/// wanted now.
pub proof fn law_handshake_opens_the_way_for_audio(wanted: bool)
    ensures
        opts_for(wanted).audio_link,
        opts_for(wanted).hello_audio == wanted,
        !opts_for(wanted).video,
{
}

/// The phone that is named is asked for its model.
pub proof fn law_phone_is_asked_for_its_model(serial: Seq<char>)
    ensures
        name_args(serial) == seq!["-s"@, serial, "shell"@, "getprop"@, "ro.product.model"@],
{
}

} // verus!
