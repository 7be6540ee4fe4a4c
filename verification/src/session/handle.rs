//! The states of a session, and how one is stopped.
use crate::text::{cat2, decimal_text};
use vstd::prelude::*;

verus! {

pub const SESSION_STATE_IDLE: u8 = 0;

pub const SESSION_STATE_CONNECTING: u8 = 1;

pub const SESSION_STATE_RUNNING: u8 = 2;

pub const SESSION_STATE_FAILED: u8 = 3;

pub const SESSION_STATE_STOPPED: u8 = 4;

/// What a state is called.
pub open spec fn state_name(state: u8) -> Seq<char> {
    if state == SESSION_STATE_IDLE {
        "idle"@
    } else if state == SESSION_STATE_CONNECTING {
        "connecting"@
    } else if state == SESSION_STATE_RUNNING {
        "running"@
    } else if state == SESSION_STATE_FAILED {
        "failed"@
    } else if state == SESSION_STATE_STOPPED {
        "stopped"@
    } else {
        "unknown"@
    }
}

/// What a state is called.
pub fn session_state_str(state: u8) -> (r: &'static str)
    ensures
        r@ == state_name(state),
{
    if state == SESSION_STATE_IDLE {
        "idle"
    } else if state == SESSION_STATE_CONNECTING {
        "connecting"
    } else if state == SESSION_STATE_RUNNING {
        "running"
    } else if state == SESSION_STATE_FAILED {
        "failed"
    } else if state == SESSION_STATE_STOPPED {
        "stopped"
    } else {
        "unknown"
    }
}

/// Different states have different names, and none of them is called unknown.
pub proof fn law_state_names_differ(a: u8, b: u8)
    requires
        a <= SESSION_STATE_STOPPED,
        a != b,
    ensures
        state_name(a) != state_name(b),
{
    reveal_strlit("idle");
    reveal_strlit("connecting");
    reveal_strlit("running");
    reveal_strlit("failed");
    reveal_strlit("stopped");
    reveal_strlit("unknown");
    let x = state_name(a);
    let y = state_name(b);
    assert(x[0] != y[0] || x.len() != y.len());
}

/// What the core keeps of a session that was started.
#[derive(Debug)]
pub struct Handle {
    /// The port that the session uses.
    pub port: u16,
    pub clipboard_enabled: bool,
    pub notification_enabled: bool,
    pub audio_enabled: bool,
    /// In percent.
    pub volume: u16,
    /// One of the states above.
    pub session_state: u8,
    /// How much audio is waiting to be played, in milliseconds.
    pub audio_latency: u64,
}

impl Handle {
    pub fn state(&self) -> (r: u8)
        ensures
            r == self.session_state,
    {
        self.session_state
    }

    pub fn set_state(&mut self, state: u8)
        ensures
            *final(self) == (Handle { session_state: state, ..*old(self) }),
    {
        self.session_state = state;
    }

    pub fn state_str(&self) -> (r: &'static str)
        ensures
            r@ == state_name(self.session_state),
    {
        session_state_str(self.session_state)
    }

    /// The session has ended by itself; it may be tried again.
    pub fn is_failed(&self) -> (r: bool)
        ensures
            r == (self.session_state == SESSION_STATE_FAILED),
    {
        self.session_state == SESSION_STATE_FAILED
    }
}

/// How long a session may take to stop: 2 seconds, in nanoseconds.
pub const STOP_TIMEOUT: u64 = 2_000_000_000;

/// The shell command that kills what a session left running on a phone.
pub const KILL_SERVER: &'static str =
    "kill -9 $(ps 2>/dev/null | grep com.genymobile.scrcpy | grep -v grep | awk '{print $2}') 2>/dev/null; true";

/// The arguments that make adb kill what a session left running.
pub open spec fn kill_args(serial: Seq<char>) -> Seq<Seq<char>> {
    seq!["-s"@, serial, "shell"@, KILL_SERVER@]
}

pub fn build_kill_args(serial: &str) -> (r: Vec<String>)
    ensures
        crate::text::string_views(r@) == kill_args(serial@),
{
    let r = vec!["-s".to_owned(), serial.to_owned(), "shell".to_owned(), KILL_SERVER.to_owned()];
    assert(crate::text::string_views(r@) =~= kill_args(serial@));
    r
}

/// The arguments that make adb give up a forwarded port.
pub open spec fn unforward_args(serial: Seq<char>, port: u16) -> Seq<Seq<char>> {
    seq!["-s"@, serial, "forward"@, "--remove"@, "tcp:"@ + crate::text::decimal(port as nat)]
}

pub fn build_unforward_args(serial: &str, port: u16) -> (r: Vec<String>)
    ensures
        crate::text::string_views(r@) == unforward_args(serial@, port),
{
    let r = vec![
        "-s".to_owned(),
        serial.to_owned(),
        "forward".to_owned(),
        "--remove".to_owned(),
        cat2("tcp:", decimal_text(port as u64).as_str()),
    ];
    assert(crate::text::string_views(r@) =~= unforward_args(serial@, port));
    r
}

/// The argument lists of a number of commands.
pub open spec fn command_views(v: Seq<Vec<String>>) -> Seq<Seq<Seq<char>>> {
    v.map_values(|c: Vec<String>| crate::text::string_views(c@))
}

/// The adb commands that clean up after a session that was told to stop. One that did not
/// end in time is killed on the phone first.
pub fn stop(serial: &str, port: u16, timed_out: bool) -> (r: Vec<Vec<String>>)
    ensures
        command_views(r@) == if timed_out {
            seq![kill_args(serial@), unforward_args(serial@, port)]
        } else {
            seq![unforward_args(serial@, port)]
        },
{
    let mut r: Vec<Vec<String>> = Vec::new();
    if timed_out {
        r.push(build_kill_args(serial));
    }
    r.push(build_unforward_args(serial, port));
    proof {
        if timed_out {
            assert(command_views(r@) =~= seq![kill_args(serial@), unforward_args(serial@, port)]);
        } else {
            assert(command_views(r@) =~= seq![unforward_args(serial@, port)]);
        }
    }
    r
}

/// The port that is given up is the one that was forwarded, of the same device.
pub proof fn law_forwarded_port_is_given_up(serial: Seq<char>, port: u16, socket: Seq<char>, other: u16)
    ensures
        ({
            let f = crate::adb_cmd::forward_args(serial, port, socket);
            let u = unforward_args(serial, port);
            &&& f.len() == 5 && u.len() == 5
            &&& f[0] == u[0] && f[0] == "-s"@
            &&& f[1] == serial && u[1] == serial
            &&& f[2] == u[2] && f[2] == "forward"@
            &&& f[3] == u[4]
            &&& u[3] == "--remove"@
            &&& f[3] == "tcp:"@ + crate::text::decimal(port as nat)
            &&& f[4] == "localabstract:"@ + socket
            &&& unforward_args(serial, other) == u ==> other == port
        }),
{
    let f = crate::adb_cmd::forward_args(serial, port, socket);
    let u = unforward_args(serial, port);
    let v = unforward_args(serial, other);
    if v == u {
        assert(v[4] == u[4]);
        let a = crate::text::decimal(port as nat);
        let b = crate::text::decimal(other as nat);
        assert(u[4].skip("tcp:"@.len() as int) =~= a);
        assert(v[4].skip("tcp:"@.len() as int) =~= b);
        crate::text::law_decimal_is_plain(port as nat, other as nat);
    }
}

/// The states go by these names.
pub proof fn law_states_have_their_names()
    ensures
        state_name(0) == "idle"@,
        state_name(1) == "connecting"@,
        state_name(2) == "running"@,
        state_name(3) == "failed"@,
        state_name(4) == "stopped"@,
        forall|s: u8| s > 4 ==> #[trigger] state_name(s) == "unknown"@,
{
}

} // verus!
