//! How adb is called, and what its answers mean.
use crate::protocol::devices;
use crate::text::{
    cat2, chars_of, contains_chars, copy_text, decimal_text, string_of, text_lossy, trim,
};
use crate::types::{AdbError, Device};
use crate::wireless_pair::WirelessPairing;
use vstd::prelude::*;
use vstd::string::StringExecFns;

verus! {

/// The adb program.
#[derive(Debug, Clone)]
pub struct AdbCmd {
    adb_path: String,
}

/// What became of a call of adb.
pub enum RunOutcome {
    /// There is no such program.
    NotFound,
    /// It could not be run for another reason.
    Io(std::io::Error),
    /// It ended.
    Exited { success: bool, stdout: Vec<u8>, stderr: Vec<u8> },
}

/// What a call of adb printed.
#[derive(Debug)]
pub struct AdbOutput {
    pub stdout: Vec<u8>,
    pub stderr: Vec<u8>,
}

/// The texts with a blank between each two.
pub open spec fn joined_by_blanks(v: Seq<Seq<char>>) -> Seq<char>
    decreases v.len(),
{
    if v.len() == 0 {
        Seq::empty()
    } else if v.len() == 1 {
        v[0]
    } else {
        joined_by_blanks(v.drop_last()) + " "@ + v.last()
    }
}

fn join_args(args: &[String]) -> (r: String)
    ensures
        r@ == joined_by_blanks(crate::text::string_views(args@)),
{
    let ghost all = crate::text::string_views(args@);
    if args.len() == 0 {
        let r = String::new();
        assert(r@ =~= Seq::empty());
        return r;
    }
    let mut r = copy_text(&args[0]);
    let mut i: usize = 1;
    assert(all.take(1)[0] == args@[0]@);
    while i < args.len()
        invariant
            1 <= i <= args@.len(),
            all == crate::text::string_views(args@),
            r@ == joined_by_blanks(all.take(i as int)),
        decreases args@.len() - i,
    {
        proof {
            let t = all.take(i + 1);
            assert(t.drop_last() =~= all.take(i as int));
            assert(t.last() == args@[i as int]@);
        }
        r = r.concat(" ").concat(args[i].as_str());
        i += 1;
    }
    assert(all.take(i as int) =~= all);
    r
}

/// What adb printed as errors, without white space at its ends.
pub open spec fn complaint(stderr: Seq<u8>) -> Seq<char> {
    crate::text::trimmed(crate::text::lossy_text(stderr))
}

fn read_complaint(stderr: &[u8]) -> (r: String)
    ensures
        r@ == complaint(stderr@),
{
    let text = text_lossy(stderr);
    let chars = chars_of(text.as_str());
    string_of(trim(chars.as_slice()))
}

impl AdbCmd {
    pub closed spec fn path(&self) -> Seq<char> {
        self.adb_path@
    }

    /// The program that is here where there is one, else the one that the system finds.
    pub fn new(windows: bool, is_here: bool) -> (r: Self)
        ensures
            r.path() == if !is_here {
                "adb"@
            } else if windows {
                "./adb.exe"@
            } else {
                "./adb"@
            },
    {
        if !is_here {
            AdbCmd { adb_path: "adb".to_owned() }
        } else {
            AdbCmd { adb_path: Self::local_path(windows).to_owned() }
        }
    }

    /// Where the program is looked for first.
    pub fn local_path(windows: bool) -> (r: &'static str)
        ensures
            r@ == if windows {
                "./adb.exe"@
            } else {
                "./adb"@
            },
    {
        if windows {
            "./adb.exe"
        } else {
            "./adb"
        }
    }

    pub fn with_path(path: &str) -> (r: Self)
        ensures
            r.path() == path@,
    {
        AdbCmd { adb_path: path.to_owned() }
    }

    pub fn adb_path(&self) -> (r: &str)
        ensures
            r@ == self.path(),
    {
        self.adb_path.as_str()
    }

    /// Whether there is an adb that works, from what became of asking for its version.
    pub fn check(&self, outcome: &RunOutcome) -> (r: Result<(), AdbError>)
        ensures
            match outcome {
                RunOutcome::Exited { success: true, .. } => r is Ok,
                _ => r matches Err(AdbError::AdbNotFound { tried }) && tried@ == self.path(),
            },
    {
        match outcome {
            RunOutcome::Exited { success: true, stdout: _, stderr: _ } => Ok(()),
            _ => Err(AdbError::AdbNotFound { tried: copy_text(&self.adb_path) }),
        }
    }

    /// What a call with the arguments `args` gave.
    pub fn run(&self, args: &[String], outcome: RunOutcome) -> (r: Result<AdbOutput, AdbError>)
        ensures
            match outcome {
                RunOutcome::NotFound => r matches Err(AdbError::AdbNotFound { tried }) && tried@
                    == self.path(),
                RunOutcome::Io(e) => r == Err::<AdbOutput, AdbError>(AdbError::Io(e)),
                RunOutcome::Exited { success, stdout, stderr } => if success {
                    r == Ok::<AdbOutput, AdbError>(AdbOutput { stdout, stderr })
                } else {
                    r matches Err(AdbError::CommandFailed(m)) && m@ == "adb "@ + joined_by_blanks(
                        crate::text::string_views(args@),
                    ) + ": "@ + complaint(stderr@)
                },
            },
    {
        match outcome {
            RunOutcome::NotFound => Err(
                AdbError::AdbNotFound { tried: copy_text(&self.adb_path) },
            ),
            RunOutcome::Io(e) => Err(AdbError::Io(e)),
            RunOutcome::Exited { success, stdout, stderr } => {
                if success {
                    Ok(AdbOutput { stdout, stderr })
                } else {
                    let what = join_args(args);
                    let why = read_complaint(stderr.as_slice());
                    Err(
                        AdbError::CommandFailed(
                            cat2("adb ", what.as_str()).concat(": ").concat(why.as_str()),
                        ),
                    )
                }
            },
        }
    }

    /// What bringing the file `local` to `remote` on a device gave.
    pub fn push(
        &self,
        serial: &str,
        local: &str,
        remote: &str,
        outcome: RunOutcome,
    ) -> (r: Result<(), AdbError>)
        ensures
            match outcome {
                RunOutcome::NotFound => r matches Err(AdbError::AdbNotFound { tried }) && tried@
                    == self.path(),
                RunOutcome::Io(e) => r == Err::<(), AdbError>(AdbError::Io(e)),
                RunOutcome::Exited { success, stdout: _, stderr } => if success {
                    r is Ok
                } else {
                    r matches Err(AdbError::CommandFailed(m)) && m@ == "adb -s "@ + serial@
                        + " push "@ + local@ + " "@ + remote@ + ": "@ + complaint(stderr@)
                },
            },
    {
        match outcome {
            RunOutcome::NotFound => Err(
                AdbError::AdbNotFound { tried: copy_text(&self.adb_path) },
            ),
            RunOutcome::Io(e) => Err(AdbError::Io(e)),
            RunOutcome::Exited { success, stdout: _, stderr } => {
                if success {
                    Ok(())
                } else {
                    let why = read_complaint(stderr.as_slice());
                    Err(
                        AdbError::CommandFailed(
                            cat2("adb -s ", serial).concat(" push ").concat(local).concat(
                                " ",
                            ).concat(remote).concat(": ").concat(why.as_str()),
                        ),
                    )
                }
            },
        }
    }

    /// What connecting to a device gave. adb ends well even where it could not connect, so
    /// what it printed decides.
    pub fn connect(&self, outcome: Result<AdbOutput, AdbError>) -> (r: Result<(), AdbError>)
        ensures
            match outcome {
                Err(e) => r == Err::<(), AdbError>(e),
                Ok(o) => {
                    let text = crate::text::lossy_text(o.stdout@) + crate::text::lossy_text(
                        o.stderr@,
                    );
                    if says_connected(text) {
                        r is Ok
                    } else {
                        r matches Err(AdbError::CommandFailed(m)) && m@ == text
                    }
                },
            },
    {
        match outcome {
            Err(e) => Err(e),
            Ok(o) => {
                let out = text_lossy(o.stdout.as_slice());
                let err = text_lossy(o.stderr.as_slice());
                let text = out.concat(err.as_str());
                if connected(text.as_str()) {
                    Ok(())
                } else {
                    Err(AdbError::CommandFailed(text))
                }
            },
        }
    }

    /// The devices that adb lists.
    pub fn parse_devices(&self, stdout: &[u8]) -> (r: Result<Vec<Device>, AdbError>)
        ensures
            !vstd::utf8::valid_utf8(stdout@) <==> r matches Err(AdbError::Utf8(_)),
            vstd::utf8::valid_utf8(stdout@) <==> r is Ok,
            r matches Ok(v) ==> crate::device_refresh::block_of(
                stdout@,
                crate::types::device_views(v@),
            ),
    {
        devices::parse_devices(stdout)
    }
}

/// `s` with its ASCII letters in lower case.
pub open spec fn lowered(s: Seq<char>) -> Seq<char> {
    s.map_values(|c: char| crate::protocol::devices::ascii_lower(c))
}

/// What adb prints says that it is connected, in whatever case.
pub open spec fn says_connected(text: Seq<char>) -> bool {
    crate::text::find_text(lowered(text), "connected to"@) is Some || crate::text::find_text(
        lowered(text),
        "already connected"@,
    ) is Some
}

fn lower_chars(s: &str) -> (r: Vec<char>)
    ensures
        r@ == lowered(s@),
{
    let v = chars_of(s);
    let mut r: Vec<char> = Vec::new();
    let mut i: usize = 0;
    while i < v.len()
        invariant
            i <= v@.len(),
            v@ == s@,
            r@.len() == i,
            forall|j: int| 0 <= j < i ==> #[trigger] r@[j] == lowered(s@)[j],
        decreases v@.len() - i,
    {
        r.push(devices::lower(v[i]));
        i += 1;
    }
    assert(r@ =~= lowered(s@));
    r
}

pub fn connected(text: &str) -> (r: bool)
    ensures
        r == says_connected(text@),
{
    let lower = lower_chars(text);
    let a = chars_of("connected to");
    let b = chars_of("already connected");
    contains_chars(lower.as_slice(), a.as_slice()) || contains_chars(lower.as_slice(), b.as_slice())
}

/// The arguments for the list of devices.
pub fn build_devices_args() -> (r: Vec<String>)
    ensures
        crate::text::string_views(r@) == seq!["devices"@, "-l"@],
{
    let r = vec!["devices".to_owned(), "-l".to_owned()];
    assert(crate::text::string_views(r@) =~= seq!["devices"@, "-l"@]);
    r
}

/// The arguments that connect to the device at `addr`.
pub fn build_connect_args(addr: &str) -> (r: Vec<String>)
    ensures
        crate::text::string_views(r@) == seq!["connect"@, addr@],
{
    let r = vec!["connect".to_owned(), addr.to_owned()];
    assert(crate::text::string_views(r@) =~= seq!["connect"@, addr@]);
    r
}

/// The arguments that pair with the phone at `addr`.
pub fn build_wireless_pair_args(addr: &str, info: &WirelessPairing) -> (r: Vec<String>)
    ensures
        crate::text::string_views(r@) == crate::wireless_pair::pair_args(addr@, info.psk@),
{
    crate::wireless_pair::build_pair_args(addr, info)
}

/// The arguments that bring the file `local` to `remote` on a device.
pub fn build_push_args(serial: &str, local: &str, remote: &str) -> (r: Vec<String>)
    ensures
        crate::text::string_views(r@) == seq!["-s"@, serial@, "push"@, local@, remote@],
{
    let r = vec![
        "-s".to_owned(),
        serial.to_owned(),
        "push".to_owned(),
        local.to_owned(),
        remote.to_owned(),
    ];
    assert(crate::text::string_views(r@) =~= seq!["-s"@, serial@, "push"@, local@, remote@]);
    r
}

/// The arguments that forward a port of this machine to a socket on a device.
pub open spec fn forward_args(
    serial: Seq<char>,
    local_port: u16,
    remote_abstract: Seq<char>,
) -> Seq<Seq<char>> {
    seq![
        "-s"@,
        serial,
        "forward"@,
        "tcp:"@ + crate::text::decimal(local_port as nat),
        "localabstract:"@ + remote_abstract,
    ]
}

pub fn build_forward_args(serial: &str, local_port: u16, remote_abstract: &str) -> (r: Vec<String>)
    ensures
        crate::text::string_views(r@) == forward_args(serial@, local_port, remote_abstract@),
{
    let r = vec![
        "-s".to_owned(),
        serial.to_owned(),
        "forward".to_owned(),
        cat2("tcp:", decimal_text(local_port as u64).as_str()),
        cat2("localabstract:", remote_abstract),
    ];
    assert(crate::text::string_views(r@) =~= forward_args(serial@, local_port, remote_abstract@));
    r
}

/// The arguments that run `shell_args` in a shell on a device.
pub fn build_shell_args(serial: &str, shell_args: &[String]) -> (r: Vec<String>)
    ensures
        crate::text::string_views(r@) == seq!["-s"@, serial@, "shell"@] + crate::text::string_views(
            shell_args@,
        ),
{
    let mut r = vec!["-s".to_owned(), serial.to_owned(), "shell".to_owned()];
    let mut i: usize = 0;
    let ghost head = seq!["-s"@, serial@, "shell"@];
    assert(crate::text::string_views(r@) =~= head + crate::text::string_views(shell_args@).take(0));
    while i < shell_args.len()
        invariant
            i <= shell_args@.len(),
            crate::text::string_views(r@) == head + crate::text::string_views(shell_args@).take(
                i as int,
            ),
        decreases shell_args@.len() - i,
    {
        let ghost before = r@;
        r.push(copy_text(&shell_args[i]));
        i += 1;
        assert(crate::text::string_views(r@) =~= crate::text::string_views(before).push(
            shell_args@[i - 1]@,
        ));
        assert(crate::text::string_views(r@) =~= head + crate::text::string_views(shell_args@).take(
            i as int,
        ));
    }
    assert(crate::text::string_views(shell_args@).take(i as int) =~= crate::text::string_views(
        shell_args@,
    ));
    r
}

/// Words that are joined stand in their order, with one blank between each two.
pub proof fn law_arguments_are_joined(v: Seq<Seq<char>>, last: Seq<char>)
    ensures
        joined_by_blanks(seq![last]) == last,
        v.len() > 0 ==> joined_by_blanks(v.push(last)) == joined_by_blanks(v) + seq![' '] + last,
        joined_by_blanks(Seq::empty()).len() == 0,
{
    reveal_strlit(" ");
    reveal_with_fuel(joined_by_blanks, 2);
    if v.len() > 0 {
        assert(v.push(last).drop_last() =~= v);
        assert(joined_by_blanks(v.push(last)) =~= joined_by_blanks(v) + seq![' '] + last);
    }
}

/// What adb complains of is what it printed as errors, without the white space around it.
pub proof fn law_complaint_is_what_was_printed(
    stderr: Seq<u8>,
    before: Seq<char>,
    text: Seq<char>,
    after: Seq<char>,
)
    requires
        forall|i: int| 0 <= i < before.len() ==> crate::text::is_space(#[trigger] before[i]),
        forall|i: int| 0 <= i < after.len() ==> crate::text::is_space(#[trigger] after[i]),
        text.len() > 0 ==> !crate::text::is_space(text.first()) && !crate::text::is_space(
            text.last(),
        ),
        crate::text::lossy_text(stderr) == before + text + after,
    ensures
        complaint(stderr) == text,
{
    crate::text::law_padding_is_trimmed(before, text, after);
}

/// `c` is the letter `l` of the alphabet, small or capital, or `l` is no letter and `c` is `l`.
pub open spec fn reads_as(c: char, l: char) -> bool {
    c == l || ('a' <= l <= 'z' && c as int + 32 == l as int)
}

/// Wherever adb prints `connected to` or `already connected`, with letters in whatever case, it is
/// taken to be connected.
pub proof fn law_connection_is_noticed(text: Seq<char>, at: int, said: Seq<char>)
    requires
        said == "connected to"@ || said == "already connected"@,
        0 <= at,
        at + said.len() <= text.len(),
        forall|i: int| 0 <= i < said.len() ==> reads_as(#[trigger] text[at + i], said[i]),
    ensures
        says_connected(text),
{
    reveal_strlit("connected to");
    reveal_strlit("already connected");
    let low = lowered(text);
    assert forall|i: int| 0 <= i < said.len() implies low[at + i] == said[i] by {
        assert(reads_as(text[at + i], said[i]));
        assert(low[at + i] == crate::protocol::devices::ascii_lower(text[at + i]));
    }
    assert(low.subrange(at, at + said.len()) =~= said);
    crate::text::law_text_is_found_where_it_first_occurs(low, said, at);
}

/// Where adb is taken to be connected, it has printed one of the two.
pub proof fn law_connection_was_printed(text: Seq<char>)
    requires
        says_connected(text),
    ensures
        (exists|at: int| 0 <= at && #[trigger] stands_at(text, at, "connected to"@)) || (exists|
            at: int,
        |
            0 <= at && #[trigger] stands_at(text, at, "already connected"@)),
{
    let low = lowered(text);
    let (said, at) = if crate::text::find_text(low, "connected to"@) is Some {
        ("connected to"@, crate::text::find_text(low, "connected to"@)->0 as int)
    } else {
        ("already connected"@, crate::text::find_text(low, "already connected"@)->0 as int)
    };
    crate::text::lemma_find_text(low, said);
    assert forall|i: int| 0 <= i < said.len() implies reads_as(#[trigger] text[at + i], said[i]) by {
        assert(low.skip(at).take(said.len() as int)[i] == said[i]);
        assert(low[at + i] == crate::protocol::devices::ascii_lower(text[at + i]));
    }
    assert(stands_at(text, at, said));
}

/// `said` stands in the text at place `at`, with letters in whatever case.
pub open spec fn stands_at(text: Seq<char>, at: int, said: Seq<char>) -> bool {
    at + said.len() <= text.len() && forall|i: int|
        0 <= i < said.len() ==> reads_as(#[trigger] text[at + i], said[i])
}

} // verus!
