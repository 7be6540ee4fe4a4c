//! Starting the daemon when the user logs in.
//!
//! The configuration file says what the user wants. The entry with which the system starts
//! the daemon follows it: whatever was done to the entry, the next start of the daemon puts
//! it right.
use crate::settings::AppConfig;
use crate::text::cat3;
use vstd::prelude::*;
use vstd::string::StringExecFns;

verus! {

/// The systems that differ in how they start programs.
#[derive(Debug, Clone, Copy, PartialEq, Eq, Structural)]
pub enum Platform {
    /// An entry in the registry.
    Windows,
    /// A file in the user's autostart directory.
    Linux,
    /// No way to start programs is known.
    Other,
}

/// What is told of the setting.
#[derive(Debug, Clone, Copy, PartialEq, Eq, Structural)]
pub struct AutostartState {
    /// What the user wants.
    pub enabled: bool,
    /// Whether the system can start programs.
    pub supported: bool,
}

/// The name of our value in the registry.
pub const RUN_KEY_VALUE_NAME: &'static str = "Kulua";

/// The key of the registry that our value stands in, below that of the user.
pub const RUN_KEY_PATH: &'static str = "Software\\Microsoft\\Windows\\CurrentVersion\\Run";

/// The name of our file in the autostart directory.
pub const DESKTOP_FILE_NAME: &'static str = "kulua-daemon.desktop";

pub open spec fn supports(p: Platform) -> bool {
    p == Platform::Windows || p == Platform::Linux
}

/// Whether the system can start programs when the user logs in.
pub fn platform_supported(p: Platform) -> (r: bool)
    ensures
        r == supports(p),
{
    match p {
        Platform::Windows => true,
        Platform::Linux => true,
        Platform::Other => false,
    }
}

/// The autostart directory: below the configuration directory where that is set, else below
/// `.config` in the user's directory, or here where that is not known either.
pub open spec fn autostart_directory(
    xdg: Option<Seq<char>>,
    home: Option<Seq<char>>,
) -> Seq<char> {
    match (xdg, home) {
        (Some(x), _) => joined(x, "autostart"@),
        (None, Some(h)) => joined(joined(h, ".config"@), "autostart"@),
        (None, None) => ".config/autostart"@,
    }
}

/// The path of `name` in the directory `dir`. A directory that is empty or ends in a slash
/// needs no other.
pub open spec fn joined(dir: Seq<char>, name: Seq<char>) -> Seq<char> {
    if dir.len() == 0 || dir.last() == '/' {
        dir + name
    } else {
        dir + "/"@ + name
    }
}

pub fn join_path(dir: &str, name: &str) -> (r: String)
    ensures
        r@ == joined(dir@, name@),
{
    let d = crate::text::chars_of(dir);
    if d.len() == 0 || d[d.len() - 1] == '/' {
        crate::text::cat2(dir, name)
    } else {
        cat3(dir, "/", name)
    }
}

/// The text of an optional string slice.
pub open spec fn str_view(o: Option<&str>) -> Option<Seq<char>> {
    match o {
        Some(s) => Some(s@),
        None => None,
    }
}

/// The autostart directory, from the values of `XDG_CONFIG_HOME` and `HOME`.
pub fn autostart_dir(xdg: Option<&str>, home: Option<&str>) -> (r: String)
    ensures
        r@ == autostart_directory(str_view(xdg), str_view(home)),
{
    match xdg {
        Some(x) => join_path(x, "autostart"),
        None => match home {
            Some(h) => join_path(join_path(h, ".config").as_str(), "autostart"),
            None => ".config/autostart".to_owned(),
        },
    }
}

/// Whether a character needs a backslash before it in the command of a desktop entry.
pub open spec fn is_special(c: char) -> bool {
    c == '"' || c == '\\' || c == '`' || c == '$'
}

/// `s` with a backslash before every special character.
pub open spec fn escaped(s: Seq<char>) -> Seq<char>
    decreases s.len(),
{
    if s.len() == 0 {
        Seq::empty()
    } else if is_special(s.last()) {
        escaped(s.drop_last()).push('\\').push(s.last())
    } else {
        escaped(s.drop_last()).push(s.last())
    }
}

pub fn escape(s: &str) -> (r: String)
    ensures
        r@ == escaped(s@),
{
    let v = crate::text::chars_of(s);
    let mut r = String::new();
    let mut i: usize = 0;
    assert(v@.take(0) =~= Seq::empty());
    assert(r@ =~= Seq::empty());
    while i < v.len()
        invariant
            i <= v@.len(),
            v@ == s@,
            r@ == escaped(v@.take(i as int)),
        decreases v@.len() - i,
    {
        proof {
            let t = v@.take(i + 1);
            assert(t.drop_last() =~= v@.take(i as int));
            assert(t.last() == v@[i as int]);
        }
        let c: char = v[i];
        if c == '"' || c == '\\' || c == '`' || c == '$' {
            r.push('\\');
        }
        r.push(c);
        i += 1;
    }
    assert(v@.take(i as int) =~= v@);
    r
}

/// What a desktop reads an escaped text as.
pub open spec fn unescaped(s: Seq<char>) -> Seq<char>
    decreases s.len(),
{
    if s.len() == 0 {
        Seq::empty()
    } else if s.first() == '\\' && s.len() >= 2 {
        seq![s[1]] + unescaped(s.skip(2))
    } else {
        seq![s.first()] + unescaped(s.skip(1))
    }
}

/// An escaped text does not end in the middle of an escape.
pub open spec fn complete(s: Seq<char>) -> bool
    decreases s.len(),
{
    if s.len() == 0 {
        true
    } else if s.first() == '\\' {
        s.len() >= 2 && complete(s.skip(2))
    } else {
        complete(s.skip(1))
    }
}

proof fn lemma_unescaped_append(s: Seq<char>, t: Seq<char>, c: char)
    requires
        complete(s),
        t == if is_special(c) {
            seq!['\\', c]
        } else {
            seq![c]
        },
    ensures
        complete(s + t),
        unescaped(s + t) == unescaped(s).push(c),
    decreases s.len(),
{
    reveal_with_fuel(unescaped, 2);
    reveal_with_fuel(complete, 2);
    if s.len() == 0 {
        assert(s + t =~= t);
        if is_special(c) {
            assert(t.skip(2) =~= Seq::empty());
        } else {
            assert(t.skip(1) =~= Seq::empty());
        }
        assert(seq![c] + Seq::<char>::empty() =~= Seq::<char>::empty().push(c));
    } else if s.first() == '\\' {
        lemma_unescaped_append(s.skip(2), t, c);
        assert((s + t).skip(2) =~= s.skip(2) + t);
        assert(seq![s[1]] + unescaped(s.skip(2)).push(c) =~= (seq![s[1]] + unescaped(
            s.skip(2),
        )).push(c));
    } else {
        lemma_unescaped_append(s.skip(1), t, c);
        assert((s + t).skip(1) =~= s.skip(1) + t);
        assert(seq![s.first()] + unescaped(s.skip(1)).push(c) =~= (seq![s.first()] + unescaped(
            s.skip(1),
        )).push(c));
    }
}

/// Whatever characters a path holds, the desktop reads it back as it was.
pub proof fn law_escaping_is_undone(s: Seq<char>)
    ensures
        complete(escaped(s)),
        unescaped(escaped(s)) == s,
    decreases s.len(),
{
    if s.len() > 0 {
        law_escaping_is_undone(s.drop_last());
        let c = s.last();
        let t = if is_special(c) {
            seq!['\\', c]
        } else {
            seq![c]
        };
        lemma_unescaped_append(escaped(s.drop_last()), t, c);
        if is_special(c) {
            assert(escaped(s.drop_last()).push('\\').push(c) =~= escaped(s.drop_last()) + t);
        } else {
            assert(escaped(s.drop_last()).push(c) =~= escaped(s.drop_last()) + t);
        }
        assert(s.drop_last().push(c) =~= s);
    }
}

/// What our file in the autostart directory holds.
pub open spec fn desktop_entry(exe: Seq<char>) -> Seq<char> {
    "[Desktop Entry]\nType=Application\nName=Kulua Daemon\nExec=\""@ + escaped(exe)
        + "\"\nX-GNOME-Autostart-enabled=true\n"@
}

pub fn desktop_entry_text(exe: &str) -> (r: String)
    ensures
        r@ == desktop_entry(exe@),
{
    cat3(
        "[Desktop Entry]\nType=Application\nName=Kulua Daemon\nExec=\"",
        escape(exe).as_str(),
        "\"\nX-GNOME-Autostart-enabled=true\n",
    )
}

/// What is to be done to the entry with which the system starts the daemon.
pub enum EntryAction {
    /// The value in the registry is set to this path.
    SetValue(String),
    /// The value is taken out of the registry; it does not matter whether it was there.
    DeleteValue,
    /// This directory is made where it is missing, and the file of this path gets this text.
    WriteFile { dir: String, path: String, content: String },
    /// The file of this path is removed; it does not matter whether it was there.
    RemoveFile { path: String },
    Nothing,
}

/// `a` brings the entry in line with `enabled`.
pub open spec fn sets_entry(
    a: EntryAction,
    p: Platform,
    dir: Seq<char>,
    exe: Seq<char>,
    enabled: bool,
) -> bool {
    match p {
        Platform::Windows => if enabled {
            a matches EntryAction::SetValue(v) && v@ == exe
        } else {
            a is DeleteValue
        },
        Platform::Linux => if enabled {
            &&& a matches EntryAction::WriteFile { dir: d, path, content }
            &&& d@ == dir
            &&& path@ == joined(dir, DESKTOP_FILE_NAME@)
            &&& content@ == desktop_entry(exe)
        } else {
            a matches EntryAction::RemoveFile { path } && path@ == joined(dir, DESKTOP_FILE_NAME@)
        },
        Platform::Other => a is Nothing,
    }
}

/// What brings the system's entry in line with `enabled`; `dir` is the autostart directory.
pub fn set_platform_entry(p: Platform, dir: &str, exe: &str, enabled: bool) -> (r: EntryAction)
    ensures
        sets_entry(r, p, dir@, exe@, enabled),
{
    match p {
        Platform::Windows => {
            if enabled {
                EntryAction::SetValue(exe.to_owned())
            } else {
                EntryAction::DeleteValue
            }
        },
        Platform::Linux => {
            let path = join_path(dir, DESKTOP_FILE_NAME);
            if enabled {
                EntryAction::WriteFile {
                    dir: dir.to_owned(),
                    path,
                    content: desktop_entry_text(exe),
                }
            } else {
                EntryAction::RemoveFile { path }
            }
        },
        Platform::Other => EntryAction::Nothing,
    }
}

/// What is told of the setting, which the configuration decides.
pub fn current_state(config: &AppConfig, p: Platform) -> (r: AutostartState)
    ensures
        r.enabled == config@.autostart_enabled,
        r.supported == supports(p),
{
    AutostartState { enabled: config.autostart_enabled, supported: platform_supported(p) }
}

/// What the user wants is written into the configuration. The result is what then has to be
/// done to the entry, and what is told once both are done.
pub fn set_enabled(
    config: &mut AppConfig,
    p: Platform,
    dir: &str,
    exe: &str,
    enabled: bool,
) -> (r: (EntryAction, AutostartState))
    ensures
        final(config)@ == (crate::settings::Config { autostart_enabled: enabled, ..old(config)@ }),
        sets_entry(r.0, p, dir@, exe@, enabled),
        r.1.enabled == enabled,
        r.1.supported == supports(p),
{
    config.autostart_enabled = enabled;
    let action = set_platform_entry(p, dir, exe, enabled);
    (action, AutostartState { enabled, supported: platform_supported(p) })
}

/// What brings the entry in line with the configuration when the daemon starts.
pub fn reconcile(config: &AppConfig, p: Platform, dir: &str, exe: &str) -> (r: EntryAction)
    ensures
        sets_entry(r, p, dir@, exe@, config@.autostart_enabled),
{
    set_platform_entry(p, dir, exe, config.autostart_enabled)
}

/// A path in a directory goes through it: it begins with the directory and ends with the name, with
/// one slash between them and no other.
pub proof fn law_path_goes_through_its_directory(dir: Seq<char>, name: Seq<char>)
    requires
        dir.len() > 0,
    ensures
        joined(dir, name).take(dir.len() as int) == dir,
        joined(dir, name).skip(joined(dir, name).len() - name.len()) == name,
        dir.last() == '/' ==> joined(dir, name).len() == dir.len() + name.len(),
        dir.last() != '/' ==> joined(dir, name).len() == dir.len() + 1 + name.len() && joined(
            dir,
            name,
        )[dir.len() as int] == '/',
        joined(Seq::empty(), name) == name,
{
    reveal_strlit("/");
    assert(joined(dir, name).take(dir.len() as int) =~= dir);
    assert(joined(dir, name).skip(joined(dir, name).len() - name.len()) =~= name);
    assert(joined(Seq::empty(), name) =~= name);
}

/// The file that starts the daemon names its program: what stands between the quotes is read back
/// as the path.
pub proof fn law_entry_starts_the_program(exe: Seq<char>)
    ensures
        exists|at: int, n: int|
            0 <= at && 0 <= n && at + n < desktop_entry(exe).len() && unescaped(
                #[trigger] desktop_entry(exe).subrange(at, at + n),
            ) == exe && desktop_entry(exe)[at - 1] == '"' && desktop_entry(exe)[at + n] == '"'
                && crate::text::find_text(desktop_entry(exe), "\nExec=\""@) is Some && at >= 7
                && desktop_entry(exe).subrange(at - 7, at) == "\nExec=\""@,
{
    reveal_strlit("[Desktop Entry]\nType=Application\nName=Kulua Daemon\nExec=\"");
    reveal_strlit("\"\nX-GNOME-Autostart-enabled=true\n");
    reveal_strlit("\nExec=\"");
    law_escaping_is_undone(exe);
    let head = "[Desktop Entry]\nType=Application\nName=Kulua Daemon\nExec=\""@;
    let e = desktop_entry(exe);
    let at = head.len() as int;
    let n = escaped(exe).len() as int;
    assert(e.subrange(at, at + n) =~= escaped(exe));
    assert(e.subrange(at - 7, at) =~= "\nExec=\""@);
    crate::text::law_text_is_found_where_it_first_occurs(e, "\nExec=\""@, at - 7);
}

/// Switching the daemon's start on writes the entry and switching it off removes the same entry: the
/// same file of the autostart directory, or the same value of the registry. A system that
/// cannot start programs is left alone.
pub proof fn law_entry_is_written_and_removed(
    on: EntryAction,
    off: EntryAction,
    p: Platform,
    dir: Seq<char>,
    exe: Seq<char>,
)
    requires
        sets_entry(on, p, dir, exe, true),
        sets_entry(off, p, dir, exe, false),
    ensures
        p == Platform::Linux ==> on is WriteFile && off is RemoveFile && on->WriteFile_path@
            == off->RemoveFile_path@ && on->dir@ == dir && on->content@ == desktop_entry(exe)
            && on->WriteFile_path@ == joined(dir, "kulua-daemon.desktop"@),
        p == Platform::Windows ==> on is SetValue && on->SetValue_0@ == exe && off is DeleteValue,
        p == Platform::Other ==> on is Nothing && off is Nothing,
        supports(p) <==> !(on is Nothing),
{
}

/// The autostart directory lies below the configuration directory where that is set, and else below
/// the user's directory.
pub proof fn law_entry_lies_below_the_user(xdg: Seq<char>, home: Seq<char>)
    requires
        xdg.len() > 0 && home.len() > 0,
    ensures
        autostart_directory(Some(xdg), Some(home)) == joined(xdg, "autostart"@),
        autostart_directory(Some(xdg), None) == joined(xdg, "autostart"@),
        autostart_directory(None, Some(home)).take(home.len() as int) == home,
        autostart_directory(None, Some(home)) == joined(joined(home, ".config"@), "autostart"@),
{
    law_path_goes_through_its_directory(home, ".config"@);
    let c = joined(home, ".config"@);
    law_path_goes_through_its_directory(c, "autostart"@);
    assert(c.len() >= home.len());
    assert(joined(c, "autostart"@).take(home.len() as int) =~= c.take(home.len() as int));
}

} // verus!
