//! Where the daemon finds what it needs.
use crate::text::string_views;
use vstd::prelude::*;

verus! {

/// Whether a path on Windows is a drive and nothing else, such as `C:`: a letter and a colon.
/// It stands for the drive's working directory.
pub open spec fn bare_drive(dir: Seq<char>) -> bool {
    &&& dir.len() == 2
    &&& ('a' <= dir[0] <= 'z' || 'A' <= dir[0] <= 'Z')
    &&& dir[1] == ':'
}

/// The path of `name` in the directory `dir`. A directory that is empty or ends in a separator
/// needs no other, and nor does a bare drive.
pub open spec fn within(windows: bool, dir: Seq<char>, name: Seq<char>) -> Seq<char> {
    if dir.len() == 0 || dir.last() == '/' || (windows && (dir.last() == '\\' || bare_drive(
        dir,
    ))) {
        dir + name
    } else if windows {
        dir + "\\"@ + name
    } else {
        dir + "/"@ + name
    }
}

/// The path of `name` in the directory `dir`.
pub fn path_within(windows: bool, dir: &str, name: &str) -> (r: String)
    ensures
        r@ == within(windows, dir@, name@),
{
    let d = crate::text::chars_of(dir);
    let n: usize = d.len();
    let drive = n == 2 && (('a' <= d[0] && d[0] <= 'z') || ('A' <= d[0] && d[0] <= 'Z')) && d[1]
        == ':';
    if n == 0 || d[n - 1] == '/' || (windows && (d[n - 1] == '\\' || drive)) {
        crate::text::cat2(dir, name)
    } else if windows {
        crate::text::cat3(dir, "\\", name)
    } else {
        crate::text::cat3(dir, "/", name)
    }
}

/// What the server is called.
pub const SERVER_JAR: &'static str = "kulua-server.jar";

/// Where the server is looked for, in this order: the working directory, its parent, and two
/// directories above that of the program.
pub open spec fn jar_places(
    windows: bool,
    name: Seq<char>,
    dir: Option<Seq<char>>,
) -> Seq<Seq<char>> {
    let near = seq![name, "./"@ + name, "../"@ + name];
    match dir {
        Some(d) => near.push(within(windows, d, "../../"@ + name)),
        None => near,
    }
}

/// Where the server `name` is looked for; `dir` is the directory of the program.
pub fn find_jar(windows: bool, name: &str, dir: Option<&str>) -> (r: Vec<String>)
    ensures
        string_views(r@) == jar_places(windows, name@, crate::autostart::str_view(dir)),
{
    let mut r: Vec<String> = vec![
        name.to_owned(),
        crate::text::cat2("./", name),
        crate::text::cat2("../", name),
    ];
    let ghost near = seq![name@, "./"@ + name@, "../"@ + name@];
    assert(string_views(r@) =~= near);
    if let Some(d) = dir {
        r.push(path_within(windows, d, crate::text::cat2("../../", name).as_str()));
        assert(string_views(r@) =~= near.push(within(windows, d@, "../../"@ + name@)));
    }
    r
}

/// What the window's program is called.
pub open spec fn ui_name(windows: bool) -> Seq<char> {
    if windows {
        "sync-ui.exe"@
    } else {
        "sync-ui"@
    }
}

/// Where the window's program is looked for: beside the daemon, of which `dir` is the
/// directory, and else where it is built.
pub open spec fn ui_places(windows: bool, dir: Option<Seq<char>>) -> Seq<Seq<char>> {
    let built = "../target/debug/"@ + ui_name(windows);
    match dir {
        Some(d) => seq![within(windows, d, ui_name(windows)), built],
        None => seq![built],
    }
}

/// The window's program: the one beside the daemon where it was `found`, and else the one that
/// was built last.
pub fn ui_path(windows: bool, dir: Option<&str>, found: bool) -> (r: String)
    ensures
        r@ == if found {
            ui_places(windows, crate::autostart::str_view(dir)).first()
        } else {
            ui_places(windows, crate::autostart::str_view(dir)).last()
        },
{
    let name: &str = if windows {
        "sync-ui.exe"
    } else {
        "sync-ui"
    };
    match dir {
        Some(d) if found => path_within(windows, d, name),
        _ => crate::text::cat2("../target/debug/", name),
    }
}

/// What the user chose in the menu of the icon.
#[derive(Debug, Clone, Copy, PartialEq, Eq, Structural)]
pub enum MenuChoice {
    Open,
    Quit,
    Other,
}

/// What is to be done for it.
#[derive(Debug, Clone, Copy, PartialEq, Eq, Structural)]
pub struct MenuAction {
    /// End the window's program, if it runs.
    pub kill_ui: bool,
    /// Start it.
    pub spawn_ui: bool,
    /// End the daemon.
    pub stop: bool,
}

/// What is done for a choice: the window is opened anew, or everything ends.
pub fn on_menu(choice: MenuChoice) -> (r: MenuAction)
    ensures
        r == match choice {
            MenuChoice::Open => MenuAction { kill_ui: true, spawn_ui: true, stop: false },
            MenuChoice::Quit => MenuAction { kill_ui: true, spawn_ui: false, stop: true },
            MenuChoice::Other => MenuAction { kill_ui: false, spawn_ui: false, stop: false },
        },
{
    match choice {
        MenuChoice::Open => MenuAction { kill_ui: true, spawn_ui: true, stop: false },
        MenuChoice::Quit => MenuAction { kill_ui: true, spawn_ui: false, stop: true },
        MenuChoice::Other => MenuAction { kill_ui: false, spawn_ui: false, stop: false },
    }
}

/// A path in a directory goes through it: it begins with the directory and ends with the name. What
/// stands between them is a separator of the system, unless the directory brings its own.
pub proof fn law_path_goes_through_its_directory(windows: bool, dir: Seq<char>, name: Seq<char>)
    requires
        dir.len() > 0,
    ensures
        ({
            let p = within(windows, dir, name);
            let gap = p.len() - dir.len() - name.len();
            &&& p.take(dir.len() as int) == dir
            &&& p.skip(p.len() - name.len()) == name
            &&& 0 <= gap <= 1
            &&& gap == 1 ==> p[dir.len() as int] == if windows {
                '\\'
            } else {
                '/'
            }
            &&& dir.last() == '/' ==> gap == 0
            &&& windows && dir.last() == '\\' ==> gap == 0
            &&& !windows && dir.last() != '/' ==> gap == 1
            &&& windows && dir.last() != '/' && dir.last() != '\\' && dir.len() > 2 ==> gap == 1
            &&& windows && dir == seq!['C', ':'] ==> gap == 0
        }),
        within(windows, Seq::empty(), name) == name,
{
    reveal_strlit("/");
    reveal_strlit("\\");
    let p = within(windows, dir, name);
    assert(p.take(dir.len() as int) =~= dir);
    assert(p.skip(p.len() - name.len()) =~= name);
    assert(within(windows, Seq::empty(), name) =~= name);
}

/// The server is looked for under its own name first; the program's directory comes last. The window's
/// program is looked for beside the daemon first.
pub proof fn law_places_are_tried_in_order(windows: bool, name: Seq<char>, dir: Seq<char>)
    ensures
        jar_places(windows, name, Some(dir)).len() == 4,
        jar_places(windows, name, None).len() == 3,
        jar_places(windows, name, None) == jar_places(windows, name, Some(dir)).drop_last(),
        jar_places(windows, name, None)[0] == name,
        jar_places(windows, name, None)[1] == "./"@ + name,
        jar_places(windows, name, None)[2] == "../"@ + name,
        jar_places(windows, name, Some(dir))[3] == within(windows, dir, "../../"@ + name),
        ui_places(windows, Some(dir)).first() == within(
            windows,
            dir,
            if windows {
                "sync-ui.exe"@
            } else {
                "sync-ui"@
            },
        ),
        ui_places(windows, Some(dir)).last() == ui_places(windows, None).last(),
        ui_places(windows, None).len() == 1,
{
    assert(jar_places(windows, name, None) =~= jar_places(windows, name, Some(dir)).drop_last());
}

} // verus!
