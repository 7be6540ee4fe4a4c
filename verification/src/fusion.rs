//! The windows in which applications of a phone are shown, each by a viewer process of its
//! own.
use crate::text::{cat2, copy_text};
use vstd::prelude::*;

verus! {

/// How a window stands.
#[derive(Debug, Clone, Copy, PartialEq, Eq, Structural)]
pub enum WindowState {
    Running,
    Exited,
    Failed,
}

impl WindowState {
    pub open spec fn named(self) -> Seq<char> {
        match self {
            WindowState::Running => "running"@,
            WindowState::Exited => "exited"@,
            WindowState::Failed => "failed"@,
        }
    }

    pub fn as_str(self) -> (r: &'static str)
        ensures
            r@ == self.named(),
    {
        match self {
            WindowState::Running => "running",
            WindowState::Exited => "exited",
            WindowState::Failed => "failed",
        }
    }
}

/// What is told of a window.
#[derive(Debug, Clone, PartialEq)]
pub struct AppWindowInfo {
    pub window_id: u64,
    pub serial: String,
    pub package_name: String,
    pub label: String,
    pub state: String,
}

/// What is told of a window, as the contracts speak of it.
#[verifier::ext_equal]
pub struct WindowInfo {
    pub window_id: u64,
    pub serial: Seq<char>,
    pub package_name: Seq<char>,
    pub label: Seq<char>,
    pub state: Seq<char>,
}

impl View for AppWindowInfo {
    type V = WindowInfo;

    open spec fn view(&self) -> WindowInfo {
        WindowInfo {
            window_id: self.window_id,
            serial: self.serial@,
            package_name: self.package_name@,
            label: self.label@,
            state: self.state@,
        }
    }
}

pub open spec fn info_views(v: Seq<AppWindowInfo>) -> Seq<WindowInfo> {
    v.map_values(|w: AppWindowInfo| w@)
}

/// A window whose viewer runs.
struct FusionWindow {
    id: u64,
    serial: String,
    package_name: String,
    label: String,
}

/// A window whose viewer runs, as the contracts speak of it.
#[verifier::ext_equal]
pub struct Window {
    pub id: u64,
    pub serial: Seq<char>,
    pub package_name: Seq<char>,
    pub label: Seq<char>,
}

impl View for FusionWindow {
    type V = Window;

    closed spec fn view(&self) -> Window {
        Window {
            id: self.id,
            serial: self.serial@,
            package_name: self.package_name@,
            label: self.label@,
        }
    }
}

impl Window {
    pub open spec fn told(self, state: WindowState) -> WindowInfo {
        WindowInfo {
            window_id: self.id,
            serial: self.serial,
            package_name: self.package_name,
            label: self.label,
            state: state.named(),
        }
    }
}

impl FusionWindow {
    fn info(&self, state: WindowState) -> (r: AppWindowInfo)
        ensures
            r@ == self@.told(state),
    {
        AppWindowInfo {
            window_id: self.id,
            serial: copy_text(&self.serial),
            package_name: copy_text(&self.package_name),
            label: copy_text(&self.label),
            state: state.as_str().to_owned(),
        }
    }
}

/// What became of the viewer that was to be started.
pub enum SpawnOutcome {
    /// There is no viewer program.
    NoViewer,
    /// It could not be started, for this reason.
    Failed(String),
    Started,
}

/// A viewer that has ended.
#[derive(Debug, Clone, Copy, PartialEq, Eq, Structural)]
pub struct Exit {
    pub window_id: u64,
    pub success: bool,
}

/// How the viewer of window `id` ended, where it has; the first entry counts.
pub open spec fn exit_of(exits: Seq<Exit>, id: u64) -> Option<WindowState>
    decreases exits.len(),
{
    if exits.len() == 0 {
        None
    } else if exits.first().window_id == id {
        Some(
            if exits.first().success {
                WindowState::Exited
            } else {
                WindowState::Failed
            },
        )
    } else {
        exit_of(exits.skip(1), id)
    }
}

fn find_exit(exits: &[Exit], id: u64) -> (r: Option<WindowState>)
    ensures
        r == exit_of(exits@, id),
{
    let mut i: usize = 0;
    assert(exits@.skip(0) =~= exits@);
    while i < exits.len()
        invariant
            i <= exits@.len(),
            exit_of(exits@, id) == exit_of(exits@.skip(i as int), id),
        decreases exits@.len() - i,
    {
        if exits[i].window_id == id {
            return Some(
                if exits[i].success {
                    WindowState::Exited
                } else {
                    WindowState::Failed
                },
            );
        }
        assert(exits@.skip(i as int).skip(1) =~= exits@.skip(i + 1));
        i += 1;
    }
    None
}

/// What is told of the windows whose viewers have ended.
pub open spec fn ended(ws: Seq<Window>, exits: Seq<Exit>) -> Seq<WindowInfo>
    decreases ws.len(),
{
    if ws.len() == 0 {
        Seq::empty()
    } else {
        let before = ended(ws.drop_last(), exits);
        match exit_of(exits, ws.last().id) {
            Some(state) => before.push(ws.last().told(state)),
            None => before,
        }
    }
}

/// The windows whose viewers run on.
pub open spec fn running(ws: Seq<Window>, exits: Seq<Exit>) -> Seq<Window>
    decreases ws.len(),
{
    if ws.len() == 0 {
        Seq::empty()
    } else {
        let before = running(ws.drop_last(), exits);
        if exit_of(exits, ws.last().id) is Some {
            before
        } else {
            before.push(ws.last())
        }
    }
}

/// The windows and the number of the next one.
#[verifier::ext_equal]
pub struct Windows {
    pub windows: Seq<Window>,
    pub next_id: u64,
}

impl Windows {
    /// The numbers grow in the order of the windows, from 1 on, and the next is greater.
    pub open spec fn ordered(self) -> bool {
        &&& self.next_id >= 1
        &&& forall|i: int|
            0 <= i < self.windows.len() ==> 1 <= (#[trigger] self.windows[i]).id < self.next_id
        &&& forall|i: int, j: int|
            0 <= i < j < self.windows.len() ==> (#[trigger] self.windows[i]).id < (
            #[trigger] self.windows[j]).id
    }
}

/// Keeps account of the windows.
pub struct FusionManager {
    windows: Vec<FusionWindow>,
    next_id: u64,
}

impl View for FusionManager {
    type V = Windows;

    closed spec fn view(&self) -> Windows {
        Windows {
            windows: self.windows@.map_values(|w: FusionWindow| w@),
            next_id: self.next_id,
        }
    }
}

impl Default for FusionManager {
    fn default() -> (r: Self)
        ensures
            r@ == (Windows { windows: Seq::empty(), next_id: 1 }),
            r@.ordered(),
    {
        FusionManager::new()
    }
}

/// The arguments that a viewer is started with.
pub open spec fn viewer_args(
    addr: Seq<char>,
    package: Seq<char>,
    label: Seq<char>,
) -> Seq<Seq<char>> {
    let base = seq!["--connect"@, addr, "--package"@, package];
    if label.len() > 0 {
        base + seq!["--label"@, label]
    } else {
        base
    }
}

/// What the viewer program is called.
pub open spec fn viewer_name(windows: bool) -> Seq<char> {
    if windows {
        "fusion-viewer.exe"@
    } else {
        "fusion-viewer"@
    }
}

/// Where the viewer program is looked for, in this order: beside the daemon, where the user
/// says that it is, and in the directories of the search path.
pub open spec fn viewer_places(
    windows: bool,
    dir: Option<Seq<char>>,
    named: Option<Seq<char>>,
    path: Seq<Seq<char>>,
) -> Seq<Seq<char>> {
    (match dir {
        Some(d) => seq![crate::daemon::within(windows, d, viewer_name(windows))],
        None => Seq::empty(),
    }) + (match named {
        Some(n) => seq![n],
        None => Seq::empty(),
    }) + path.map_values(|d: Seq<char>| crate::daemon::within(windows, d, viewer_name(windows)))
}

impl FusionManager {
    pub fn new() -> (r: Self)
        ensures
            r@ == (Windows { windows: Seq::empty(), next_id: 1 }),
            r@.ordered(),
    {
        let r = FusionManager { windows: Vec::new(), next_id: 1 };
        assert(r@.windows =~= Seq::empty());
        r
    }

    /// What the viewer program is called.
    pub fn viewer_exe_name(windows: bool) -> (r: &'static str)
        ensures
            r@ == viewer_name(windows),
    {
        if windows {
            "fusion-viewer.exe"
        } else {
            "fusion-viewer"
        }
    }

    /// Where the viewer program is looked for. `dir` is the directory of the daemon, `named`
    /// the value of `FUSION_VIEWER_EXE`, and `path` the directories of the search path.
    pub fn find_viewer_exe(
        windows: bool,
        dir: Option<&str>,
        named: Option<&str>,
        path: &[String],
    ) -> (r: Vec<String>)
        ensures
            crate::text::string_views(r@) == viewer_places(
                windows,
                crate::autostart::str_view(dir),
                crate::autostart::str_view(named),
                crate::text::string_views(path@),
            ),
    {
        let name = FusionManager::viewer_exe_name(windows);
        let mut r: Vec<String> = Vec::new();
        if let Some(d) = dir {
            r.push(crate::daemon::path_within(windows, d, name));
        }
        if let Some(n) = named {
            r.push(n.to_owned());
        }
        let ghost first = crate::text::string_views(r@);
        let ghost all = crate::text::string_views(path@).map_values(
            |d: Seq<char>| crate::daemon::within(windows, d, viewer_name(windows)),
        );
        let mut i: usize = 0;
        while i < path.len()
            invariant
                i <= path@.len(),
                name@ == viewer_name(windows),
                all == crate::text::string_views(path@).map_values(
                    |d: Seq<char>| crate::daemon::within(windows, d, viewer_name(windows)),
                ),
                crate::text::string_views(r@) =~= first + all.take(i as int),
            decreases path@.len() - i,
        {
            let ghost before = r@;
            r.push(crate::daemon::path_within(windows, path[i].as_str(), name));
            assert(crate::text::string_views(r@) =~= crate::text::string_views(before).push(
                all[i as int],
            ));
            i += 1;
        }
        assert(all.take(i as int) =~= all);
        r
    }

    /// The arguments that a viewer is started with: where the phone is, what to show, and
    /// a label unless it is empty.
    pub fn build_args(addr: &str, package: &str, label: &str) -> (r: Vec<String>)
        ensures
            crate::text::string_views(r@) == viewer_args(addr@, package@, label@),
    {
        let mut r = vec![
            "--connect".to_owned(),
            addr.to_owned(),
            "--package".to_owned(),
            package.to_owned(),
        ];
        if !label.is_empty() {
            r.push("--label".to_owned());
            r.push(label.to_owned());
        }
        assert(crate::text::string_views(r@) =~= viewer_args(addr@, package@, label@));
        r
    }

    /// Takes note of a window whose viewer was started, and returns its number. Where there
    /// was no viewer, or it did not start, nothing changes.
    pub fn open_window(
        &mut self,
        outcome: SpawnOutcome,
        serial: String,
        package_name: String,
        label: String,
    ) -> (r: Result<u64, String>)
        requires
            old(self)@.ordered(),
            old(self)@.next_id < u64::MAX,
        ensures
            final(self)@.ordered(),
            match outcome {
                SpawnOutcome::Started => {
                    &&& r == Ok::<u64, String>(old(self)@.next_id)
                    &&& final(self)@ == (Windows {
                        windows: old(self)@.windows.push(
                            (Window {
                                id: old(self)@.next_id,
                                serial: serial@,
                                package_name: package_name@,
                                label: label@,
                            }),
                        ),
                        next_id: (old(self)@.next_id + 1) as u64,
                    })
                },
                SpawnOutcome::NoViewer => final(self)@ == old(self)@ && (r matches Err(m) && m@
                    == "未找到 fusion-viewer.exe：请将其放入 daemon 同目录，或设置 FUSION_VIEWER_EXE 环境变量"@),
                SpawnOutcome::Failed(cause) => final(self)@ == old(self)@ && (r matches Err(m) && m@
                    == "启动 fusion-viewer 失败: "@ + cause@),
            },
    {
        match outcome {
            SpawnOutcome::NoViewer => Err(
                "未找到 fusion-viewer.exe：请将其放入 daemon 同目录，或设置 FUSION_VIEWER_EXE 环境变量".to_owned(),
            ),
            SpawnOutcome::Failed(cause) => Err(
                cat2("启动 fusion-viewer 失败: ", cause.as_str()),
            ),
            SpawnOutcome::Started => {
                let ghost before = self@;
                let id: u64 = self.next_id;
                self.next_id = id + 1;
                let w = FusionWindow { id, serial, package_name, label };
                let ghost wv = w@;
                self.windows.push(w);
                proof {
                    assert(self@.windows =~= before.windows.push(wv));
                    assert forall|i: int, j: int| 0 <= i < j < self@.windows.len() implies (
                    #[trigger] self@.windows[i]).id < (#[trigger] self@.windows[j]).id by {
                        assert(before.windows[i].id < before.next_id);
                        if j < before.windows.len() {
                            assert(before.windows[i].id < before.windows[j].id);
                        }
                    }
                    assert forall|i: int| 0 <= i < self@.windows.len() implies 1 <= (
                    #[trigger] self@.windows[i]).id < self@.next_id by {
                        if i < before.windows.len() {
                            assert(before.windows[i].id < before.next_id);
                        }
                    }
                }
                Ok(id)
            },
        }
    }

    /// Takes account of the viewers that have ended since the last time, and tells of them.
    pub fn tick(&mut self, exits: &[Exit]) -> (r: Vec<AppWindowInfo>)
        requires
            old(self)@.ordered(),
        ensures
            final(self)@.ordered(),
            info_views(r@) == ended(old(self)@.windows, exits@),
            final(self)@ == (Windows {
                windows: running(old(self)@.windows, exits@),
                ..old(self)@
            }),
    {
        let ghost all = self@.windows;
        let ghost before = self@;
        let mut old_windows: Vec<FusionWindow> = Vec::new();
        std::mem::swap(&mut old_windows, &mut self.windows);
        let mut kept: Vec<FusionWindow> = Vec::new();
        let mut r: Vec<AppWindowInfo> = Vec::new();
        let mut i: usize = 0;
        proof {
            assert(all.take(0) =~= Seq::empty());
            assert(kept@.map_values(|w: FusionWindow| w@) =~= Seq::empty());
            assert(info_views(r@) =~= Seq::empty());
        }
        while i < old_windows.len()
            invariant
                i <= old_windows@.len(),
                all == old_windows@.map_values(|w: FusionWindow| w@),
                kept@.map_values(|w: FusionWindow| w@) == running(all.take(i as int), exits@),
                info_views(r@) == ended(all.take(i as int), exits@),
            decreases old_windows@.len() - i,
        {
            let ghost kept0 = kept@;
            let ghost r0 = r@;
            proof {
                let t = all.take(i + 1);
                assert(t.drop_last() =~= all.take(i as int));
                assert(t.last() == old_windows@[i as int]@);
            }
            let w = &old_windows[i];
            match find_exit(exits, w.id) {
                Some(state) => {
                    r.push(w.info(state));
                    assert(info_views(r@) =~= info_views(r0).push(w@.told(state)));
                },
                None => {
                    kept.push(
                        FusionWindow {
                            id: w.id,
                            serial: copy_text(&w.serial),
                            package_name: copy_text(&w.package_name),
                            label: copy_text(&w.label),
                        },
                    );
                    assert(kept@.map_values(|w: FusionWindow| w@) =~= kept0.map_values(
                        |w: FusionWindow| w@,
                    ).push(w@));
                },
            }
            i += 1;
        }
        assert(all.take(i as int) =~= all);
        self.windows = kept;
        proof {
            lemma_running_ordered(before, exits@);
        }
        r
    }

    /// What is told of the windows whose viewers run.
    pub fn windows_info(&self) -> (r: Vec<AppWindowInfo>)
        ensures
            info_views(r@) == self@.windows.map_values(|w: Window| w.told(WindowState::Running)),
    {
        let mut r: Vec<AppWindowInfo> = Vec::new();
        let ghost all = self@.windows.map_values(|w: Window| w.told(WindowState::Running));
        let mut i: usize = 0;
        while i < self.windows.len()
            invariant
                i <= self.windows@.len(),
                all == self@.windows.map_values(|w: Window| w.told(WindowState::Running)),
                info_views(r@) == all.take(i as int),
            decreases self.windows@.len() - i,
        {
            let ghost r0 = r@;
            assert(self@.windows[i as int] == self.windows@[i as int]@);
            r.push(self.windows[i].info(WindowState::Running));
            i += 1;
            assert(info_views(r@) =~= info_views(r0).push(all[i - 1]));
            assert(info_views(r@) =~= all.take(i as int));
        }
        assert(all.take(i as int) =~= all);
        r
    }

    /// Forgets all windows and returns their numbers: their viewers are to be closed.
    pub fn shutdown(&mut self) -> (r: Vec<u64>)
        requires
            old(self)@.ordered(),
        ensures
            final(self)@ == (Windows { windows: Seq::empty(), ..old(self)@ }),
            final(self)@.ordered(),
            r@ == old(self)@.windows.map_values(|w: Window| w.id),
    {
        let mut r: Vec<u64> = Vec::new();
        let ghost ids = self@.windows.map_values(|w: Window| w.id);
        let mut i: usize = 0;
        while i < self.windows.len()
            invariant
                i <= self.windows@.len(),
                self@ == old(self)@,
                ids == self@.windows.map_values(|w: Window| w.id),
                r@ == ids.take(i as int),
            decreases self.windows@.len() - i,
        {
            assert(self@.windows[i as int] == self.windows@[i as int]@);
            r.push(self.windows[i].id);
            i += 1;
            assert(r@ =~= ids.take(i as int));
        }
        assert(ids.take(i as int) =~= ids);
        self.windows = Vec::new();
        assert(self@.windows =~= Seq::empty());
        r
    }
}

proof fn lemma_running(ws: Seq<Window>, exits: Seq<Exit>)
    ensures
        forall|i: int|
            0 <= i < running(ws, exits).len() ==> ws.contains(#[trigger] running(ws, exits)[i]),
        running(ws, exits).len() <= ws.len(),
    decreases ws.len(),
{
    if ws.len() > 0 {
        lemma_running(ws.drop_last(), exits);
        let r = running(ws, exits);
        assert forall|i: int| 0 <= i < r.len() implies ws.contains(#[trigger] r[i]) by {
            let b = running(ws.drop_last(), exits);
            if i < b.len() {
                assert(r[i] == b[i]);
                let k = choose|k: int| 0 <= k < ws.drop_last().len() && ws.drop_last()[k] == b[i];
                assert(ws[k] == r[i]);
            } else {
                assert(ws[ws.len() - 1] == r[i]);
            }
        }
    }
}

proof fn lemma_running_ordered(s: Windows, exits: Seq<Exit>)
    requires
        s.ordered(),
    ensures
        (Windows { windows: running(s.windows, exits), ..s }).ordered(),
    decreases s.windows.len(),
{
    let ws = s.windows;
    let r = running(ws, exits);
    lemma_running(ws, exits);
    assert forall|i: int| 0 <= i < r.len() implies 1 <= (#[trigger] r[i]).id < s.next_id by {
        let k = choose|k: int| 0 <= k < ws.len() && ws[k] == r[i];
        assert(ws[k].id < s.next_id);
    }
    if ws.len() > 0 {
        let shorter = Windows { windows: ws.drop_last(), ..s };
        assert(shorter.ordered()) by {
            assert forall|i: int, j: int| 0 <= i < j < shorter.windows.len() implies (
            #[trigger] shorter.windows[i]).id < (#[trigger] shorter.windows[j]).id by {
                assert(ws[i].id < ws[j].id);
            }
            assert forall|i: int| 0 <= i < shorter.windows.len() implies 1 <= (
            #[trigger] shorter.windows[i]).id < s.next_id by {
                assert(ws[i].id < s.next_id);
            }
        }
        lemma_running_ordered(shorter, exits);
        let b = running(ws.drop_last(), exits);
        lemma_running(ws.drop_last(), exits);
        assert forall|i: int, j: int| 0 <= i < j < r.len() implies (#[trigger] r[i]).id < (
        #[trigger] r[j]).id by {
            let sb = Windows { windows: b, ..s };
            assert(r[i] == b[i]);
            if j < b.len() {
                assert(r[j] == b[j]);
                assert(sb.windows[i].id < sb.windows[j].id);
            } else {
                assert(ws.drop_last().contains(b[i]));
                let k = choose|k: int| 0 <= k < ws.drop_last().len() && ws.drop_last()[k] == b[i];
                assert(ws[k].id < ws[ws.len() - 1].id);
            }
        }
    }
}

/// A window is told of as ended exactly where its viewer has ended, and runs on otherwise:
/// none is lost and none is told of twice.
pub proof fn law_every_window_is_accounted_for(ws: Seq<Window>, exits: Seq<Exit>)
    ensures
        ended(ws, exits).len() + running(ws, exits).len() == ws.len(),
        forall|i: int|
            0 <= i < ws.len() ==> match exit_of(exits, (#[trigger] ws[i]).id) {
                Some(state) => ended(ws, exits).contains(ws[i].told(state)),
                None => running(ws, exits).contains(ws[i]),
            },
    decreases ws.len(),
{
    if ws.len() > 0 {
        law_every_window_is_accounted_for(ws.drop_last(), exits);
        let n = ws.len() - 1;
        assert forall|i: int| 0 <= i < ws.len() implies match exit_of(
            exits,
            (#[trigger] ws[i]).id,
        ) {
            Some(state) => ended(ws, exits).contains(ws[i].told(state)),
            None => running(ws, exits).contains(ws[i]),
        } by {
            let e = ended(ws, exits);
            let r = running(ws, exits);
            let e0 = ended(ws.drop_last(), exits);
            let r0 = running(ws.drop_last(), exits);
            if i < n {
                assert(ws.drop_last()[i] == ws[i]);
                match exit_of(exits, ws[i].id) {
                    Some(state) => {
                        let k = choose|k: int| 0 <= k < e0.len() && e0[k] == ws[i].told(state);
                        assert(e[k] == ws[i].told(state));
                    },
                    None => {
                        let k = choose|k: int| 0 <= k < r0.len() && r0[k] == ws[i];
                        assert(r[k] == ws[i]);
                    },
                }
            } else {
                match exit_of(exits, ws[i].id) {
                    Some(state) => {
                        assert(e[e0.len() as int] == ws[i].told(state));
                    },
                    None => {
                        assert(r[r0.len() as int] == ws[i]);
                    },
                }
            }
        }
    }
}

/// How long a viewer may take to close: 2 seconds, in nanoseconds.
pub const CLOSE_TIMEOUT: u64 = 2_000_000_000;

/// How often a viewer that closes is looked at: every 100 milliseconds, in nanoseconds.
pub const CLOSE_POLL: u64 = 100_000_000;

/// What is done with a viewer that was told to close.
#[derive(Debug, Clone, Copy, PartialEq, Eq, Structural)]
pub enum CloseStep {
    /// It has ended.
    Done,
    /// It is looked at again after a while.
    Wait,
    /// Its time is over: it is killed.
    Kill,
}

/// What is done with a viewer that was told to close at `since`.
pub fn close_step(ended: bool, since: u64, now: u64) -> (r: CloseStep)
    ensures
        r == if ended {
            CloseStep::Done
        } else if crate::proto::reliable::elapsed(now, since) >= CLOSE_TIMEOUT {
            CloseStep::Kill
        } else {
            CloseStep::Wait
        },
{
    if ended {
        CloseStep::Done
    } else if crate::proto::reliable::elapsed_since(now, since) >= CLOSE_TIMEOUT {
        CloseStep::Kill
    } else {
        CloseStep::Wait
    }
}

proof fn lemma_exit_of(exits: Seq<Exit>, id: u64, j: int)
    ensures
        (forall|i: int| 0 <= i < exits.len() ==> (#[trigger] exits[i]).window_id != id)
            ==> exit_of(exits, id) is None,
        0 <= j < exits.len() && exits[j].window_id == id && (forall|i: int|
            0 <= i < j ==> (#[trigger] exits[i]).window_id != id) ==> exit_of(exits, id) == Some(
            if exits[j].success {
                WindowState::Exited
            } else {
                WindowState::Failed
            },
        ),
    decreases exits.len(),
{
    if exits.len() > 0 {
        let rest = exits.skip(1);
        lemma_exit_of(rest, id, j - 1);
        if forall|i: int| 0 <= i < exits.len() ==> (#[trigger] exits[i]).window_id != id {
            assert(exits[0].window_id != id);
            assert forall|i: int| 0 <= i < rest.len() implies (#[trigger] rest[i]).window_id
                != id by {
                assert(rest[i] == exits[i + 1]);
            }
        }
        if 0 < j < exits.len() && exits[j].window_id == id && (forall|i: int|
            0 <= i < j ==> (#[trigger] exits[i]).window_id != id) {
            assert(exits[0].window_id != id);
            assert(rest[j - 1] == exits[j]);
            assert forall|i: int| 0 <= i < j - 1 implies (#[trigger] rest[i]).window_id != id by {
                assert(rest[i] == exits[i + 1]);
            }
        }
    }
}

/// A window whose viewer has not ended stays as it is. One whose viewer has is told of, under
/// its number, with its phone, its application and its name, as exited where the viewer ended
/// well and as failed where it did not.
pub proof fn law_ended_viewer_is_told(ws: Seq<Window>, exits: Seq<Exit>, k: int, j: int)
    requires
        0 <= k < ws.len(),
    ensures
        (forall|i: int| 0 <= i < exits.len() ==> (#[trigger] exits[i]).window_id != ws[k].id)
            ==> running(ws, exits).contains(ws[k]),
        0 <= j < exits.len() && exits[j].window_id == ws[k].id && (forall|i: int|
            0 <= i < j ==> (#[trigger] exits[i]).window_id != ws[k].id) ==> ended(
            ws,
            exits,
        ).contains(
            WindowInfo {
                window_id: ws[k].id,
                serial: ws[k].serial,
                package_name: ws[k].package_name,
                label: ws[k].label,
                state: if exits[j].success {
                    "exited"@
                } else {
                    "failed"@
                },
            },
        ),
{
    law_every_window_is_accounted_for(ws, exits);
    lemma_exit_of(exits, ws[k].id, j);
}

/// Windows whose viewers run are told of as running.
pub proof fn law_running_window_is_told(w: Window)
    ensures
        w.told(WindowState::Running) == (WindowInfo {
            window_id: w.id,
            serial: w.serial,
            package_name: w.package_name,
            label: w.label,
            state: "running"@,
        }),
{
}

/// A viewer is told where the phone is and which application to show, and its name where it has
/// one.
pub proof fn law_viewer_is_told_what_to_show(
    addr: Seq<char>,
    package: Seq<char>,
    label: Seq<char>,
)
    ensures
        viewer_args(addr, package, label).take(4) == seq!["--connect"@, addr, "--package"@, package],
        label.len() == 0 ==> viewer_args(addr, package, label).len() == 4,
        label.len() > 0 ==> viewer_args(addr, package, label).skip(4) == seq!["--label"@, label],
{
    let a = viewer_args(addr, package, label);
    assert(a.take(4) =~= seq!["--connect"@, addr, "--package"@, package]);
    if label.len() > 0 {
        assert(a.skip(4) =~= seq!["--label"@, label]);
    }
}

/// The viewer is looked for beside the daemon first, then where the user says that it is, and then in
/// every directory of the search path, in its order.
pub proof fn law_viewer_is_looked_for_in_order(
    windows: bool,
    dir: Seq<char>,
    named: Seq<char>,
    path: Seq<Seq<char>>,
    i: int,
)
    requires
        0 <= i < path.len(),
    ensures
        ({
            let name = if windows {
                "fusion-viewer.exe"@
            } else {
                "fusion-viewer"@
            };
            let all = viewer_places(windows, Some(dir), Some(named), path);
            let rest = viewer_places(windows, None, None, path);
            &&& all.len() == 2 + path.len()
            &&& all[0] == crate::daemon::within(windows, dir, name)
            &&& all[1] == named
            &&& rest.len() == path.len()
            &&& rest[i] == crate::daemon::within(windows, path[i], name)
            &&& all[2 + i] == rest[i]
            &&& viewer_places(windows, None, Some(named), path)[0] == named
            &&& viewer_places(windows, Some(dir), None, path)[0] == all[0]
        }),
{
}

/// Windows have numbers that grow, from 1 on: no two have the same, and the next one will be new.
pub proof fn law_windows_have_numbers_of_their_own(w: Windows, i: int, j: int)
    requires
        w.ordered(),
        0 <= i < j < w.windows.len(),
    ensures
        1 <= w.windows[i].id < w.windows[j].id,
        w.windows[j].id < w.next_id,
        (Windows { windows: Seq::empty(), next_id: 1 }).ordered(),
{
}

} // verus!
