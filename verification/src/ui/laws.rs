//! What the user of the window can rely on.
use super::fusion::{display_of, ends, passed_on};
use super::{
    error_text, same_apps, shows_adb, shows_device, shows_session, shows_settings, tells,
    window_url, AdbDeviceInfo, ClientState, DeviceInfo, SessionInfo, SettingsInfo, UiEvent,
};
use crate::ipc::handlers::tells_settings;
use crate::ipc::proto;
use crate::ipc::proto::{event, response, tells_apps, tells_device, tells_session};
use crate::proto::messages::Msg;
use crate::proto::session::Event;
use crate::text::decimal;
use vstd::prelude::*;

verus! {

/// What the daemon knows of a session is what the window shows of it, whatever way it takes.
pub proof fn law_session_is_shown_as_it_is(
    s: crate::ipc::types::Summary,
    told: proto::SessionSummary,
    shown: SessionInfo,
)
    requires
        tells_session(told, s),
        shows_session(shown, told),
    ensures
        shown.uuid@ == crate::types::uuid_text(s.uuid),
        shown.id@ == s.id,
        shown.serial@ == s.serial,
        shown.name@ == s.name,
        shown.state@ == s.state,
        shown.session_state@ == s.session_state,
        shown.audio_buffer_ms == s.audio_buffer_ms,
        shown.clipboard_sync == s.clipboard_sync,
        shown.notification_sync == s.notification_sync,
        shown.audio_enabled == s.audio_enabled,
        shown.volume == s.volume,
        shown.audio_state@.len() == 0,
        shown.audio_error@.len() == 0,
{
}

/// What the daemon knows of a device is what the window shows of it.
pub proof fn law_device_is_shown_as_it_is(
    d: crate::types::DeviceView,
    told: proto::Device,
    shown: DeviceInfo,
    listed: AdbDeviceInfo,
)
    requires
        tells_device(told, d),
        shows_device(shown, told),
        shows_adb(listed, told),
    ensures
        shown.uuid@ == crate::types::uuid_text(d.uuid),
        shown.serial@ == d.serial,
        shown.name@ == d.name,
        listed.serial@ == d.serial,
        shown.state@ == listed.state@,
        d.state is Device ==> shown.state@ == "Device"@,
        d.state is Offline ==> shown.state@ == "Offline"@,
        d.state is Unauthorized ==> shown.state@ == "Unauthorized"@,
{
}

/// The settings that the window shows are those of the configuration.
pub proof fn law_settings_are_shown_as_they_are(
    c: crate::settings::Config,
    s: crate::autostart::AutostartState,
    told: response::Settings,
    shown: SettingsInfo,
)
    requires
        tells_settings(told, c, s),
        shows_settings(shown, told),
    ensures
        shown.autostart_enabled == s.enabled,
        shown.autostart_supported == s.supported,
        shown.video_bit_rate == c.video_bit_rate,
        shown.video_max_size == c.video_max_size,
        shown.video_max_fps == c.video_max_fps,
        shown.audio_bit_rate == c.audio_bit_rate,
        shown.audio_codec@ == c.audio_codec,
{
}

/// The applications that the window shows are those of the phone, in their order.
pub proof fn law_applications_are_shown_as_they_are(
    apps: Seq<crate::apps::App>,
    told: Seq<proto::AppInfo>,
    shown: Seq<proto::AppInfo>,
    i: int,
)
    requires
        tells_apps(told, apps),
        same_apps(shown, told),
        0 <= i < apps.len(),
    ensures
        shown.len() == apps.len(),
        shown[i].package_name@ == apps[i].package_name,
        shown[i].label@ == apps[i].label,
        shown[i].system == apps[i].system,
{
    assert(shown[i].label@ == told[i].label@);
}

/// The window is told of every event of the daemon, with all that the event says; of each device and
/// session in a list, in its order.
pub proof fn law_event_is_told(u: Option<UiEvent>, e: event::Payload)
    requires
        tells(u, Some(e)),
    ensures
        u is Some,
        e matches event::Payload::ClipboardChanged(c) ==> u->0 is Clipboard
            && u->0->Clipboard_text@ == c.text@ && u->0->Clipboard_serial@ == c.serial@,
        e matches event::Payload::Notification(n) ==> u->0 is Notification && u->0->title@
            == n.title@ && u->0->Notification_text@ == n.text@ && u->0->app@ == n.app@
            && u->0->Notification_serial@ == n.serial@,
        e matches event::Payload::DeviceUpdated(l) ==> (u->0 matches UiEvent::Devices(d) && d@.len()
            == l.devices@.len() && forall|k: int|
            0 <= k < d@.len() ==> (#[trigger] d@[k]).serial@ == l.devices@[k].serial@ && d@[k].uuid@
                == l.devices@[k].uuid@ && d@[k].state@ == l.devices@[k].state@ && d@[k].name@
                == l.devices@[k].name@),
        e matches event::Payload::AdbUpdated(l) ==> (u->0 matches UiEvent::Adb(d) && d@.len()
            == l.devices@.len() && forall|k: int|
            0 <= k < d@.len() ==> (#[trigger] d@[k]).serial@ == l.devices@[k].serial@
                && d@[k].state@ == l.devices@[k].state@),
        e matches event::Payload::SessionUpdated(l) ==> (u->0 matches UiEvent::Sessions(s) && s@.len()
            == l.sessions@.len() && forall|k: int|
            0 <= k < s@.len() ==> (#[trigger] s@[k]).uuid@ == l.sessions@[k].uuid@
                && s@[k].session_state@ == l.sessions@[k].session_state@ && s@[k].serial@
                == l.sessions@[k].serial@),
{
}

/// What an error says begins with its message and holds its number.
pub proof fn law_error_says_what_went_wrong(e: proto::RpcError)
    ensures
        error_text(e).len() > e.message@.len(),
        error_text(e).take(e.message@.len() as int) == e.message@,
        e.code >= 0 ==> error_text(e).skip(e.message@.len() as int) == " (code "@ + decimal(
            e.code as nat,
        ) + ")"@,
        e.code < 0 ==> error_text(e).skip(e.message@.len() as int) == " (code "@ + ("-"@ + decimal(
            (-e.code) as nat,
        )) + ")"@,
{
    reveal_strlit(")");
    let t = error_text(e);
    let n = e.message@.len() as int;
    assert(t.take(n) =~= e.message@);
    assert(t.skip(n) =~= " (code "@ + crate::text::signed(e.code as int) + ")"@);
}

/// The page of a window is given the address of the phone, the port at its end, the application and
/// the number of the window.
pub proof fn law_page_is_given_the_port(
    host: Seq<char>,
    port: Seq<char>,
    package: Seq<char>,
    window_id: u64,
)
    requires
        !port.contains(':'),
    ensures
        window_url(host + ":"@ + port, package, window_id) == "/fusion.html?addr="@ + (host + ":"@
            + port) + "&port="@ + port + "&package="@ + package + "&window_id="@ + decimal(
            window_id as nat,
        ),
{
    reveal_strlit(":");
    let s = host + ":"@ + port;
    crate::text::lemma_rfind(s, ':');
    let n = crate::text::rfind_end(s, ':') as int;
    assert(s[host.len() as int] == ':');
    if n > host.len() + 1 {
        assert(s[n - 1] == port[n - 1 - host.len() - 1]);
        assert(port.contains(port[n - 1 - host.len() - 1]));
    }
    assert(n == host.len() + 1);
    assert(s.skip(n) =~= port);
}

/// Two requests one after the other have numbers that differ, and awaiting the one or answering it says
/// nothing of the other.
pub proof fn law_requests_are_apart(s: ClientState)
    ensures
        s.next_id < u64::MAX ==> s.counted().next_id == s.next_id + 1,
        s.counted().next_id != s.next_id,
        s.counted().pending == s.pending,
        s.counted().link == s.link && s.counted().connected == s.connected,
        s.answered(s.next_id).pending.contains(s.counted().next_id) <==> s.pending.contains(
            s.counted().next_id,
        ),
        s.answered(s.next_id).next_id == s.next_id,
{
}

/// The page is given every picture of the session, with its time and whether it needs no other, and the
/// parameter sets of the video, which is the second stream; nothing else.
pub proof fn law_page_is_given_the_video(e: Event)
    ensures
        e matches Event::Video(f) ==> {
            &&& passed_on(e) is Some
            &&& passed_on(e)->0.data == f.data@
            &&& passed_on(e)->0.pts == f.pts
            &&& passed_on(e)->0.is_key == (f.flags % 4 >= 2)
            &&& !passed_on(e)->0.is_config
        },
        e matches Event::Control(m) ==> (m.msg matches Some(Msg::MediaConfig(c)) ==> {
            &&& passed_on(e) is Some <==> c.stream == 2
            &&& c.stream == 2 ==> passed_on(e)->0.data == c.data@ && passed_on(e)->0.is_config
                && !passed_on(e)->0.is_key
        }),
        passed_on(e) is Some ==> e is Video || (e is Control && e->Control_0.msg is Some
            && e->Control_0.msg->0 is MediaConfig),
{
    if let Event::Video(f) = e {
        assert(f.flags / 2 % 2 == 1 <==> f.flags % 4 >= 2);
    }
}

/// The page is given nothing more once the session has ended, failed or was closed; anything else
/// lets it go on.
pub proof fn law_page_ends_with_the_session(e: Option<Event>)
    ensures
        ends(e) <==> e is None || e->0 is Closed || e->0 is Error,
        ends(e) && e is Some ==> passed_on(e->0) is None,
{
}

proof fn lemma_number(n: u32, rest: Seq<char>, c: char)
    requires
        !('0' <= c <= '9'),
    ensures
        crate::text::find(decimal(n as nat) + seq![c] + rest, c) == decimal(n as nat).len(),
        crate::text::number(decimal(n as nat), 0xFFFF_FFFF) == Some(n as nat),
        crate::text::find(decimal(n as nat), c) == decimal(n as nat).len(),
        forall|i: int|
            0 <= i < decimal(n as nat).len() ==> '0' <= #[trigger] decimal(n as nat)[i] <= '9',
{
    let d = decimal(n as nat);
    let s = d + seq![c] + rest;
    crate::text::law_decimal_is_plain(n as nat, 0);
    crate::text::law_number_of_decimal(n as nat, 0xFFFF_FFFF);
    crate::text::lemma_find(s, c);
    crate::text::lemma_find(d, c);
    let k = crate::text::find(s, c) as int;
    assert(s[d.len() as int] == c);
    if k < d.len() {
        assert(s[k] == d[k]);
    }
}

/// A display that is written as its width, an `x`, its height, a slash and its density is read
/// back; without a density it is 160.
pub proof fn law_display_is_read_back(w: u32, h: u32, dpi: u32)
    ensures
        display_of(
            decimal(w as nat) + seq!['x'] + decimal(h as nat) + seq!['/'] + decimal(dpi as nat),
        ) == Ok::<(nat, nat, nat), Seq<char>>((w as nat, h as nat, dpi as nat)),
        display_of(decimal(w as nat) + seq!['x'] + decimal(h as nat)) == Ok::<
            (nat, nat, nat),
            Seq<char>,
        >((w as nat, h as nat, 160)),
{
    let a = decimal(w as nat);
    let b = decimal(h as nat);
    let c = decimal(dpi as nat);
    let size = a + seq!['x'] + b;
    let s = size + seq!['/'] + c;
    lemma_number(w, b, 'x');
    lemma_number(h, c, '/');
    lemma_number(dpi, c, '/');
    crate::text::lemma_find(s, '/');
    crate::text::lemma_find(size, '/');
    let k = crate::text::find(s, '/') as int;
    let j = crate::text::find(size, '/') as int;
    assert(s[size.len() as int] == '/');
    if k < size.len() {
        if k < a.len() {
            assert(s[k] == a[k]);
        } else if k > a.len() {
            assert(s[k] == b[k - a.len() - 1]);
        }
    }
    if j < size.len() {
        if j < a.len() {
            assert(size[j] == a[j]);
        } else if j > a.len() {
            assert(size[j] == b[j - a.len() - 1]);
        }
    }
    assert(k == size.len() && j == size.len());
    assert(s.take(k) =~= size);
    assert(size.take(j) =~= size);
    assert(s.skip(k + 1) =~= c);
    assert(c.take(c.len() as int) =~= c);
    assert(size.take(a.len() as int) =~= a);
    assert(size.skip(a.len() as int + 1) =~= b);
}

/// After the greatest number the numbers of requests begin anew with 0.
pub proof fn law_numbers_begin_anew(s: ClientState)
    requires
        s.next_id == u64::MAX,
    ensures
        s.counted().next_id == 0,
{
}

} // verus!
