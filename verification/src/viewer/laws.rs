//! What a user of the viewer can rely on.
use super::app::{
    area_scale, capped, even, forwarded, passed, side, Picture, Pointer, ViewerState,
};
use super::args::{
    args_of, law_option_sets_its_argument, law_options_are_read_in_order, ArgsView, Given, WordView,
};
use super::decoder::{
    codec_of, every_second, holds_plane, plane, short_hex, stream_of, VideoCodec,
};
use super::keys::{android_key, Key};
use super::rounding::{
    lemma_quotient, lemma_quotient_is_near, lemma_root, lemma_root_is_near, lemma_rounded,
    lemma_scaled, lemma_scaled_is_near, quotient, root, rounded, scaled, NEAR,
};
use super::server::{announced, display_of};
use super::video::{job_of, stage_text, InputView, JobView, Stage, VideoEvent};
use super::yuv::{byte_at, rgb, sampled};
use crate::proto::codec::Media;
use crate::proto::messages::Msg;
use crate::proto::session::Event;
use crate::text::decimal;
use vstd::prelude::*;

verus! {

/// `m` touches the display of the window with `action`, at a place of a picture of this size.
pub open spec fn touches(
    m: Option<Msg>,
    s: ViewerState,
    p: Picture,
    action: u32,
    x: i32,
    y: i32,
) -> bool {
    m matches Some(Msg::InjectTouch(t)) && t.display_id == s.display_id && t.action == action && t.x
        == x && t.y == y && t.screen_width == p.width as u32 && t.screen_height == p.height as u32
        && t.pointer_id == u64::MAX && t.pressure == 0x3F80_0000 && t.buttons == 0
        && t.action_button == 0
}

/// Pressing, dragging and letting go over the picture puts a finger down, moves it and lifts it, each
/// at the place of the pointer. The numbers of Android for these are 0, 2 and 1.
pub proof fn law_drag_is_a_touch(
    s: ViewerState,
    p: Picture,
    a: (i32, i32),
    b: (i32, i32),
    c: (i32, i32),
    center: Option<(i32, i32)>,
)
    requires
        s.latest == Some(p),
        p.width as u32 > 0 && p.height as u32 > 0,
    ensures
        !s.mouse_down ==> touches(s.touched(true, Pointer::At(a.0, a.1), center), s, p, 0, a.0, a.1),
        s.mouse_down ==> touches(s.touched(true, Pointer::At(b.0, b.1), center), s, p, 2, b.0, b.1),
        s.mouse_down ==> touches(
            s.touched(false, Pointer::At(c.0, c.1), center),
            s,
            p,
            1,
            c.0,
            c.1,
        ),
        !s.mouse_down ==> s.touched(false, Pointer::At(c.0, c.1), center) is None,
{
}

/// A finger that is down is lifted in the middle of the picture where it is not known where the
/// pointer is. Outside of the picture, and without a picture, nothing is touched.
pub proof fn law_finger_is_lifted(
    s: ViewerState,
    p: Picture,
    center: (i32, i32),
    down: bool,
    pointer: Pointer,
)
    ensures
        s.mouse_down && s.latest == Some(p) && p.width as u32 > 0 && p.height as u32 > 0 ==> touches(
            s.touched(false, Pointer::Unknown, Some(center)),
            s,
            p,
            1,
            center.0,
            center.1,
        ),
        s.touched(down, Pointer::Outside, Some(center)) is None,
        s.touched(true, Pointer::Unknown, Some(center)) is None,
        s.latest is None ==> s.touched(down, pointer, Some(center)) is None,
{
}

/// `m` says of the key `code` that it went down (0) or up (1).
pub open spec fn presses(m: Option<Msg>, s: ViewerState, action: u32, code: u32) -> bool {
    m matches Some(Msg::InjectKeycode(k)) && k.display_id == s.display_id && k.action == action
        && k.keycode == code && k.repeat == 0 && k.meta_state == 0
}

/// A key that has a code on the phone is pressed and let go there under that code, however many others
/// are pressed in between; one that has none is not passed on.
pub proof fn law_key_is_pressed_and_let_go(s: ViewerState, key: Key, other: Key, code: u32)
    ensures
        android_key(key) == Some(code) ==> presses(s.keyed(key, true, false), s, 0, code),
        android_key(key) == Some(code) ==> presses(
            s.after_key(key, true, false).keyed(key, false, true),
            s,
            1,
            code,
        ),
        android_key(key) == Some(code) ==> presses(
            s.after_key(key, true, false).after_key(other, true, false).keyed(key, false, true),
            s,
            1,
            code,
        ),
        android_key(key) == Some(code) && other != key ==> presses(
            s.after_key(key, true, false).after_key(other, false, true).keyed(key, false, true),
            s,
            1,
            code,
        ),
        android_key(key) is None ==> s.keyed(key, true, false) is None && s.after_key(
            key,
            true,
            false,
        ) == s,
        s.keyed(key, false, false) is None,
{
}

/// The codes of the keys are those that Android gives them; Escape is the phone's way back.
pub proof fn law_keys_have_the_codes_of_android()
    ensures
        android_key(Key::Home) == Some(3u32) && android_key(Key::Escape) == Some(4u32),
        android_key(Key::ArrowUp) == Some(19u32) && android_key(Key::ArrowDown) == Some(20u32),
        android_key(Key::ArrowLeft) == Some(21u32) && android_key(Key::ArrowRight) == Some(22u32),
        android_key(Key::Tab) == Some(61u32) && android_key(Key::Space) == Some(62u32),
        android_key(Key::Enter) == Some(66u32) && android_key(Key::Backspace) == Some(67u32),
        android_key(Key::PageUp) == Some(92u32) && android_key(Key::PageDown) == Some(93u32),
        android_key(Key::Delete) == Some(112u32),
        android_key(Key::F1) == Some(131u32) && android_key(Key::F2) == Some(132u32),
        android_key(Key::F3) == Some(133u32) && android_key(Key::F4) == Some(134u32),
        android_key(Key::F5) == Some(135u32) && android_key(Key::F6) == Some(136u32),
        android_key(Key::F7) == Some(137u32) && android_key(Key::F8) == Some(138u32),
        android_key(Key::F9) == Some(139u32) && android_key(Key::F10) == Some(140u32),
        android_key(Key::F11) == Some(141u32) && android_key(Key::F12) == Some(142u32),
        android_key(Key::Other) is None,
{
}

/// A picture that comes goes to the decoder and is counted with its bytes, and nothing else of the
/// window changes. Of the parameter sets those of the video, the second stream, go there too.
pub proof fn law_video_goes_to_the_decoder(s: ViewerState, e: Event)
    requires
        s.can_count(e),
    ensures
        e matches Event::Video(f) ==> {
            &&& forwarded(e) == Some(InputView::Frame(f@))
            &&& s.session_event(e).hud.seen == s.hud.seen + 1
            &&& s.session_event(e).hud.rx_bytes == s.hud.rx_bytes + f.data@.len()
            &&& s.session_event(e).hud.disp == s.hud.disp
            &&& (ViewerState { hud: s.hud, ..s.session_event(e) }) == s
        },
        e matches Event::Control(m) ==> {
            &&& s.session_event(e) == s
            &&& m.msg matches Some(Msg::MediaConfig(c)) ==> (forwarded(e) == if c.stream == 2 {
                Some(InputView::Config(c.data@))
            } else {
                None
            })
            &&& !(m.msg is Some && m.msg->0 is MediaConfig) ==> forwarded(e) is None
        },
        !(e is Video) && !(e is Control) ==> forwarded(e) is None,
{
}

/// The window closes when the session fails or is closed, and says why; no other event closes it.
pub proof fn law_window_closes_with_the_session(s: ViewerState, e: Event)
    requires
        !s.should_exit,
    ensures
        s.session_event(e).should_exit <==> e is Error || e is Closed,
        e matches Event::Error(t) ==> s.session_event(e).last_error == Some(t@),
        e is Closed ==> s.session_event(e).last_error is Some,
        !(e is Error) && !(e is Closed) ==> s.session_event(e).last_error == s.last_error,
        s.session_event(e).latest == s.latest,
{
}

/// The picture that is shown is the one that was decoded last; an error of the decoder is shown and
/// leaves the picture there.
pub proof fn law_last_picture_is_shown(s: ViewerState, e: VideoEvent)
    ensures
        e matches VideoEvent::Frame { width, height, rgba } ==> {
            let t = s.video_event(e);
            &&& t.latest is Some
            &&& t.latest->0.width == width && t.latest->0.height == height && t.latest->0.rgba
                == rgba@
            &&& t.last_error == s.last_error
        },
        e matches VideoEvent::Error(t) ==> s.video_event(e).last_error == Some(t@) && s.video_event(
            e,
        ).latest == s.latest,
        e is Closed ==> s.video_event(e).last_error is Some && s.video_event(e).latest == s.latest,
        s.video_event(e).should_exit == s.should_exit,
{
}

/// An application that shows nothing is started once more eight seconds after the window opened, no
/// sooner; after eighteen seconds, and once it was started again, the window gives up.
pub proof fn law_silent_application_is_started_again(
    package: Seq<char>,
    display_id: u32,
    opened: u64,
    now: u64,
    later: u64,
)
    ensures
        ({
            let s = ViewerState::fresh(package, display_id, opened);
            let t = s.watched(now);
            &&& s.restarts(now) <==> now >= opened + 8_000_000_000
            &&& !s.alerts(now)
            &&& now < opened + 8_000_000_000 ==> t == s
            &&& now >= opened + 8_000_000_000 ==> {
                &&& t.last_error is Some && t.package == package && t.display_id == display_id
                &&& !t.restarts(later)
                &&& t.alerts(later) <==> later >= opened + 18_000_000_000
                &&& later >= opened + 18_000_000_000 ==> t.watched(later).last_error is Some
                    && t.watched(later).no_frame_alerted
            }
        }),
{
}

/// A window whose size changes to another one and then stays is asked for at that size at the third
/// look, and not before; looks are half a second apart, and none is taken before there is a picture.
pub proof fn law_new_size_is_asked_for(
    s: ViewerState,
    size: (u32, u32),
    t1: u64,
    t2: u64,
    t3: u64,
)
    requires
        s.latest is Some,
        size != s.resize.last_sent,
        size != s.resize.observed,
        t1 >= s.resize.last_check + 500_000_000,
        t2 >= t1 + 500_000_000,
        t3 >= t2 + 500_000_000,
    ensures
        ({
            let a = s.polled(Some(size), t1);
            let b = a.polled(Some(size), t2);
            &&& s.looks(Some(size), t1) && !s.resize.asks(size)
            &&& a.looks(Some(size), t2) && !a.resize.asks(size)
            &&& b.looks(Some(size), t3) && b.resize.asks(size)
            &&& b.latest == s.latest && b.resize.last_sent == s.resize.last_sent
        }),
{
}

/// A size is not looked at too soon, without a picture or where the window has none, and what was
/// asked for last is not asked for again.
pub proof fn law_size_is_not_asked_for_needlessly(
    s: ViewerState,
    size: (u32, u32),
    current: Option<(u32, u32)>,
    now: u64,
)
    ensures
        now < s.resize.last_check + 500_000_000 ==> !s.looks(current, now) && s.polled(current, now)
            == s,
        s.latest is None ==> !s.looks(current, now),
        current is None ==> !s.looks(current, now),
        s.resize.last_sent == size ==> !s.resize.asks(size),
        s.resize.observed != size ==> !s.resize.asks(size),
{
}

/// A display within 2560 by 2560 and within 3,686,400 pixels keeps its size, up to an odd column or line;
/// any other is made smaller until it is within both limits.
pub proof fn law_display_fits(w: int, h: int)
    requires
        w >= 2 && h >= 2,
    ensures
        even(capped(w, h).0) <= 2560 && even(capped(w, h).1) <= 2560,
        even(capped(w, h).0) * even(capped(w, h).1) <= 3_686_400,
        even(capped(w, h).0) % 2 == 0 && even(capped(w, h).1) % 2 == 0,
        w <= 2560 && h <= 2560 && w * h <= 3_686_400 ==> w - 1 <= even(capped(w, h).0) <= w && h - 1
            <= even(capped(w, h).1) <= h,
{
    super::app::law_size_is_within_limits(w, h);
}

/// A picture of up to 50 mebibytes is decoded as it came; the decoder is opened before the first one.
/// One that is empty or larger is skipped. The second bit of its flags marks a picture that
/// needs no other.
pub proof fn law_picture_is_decoded(open: bool, f: Media)
    requires
        f.flags % 2 == 0,
    ensures
        0 < f.data.len() <= 52_428_800 ==> {
            let j = job_of(open, InputView::Frame(f));
            &&& j is Decode
            &&& j->data == f.data
            &&& j->open == !open
            &&& j->pts == f.pts as i64
            &&& j->keyframe == (f.flags % 4 == 2)
        },
        f.data.len() == 0 || f.data.len() > 52_428_800 ==> job_of(open, InputView::Frame(f)) is Skip,
{
    assert(f.flags / 2 % 2 == 1 <==> f.flags % 4 == 2);
}

/// Parameter sets set the decoder up, or reset it where it is open: those of a byte stream as they are,
/// those of a record as the byte stream of the same sets. They are treated alike whether they come
/// on their own or among the pictures. Others end the decoding.
pub proof fn law_parameter_sets_set_the_decoder_up(open: bool, config: Seq<u8>, f: Media)
    ensures
        config.len() >= 4 && config[0] == 0 && config[1] == 0 && config[2] == 0 && config[3] == 1 ==> {
            &&& !open ==> job_of(open, InputView::Config(config)) == (JobView::SetUp {
                extradata: config,
            })
            &&& open ==> job_of(open, InputView::Config(config)) == (JobView::Reset {
                extradata: config,
            })
        },
        !(config.len() >= 4 && config[0] == 0 && config[1] == 0 && config[2] == 0 && config[3]
            == 1) ==> match stream_of(config) {
            Some(e) => if open {
                job_of(open, InputView::Config(config)) == (JobView::Reset { extradata: e })
            } else {
                job_of(open, InputView::Config(config)) == (JobView::SetUp { extradata: e })
            },
            None => job_of(open, InputView::Config(config)) is Fail,
        },
        f.flags % 2 == 1 && 0 < f.data.len() <= 52_428_800 ==> job_of(open, InputView::Frame(f))
            == job_of(open, InputView::Config(f.data)),
{
    let c = super::decoder::start_code();
    if config.len() >= 4 {
        if config[0] == 0 && config[1] == 0 && config[2] == 0 && config[3] == 1 {
            assert(config.take(4) =~= c);
        } else if config.take(4) == c {
            assert(config[0] == config.take(4)[0]);
            assert(config[1] == config.take(4)[1]);
            assert(config[2] == config.take(4)[2]);
            assert(config[3] == config.take(4)[3]);
        }
    }
}

/// The three codecs are told by their four characters, the first one in the highest byte.
pub proof fn law_codec_is_told_by_its_characters(id: u32)
    ensures
        codec_of(id) == Some(VideoCodec::H264) <==> id == 0x68 * 0x100_0000 + 0x32 * 0x1_0000 + 0x36
            * 0x100 + 0x34,
        codec_of(id) == Some(VideoCodec::H265) <==> id == 0x68 * 0x100_0000 + 0x32 * 0x1_0000 + 0x36
            * 0x100 + 0x35,
        codec_of(id) == Some(VideoCodec::Av1) <==> id == 0x61 * 0x1_0000 + 0x76 * 0x100 + 0x31,
{
}

/// A plane that is copied holds the lines without what stands between them: byte `col` of line `row`
/// stands at `row` times the width plus `col`.
pub proof fn law_copied_plane_holds_the_lines(
    src: Seq<u8>,
    stride: nat,
    w: nat,
    h: nat,
    row: int,
    col: int,
)
    requires
        holds_plane(src.len(), stride, w, h),
        0 <= row < h,
        0 <= col < w,
    ensures
        plane(src, stride, w, h).len() == w * h,
        0 <= row * w + col < w * h,
        plane(src, stride, w, h)[row * w + col] == src[row * stride + col],
    decreases h,
{
    let k = (h - 1) as nat;
    assert(0 <= k * stride) by (nonlinear_arith)
        requires
            k >= 0,
            stride >= 0,
    ;
    assert(w * h == w * k + w) by (nonlinear_arith)
        requires
            h == k + 1,
    ;
    assert(k * w == w * k) by (nonlinear_arith);
    if k > 0 {
        assert((k - 1) * stride <= (h - 1) * stride) by (nonlinear_arith)
            requires
                k == h - 1,
        ;
        law_copied_plane_holds_the_lines(
            src,
            stride,
            w,
            k,
            if row < k {
                row
            } else {
                0
            },
            col,
        );
    } else {
        assert(w * k == 0) by (nonlinear_arith)
            requires
                k == 0,
        ;
        assert(plane(src, stride, w, k).len() == 0);
    }
    if row == k {
        assert(plane(src, stride, w, h)[w * k + col] == src.subrange(
            (h - 1) * stride,
            (h - 1) * stride + w,
        )[col]);
    } else {
        assert(plane(src, stride, w, h)[row * w + col] == plane(src, stride, w, k)[row * w + col]);
    }
}

/// Chroma values that share a plane are parted: those at even places from those at odd places.
pub proof fn law_shared_plane_is_parted(u: Seq<u8>, v: Seq<u8>)
    requires
        u.len() == v.len(),
    ensures
        ({
            let uv = Seq::new(2 * u.len(), |i: int| if i % 2 == 0 {
                u[i / 2]
            } else {
                v[i / 2]
            });
            every_second(uv, 0) == u && every_second(uv, 1) == v
        }),
{
    let uv = Seq::new(2 * u.len(), |i: int| if i % 2 == 0 {
        u[i / 2]
    } else {
        v[i / 2]
    });
    assert(every_second(uv, 0) =~= u);
    assert(every_second(uv, 1) =~= v);
}

/// Every part of a colour is the nearest 256th part of what BT.601 gives, as far as that is
/// between 0 and 255.
pub proof fn law_colours_are_those_of_the_standard(y: u8, u: u8, v: u8)
    ensures
        ({
            let (r, g, b) = rgb(y, u, v);
            let c = 298 * (y - 16);
            let red = c + 409 * (v - 128);
            let green = c - 100 * (u - 128) - 208 * (v - 128);
            let blue = c + 516 * (u - 128);
            &&& 0 <= r <= 255 && 0 <= g <= 255 && 0 <= b <= 255
            &&& 0 <= red < 255 * 256 ==> -128 <= red - 256 * r <= 128
            &&& 0 <= green < 255 * 256 ==> -128 <= green - 256 * g <= 128
            &&& 0 <= blue < 255 * 256 ==> -128 <= blue - 256 * b <= 128
            &&& red < 0 ==> r == 0
            &&& green < 0 ==> g == 0
            &&& blue < 0 ==> b == 0
            &&& red >= 255 * 256 ==> r == 255
            &&& green >= 255 * 256 ==> g == 255
            &&& blue >= 255 * 256 ==> b == 255
        }),
{
}

/// A pixel of the drawn picture has the colour of the pixel that stands in its place, and is not
/// transparent; at the picture's own size, that is the pixel of the same line and column.
pub proof fn law_pixel_has_its_colour(
    y: Seq<u8>,
    u: Seq<u8>,
    v: Seq<u8>,
    size: (int, int),
    row: int,
    col: int,
)
    requires
        0 <= row < size.1,
        0 <= col < size.0,
    ensures
        ({
            let at = 4 * (row * size.0 + col);
            let k = row / 2 * (size.0 / 2) + col / 2;
            let c = rgb(y[row * size.0 + col], u[k], v[k]);
            &&& byte_at(at, y, u, v, size, size) == c.0
            &&& byte_at(at + 1, y, u, v, size, size) == c.1
            &&& byte_at(at + 2, y, u, v, size, size) == c.2
            &&& byte_at(at + 3, y, u, v, size, size) == 255
        }),
{
    let n = row * size.0 + col;
    let w = size.0;
    assert(n / w == row && n % w == col) by {
        vstd::arithmetic::div_mod::lemma_fundamental_div_mod_converse(n, w, row, col);
    }
    super::yuv::law_own_size_keeps_pixels(row, col, size);
    assert((4 * n) / 4 == n && (4 * n + 1) / 4 == n && (4 * n + 2) / 4 == n && (4 * n + 3) / 4 == n);
}

/// A picture that is drawn at another size is stretched evenly: the line that is sampled lies as far
/// down in its picture as the line that is drawn does in its own.
pub proof fn law_stretching_is_even(at: int, src: int, dst: int)
    requires
        0 <= at < dst,
        0 < src,
    ensures
        0 <= sampled(at, src, dst) < src,
        sampled(at, src, dst) * dst <= at * src < (sampled(at, src, dst) + 1) * dst,
{
    let n = at * src;
    vstd::arithmetic::div_mod::lemma_fundamental_div_mod(n, dst);
    let q = n / dst;
    assert(q * dst == dst * q) by (nonlinear_arith);
    assert((q + 1) * dst == q * dst + dst) by (nonlinear_arith);
    assert(0 <= n) by (nonlinear_arith)
        requires
            n == at * src,
            at >= 0,
            src > 0,
    ;
    assert(0 <= q < src) by (nonlinear_arith)
        requires
            0 <= n,
            n == at * src,
            at < dst,
            src > 0,
            q * dst <= n,
            n < (q + 1) * dst,
            dst > 0,
    ;
}

proof fn lemma_number(n: u16, rest: Seq<char>, c: char)
    requires
        !('0' <= c <= '9'),
    ensures
        crate::text::find(decimal(n as nat) + seq![c] + rest, c) == decimal(n as nat).len(),
        crate::text::number(crate::text::trimmed(decimal(n as nat)), 0xFFFF) == Some(n as nat),
        forall|i: int|
            0 <= i < decimal(n as nat).len() ==> '0' <= #[trigger] decimal(n as nat)[i] <= '9',
{
    let d = decimal(n as nat);
    let s = d + seq![c] + rest;
    let none = Seq::<char>::empty();
    crate::text::law_decimal_is_plain(n as nat, 0);
    crate::text::law_number_of_decimal(n as nat, 0xFFFF);
    assert(none + d + none =~= d);
    crate::text::law_padding_is_trimmed(none, d, none);
    crate::text::lemma_find(s, c);
    let k = crate::text::find(s, c) as int;
    assert(s[d.len() as int] == c);
    if k < d.len() {
        assert(s[k] == d[k]);
    }
}

/// A display that is written as its width, an `x`, its height, a slash and its density is read
/// back, unless one of the three is 0.
pub proof fn law_display_is_read_back(w: u16, h: u16, dpi: u16)
    ensures
        ({
            let s = decimal(w as nat) + seq!['x'] + decimal(h as nat) + seq!['/'] + decimal(
                dpi as nat,
            );
            if w > 0 && h > 0 && dpi > 0 {
                display_of(s) == Ok::<(int, int, int), Seq<char>>((w as int, h as int, dpi as int))
            } else {
                display_of(s) is Err
            }
        }),
{
    let a = decimal(w as nat);
    let b = decimal(h as nat);
    let c = decimal(dpi as nat);
    let size = a + seq!['x'] + b;
    let s = a + seq!['x'] + b + seq!['/'] + c;
    lemma_number(w, b, 'x');
    lemma_number(h, c, '/');
    lemma_number(dpi, c, '/');
    crate::text::lemma_find(s, '/');
    let k = crate::text::find(s, '/') as int;
    assert(s[size.len() as int] == '/');
    if k < size.len() {
        if k < a.len() {
            assert(s[k] == a[k]);
        } else if k > a.len() {
            assert(s[k] == b[k - a.len() - 1]);
        }
    }
    assert(k == size.len());
    assert(s.take(k) =~= size);
    assert(s.skip(k + 1) =~= c);
    assert(size.take(a.len() as int) =~= a);
    assert(size.skip(a.len() as int + 1) =~= b);
}

/// The display that the server announces is the one that the viewer shows; nothing else announces
/// one.
pub proof fn law_announced_display_is_shown(e: Event)
    ensures
        announced(e) is Some <==> e is Control && e->Control_0.msg is Some
            && e->Control_0.msg->0 is DisplayReady,
        e matches Event::Control(m) ==> (m.msg matches Some(Msg::DisplayReady(d)) ==> announced(e)
            is Some && announced(e)->0.display_id == d.display_id && announced(e)->0.codec_id
            == d.codec_id),
{
}

/// Time has passed when the clock shows as much more, and never before.
pub proof fn law_time_passes(since: u64, now: u64, interval: u64)
    ensures
        passed(since, now, interval) <==> now >= since + interval,
{
}

/// The viewer reads back what the daemon starts it with: the address, the application, and the label
/// where there is one.
pub proof fn law_viewer_reads_what_it_is_started_with(
    addr: Seq<char>,
    package: Seq<char>,
    label: Seq<char>,
    words: Seq<WordView>,
)
    requires
        ({
            let said = crate::fusion::viewer_args(addr, package, label);
            &&& words.len() == said.len()
            &&& forall|i: int|
                0 <= i < words.len() ==> (#[trigger] words[i]).whole.text == said[i]
                    && words[i].sound()
        }),
        words[1].whole.is_address,
    ensures
        args_of(words) == Ok::<ArgsView, Seq<char>>(
            ArgsView { addr, package, label, display: "1280x960/160"@, scale: 0x3F80_0000 },
        ),
{
    reveal_strlit("");
    reveal_strlit("--connect");
    reveal_strlit("--package");
    reveal_strlit("--label");
    let said = crate::fusion::viewer_args(addr, package, label);
    let g = Given::nothing();
    crate::text::lemma_find("--connect"@, '=');
    crate::text::lemma_find("--package"@, '=');
    crate::text::lemma_find("--label"@, '=');
    assert(said[0] == "--connect"@ && said[1] == addr && said[2] == "--package"@ && said[3]
        == package);
    assert(words[0].sound() && words[2].sound());
    let tail = if label.len() > 0 {
        words.skip(4)
    } else {
        Seq::empty()
    };
    assert(words =~= seq![words[0], words[1]] + words.skip(2));
    assert(words.skip(2) =~= seq![words[2], words[3]] + words.skip(4));
    law_options_are_read_in_order(g, words[0], words[1], words.skip(2));
    law_option_sets_its_argument(g, words[1].whole);
    let h = Given { addr: Some(addr), ..g };
    law_options_are_read_in_order(h, words[2], words[3], words.skip(4));
    law_option_sets_its_argument(h, words[3].whole);
    let k = Given { package: Some(package), ..h };
    if label.len() > 0 {
        assert(said[4] == "--label"@ && said[5] == label);
        assert(words[4].sound());
        assert(words.skip(4) =~= seq![words[4], words[5]] + Seq::empty());
        law_options_are_read_in_order(k, words[4], words[5], Seq::empty());
        law_option_sets_its_argument(k, words[5].whole);
        law_options_are_read_in_order(
            Given { label, ..k },
            words[4],
            words[5],
            Seq::empty(),
        );
    } else {
        assert(words.skip(4) =~= Seq::empty());
        law_options_are_read_in_order(k, words[0], words[1], Seq::empty());
        assert(label =~= ""@);
    }
}

/// A number in hexadecimal digits has no zero in front, and its last digit is its last.
pub proof fn law_short_digits_spell_the_number(n: nat)
    ensures
        short_hex(n).len() > 0,
        n > 0 ==> short_hex(n)[0] != '0',
        n < 16 ==> short_hex(n).len() == 1,
        n >= 16 ==> short_hex(n).drop_last() == short_hex(n / 16),
        short_hex(n).last() == "0123456789abcdef"@[(n % 16) as int],
    decreases n,
{
    reveal_strlit("0123456789abcdef");
    if n >= 16 {
        law_short_digits_spell_the_number(n / 16);
        assert(short_hex(n).drop_last() =~= short_hex(n / 16));
        assert(short_hex(n)[0] == short_hex(n / 16)[0]);
    }
}

/// What fails in the work with the decoder is told apart.
pub proof fn law_failures_are_told_apart(a: Stage, b: Stage, e: Seq<char>)
    requires
        stage_text(a) + e == stage_text(b) + e,
    ensures
        a == b,
{
    reveal_strlit("设置 extradata 失败: ");
    reveal_strlit("打开解码器失败: ");
    reveal_strlit("重置解码器失败: ");
    reveal_strlit("解码失败: ");
    let x = stage_text(a) + e;
    let y = stage_text(b) + e;
    assert(x[0] == stage_text(a)[0] && y[0] == stage_text(b)[0]);
}

/// What a side limit makes of a length is little less than the limit asks.
proof fn lemma_side_limit(x: int, d: int)
    requires
        x >= 1,
        d >= 1,
    ensures
        (scaled(x, quotient(2560, d)) + 1) * d * 1_000_001 > 2560 * x * 1_000_000,
{
    let e = NEAR as int;
    let o = e + 1;
    let q = quotient(2560, d);
    lemma_quotient(2560, d);
    lemma_quotient_is_near(2560, d);
    lemma_scaled_is_near(x, q);
    let l = scaled(x, q) + 1;
    let k = q.den;
    let m = q.num;
    let u = x * m * e;
    let v = l * k * o;
    let g = d * o;
    assert(u * g < v * g) by (nonlinear_arith)
        requires
            u < v,
            g == d * o,
            d >= 1,
            o >= 1,
    ;
    let w = m * d * o;
    let b = 2560 * k * e;
    let y = x * e;
    assert(u * g == w * y) by (nonlinear_arith)
        requires
            u == x * m * e,
            g == d * o,
            w == m * d * o,
            y == x * e,
    ;
    assert(b * y <= w * y) by (nonlinear_arith)
        requires
            b <= w,
            y == x * e,
            x >= 1,
            e >= 1,
    ;
    let s = 2560 * x * (e * e);
    let t = l * d * (o * o);
    assert(b * y == k * s) by (nonlinear_arith)
        requires
            b == 2560 * k * e,
            y == x * e,
            s == 2560 * x * (e * e),
    ;
    assert(v * g == k * t) by (nonlinear_arith)
        requires
            v == l * k * o,
            g == d * o,
            t == l * d * (o * o),
    ;
    assert(s < t) by (nonlinear_arith)
        requires
            k * s < k * t,
            k >= 1,
    ;
    let f = l * d;
    let h = 2560 * x;
    assert(f * 1_000_001 > h * 1_000_000) by (nonlinear_arith)
        requires
            h * (e * e) < f * (o * o),
            e == 0x4000_0000,
            o == 0x4000_0001,
            h >= 0,
    ;
}

/// What the limit of the area makes of a length is little less than the limit asks.
proof fn lemma_area_limit(x: int, a: int, b: int)
    requires
        x >= 1,
        a >= 1,
        b >= 1,
    ensures
        ({
            let l = scaled(x, area_scale(a, b)) + 1;
            l * l * (a * b) * 1_000_001 > 3_686_400 * (x * x) * 1_000_000
        }),
{
    let e = NEAR as int;
    let o = e + 1;
    let p: int = 3_686_400;
    let z = a * b;
    assert(z >= 1) by (nonlinear_arith)
        requires
            z == a * b,
            a >= 1,
            b >= 1,
    ;
    lemma_rounded(z);
    let v = rounded(z);
    let q = quotient(p, v);
    lemma_quotient(p, v);
    lemma_quotient_is_near(p, v);
    let f = root(q);
    lemma_root(q);
    lemma_root_is_near(q);
    lemma_scaled_is_near(x, f);
    let l = scaled(x, f) + 1;
    let c = f.den;
    let r = f.num;
    let m = q.num;
    let k = q.den;
    let x1 = x * r * e;
    let y1 = l * c * o;
    assert(x1 >= 0) by (nonlinear_arith)
        requires
            x1 == x * r * e,
            x >= 1,
            r >= 1,
            e >= 1,
    ;
    assert(x1 * x1 < y1 * y1) by (nonlinear_arith)
        requires
            0 <= x1 < y1,
    ;
    let ll = l * l;
    let xx = x * x;
    let cc = c * c;
    let rr = r * r;
    let ee = e * e;
    let oo = o * o;
    assert(y1 * y1 == ll * cc * oo) by (nonlinear_arith)
        requires
            y1 == l * c * o,
            ll == l * l,
            cc == c * c,
            oo == o * o,
    ;
    assert(x1 * x1 == xx * rr * ee) by (nonlinear_arith)
        requires
            x1 == x * r * e,
            xx == x * x,
            rr == r * r,
            ee == e * e,
    ;
    // xx * rr * ee < ll * cc * oo, times k * o, and m * cc * e <= rr * k * o.
    let s1 = m * cc * e;
    let s2 = rr * k * o;
    assert(s1 <= s2) by (nonlinear_arith)
        requires
            m * c * c * e <= r * r * k * o,
            s1 == m * cc * e,
            s2 == rr * k * o,
            cc == c * c,
            rr == r * r,
    ;
    let t1 = xx * rr * ee;
    let t2 = ll * cc * oo;
    let ko = k * o;
    assert(t1 * ko < t2 * ko) by (nonlinear_arith)
        requires
            t1 < t2,
            ko == k * o,
            k >= 1,
            o >= 1,
    ;
    let xe = xx * ee;
    assert(xe >= 0) by (nonlinear_arith)
        requires
            xe == xx * ee,
            xx == x * x,
            ee == e * e,
            x >= 1,
            e >= 1,
    ;
    assert(t1 * ko == xe * s2) by (nonlinear_arith)
        requires
            t1 == xx * rr * ee,
            ko == k * o,
            xe == xx * ee,
            s2 == rr * k * o,
    ;
    assert(xe * s1 <= xe * s2) by (nonlinear_arith)
        requires
            s1 <= s2,
            xe >= 0,
    ;
    let u1 = xe * m * e;
    let u2 = ll * oo * k * o;
    assert(xe * s1 == cc * u1) by (nonlinear_arith)
        requires
            s1 == m * cc * e,
            u1 == xe * m * e,
    ;
    assert(t2 * ko == cc * u2) by (nonlinear_arith)
        requires
            t2 == ll * cc * oo,
            ko == k * o,
            u2 == ll * oo * k * o,
    ;
    assert(u1 < u2) by (nonlinear_arith)
        requires
            cc * u1 < cc * u2,
            cc == c * c,
            c >= 1,
    ;
    // xe * m * e < ll * oo * k * o, times v * o, and p * k * e <= m * v * o.
    let g1 = p * k * e;
    let g2 = m * v * o;
    let vo = v * o;
    assert(v >= 1);
    assert(u1 * vo < u2 * vo) by (nonlinear_arith)
        requires
            u1 < u2,
            vo == v * o,
            v >= 1,
            o >= 1,
    ;
    let e3 = xe * e;
    assert(e3 >= 0) by (nonlinear_arith)
        requires
            e3 == xe * e,
            xe >= 0,
            e >= 1,
    ;
    assert(u1 * vo == e3 * g2) by (nonlinear_arith)
        requires
            u1 == xe * m * e,
            vo == v * o,
            e3 == xe * e,
            g2 == m * v * o,
    ;
    assert(e3 * g1 <= e3 * g2) by (nonlinear_arith)
        requires
            g1 <= g2,
            e3 >= 0,
    ;
    let h1 = e3 * p * e;
    let lo = ll * oo * oo;
    let h2 = lo * v;
    assert(e3 * g1 == k * h1) by (nonlinear_arith)
        requires
            g1 == p * k * e,
            h1 == e3 * p * e,
    ;
    assert(u2 * vo == k * h2) by (nonlinear_arith)
        requires
            u2 == ll * oo * k * o,
            vo == v * o,
            oo == o * o,
            lo == ll * oo * oo,
            h2 == lo * v,
    ;
    assert(h1 < h2) by (nonlinear_arith)
        requires
            k * h1 < k * h2,
            k >= 1,
    ;
    // h1 < lo * v, times e, and v * e <= z * o.
    assert(h1 * e < h2 * e) by (nonlinear_arith)
        requires
            h1 < h2,
            e >= 1,
    ;
    assert(h2 * e == lo * (v * e)) by (nonlinear_arith)
        requires
            h2 == lo * v,
    ;
    assert(lo >= 0) by (nonlinear_arith)
        requires
            lo == ll * oo * oo,
            ll == l * l,
            oo == o * o,
    ;
    assert(lo * (v * e) <= lo * (z * o)) by (nonlinear_arith)
        requires
            v * e <= z * o,
            lo >= 0,
    ;
    let big = ll * z;
    let small = p * xx;
    assert(h1 * e == small * (ee * ee * e)) by (nonlinear_arith)
        requires
            h1 == e3 * p * e,
            e3 == xe * e,
            xe == xx * ee,
            small == p * xx,
            ee == e * e,
    ;
    assert(lo * (z * o) == big * (oo * oo * o)) by (nonlinear_arith)
        requires
            lo == ll * oo * oo,
            big == ll * z,
    ;
    assert(small >= 0) by (nonlinear_arith)
        requires
            small == p * xx,
            xx == x * x,
            p == 3_686_400,
    ;
    assert(big * 1_000_001 > small * 1_000_000) by (nonlinear_arith)
        requires
            small * (ee * ee * e) < big * (oo * oo * o),
            e == 0x4000_0000,
            o == 0x4000_0001,
            ee == e * e,
            oo == o * o,
            small >= 0,
    ;
}

/// A display that has to be made smaller is made no smaller than need be: up to a pixel and a
/// millionth part, a side is as long as 2560 allows, as long as the other side's share of 2560 allows,
/// or as long as 3,686,400 pixels in all allow.
pub proof fn law_display_is_as_large_as_it_may_be(w: int, h: int)
    requires
        w >= 1,
        h >= 1,
    ensures
        ({
            let x = capped(w, h).0 + 1;
            let y = capped(w, h).1 + 1;
            &&& x > w || x * 1_000_001 > 2560 * 1_000_000 || x * h * 1_000_001 > 2560 * w * 1_000_000
                || x * x * h * 1_000_001 > 3_686_400 * w * 1_000_000
            &&& y > h || y * 1_000_001 > 2560 * 1_000_000 || y * w * 1_000_001 > 2560 * h * 1_000_000
                || y * y * w * 1_000_001 > 3_686_400 * h * 1_000_000
        }),
{
    if !super::app::within(w, h) {
        lemma_longest(w, h);
        lemma_longest(h, w);
        lemma_same_area(w, h);
    }
}

proof fn lemma_same_area(a: int, b: int)
    ensures
        area_scale(a, b) == area_scale(b, a),
{
    assert(a * b == b * a) by (nonlinear_arith);
}

/// What the law says of the side `a` of a display of `a` by `b`.
proof fn lemma_longest(a: int, b: int)
    requires
        a >= 1,
        b >= 1,
    ensures
        ({
            let s = side(a, a, b) + 1;
            s * 1_000_001 > 2560 * 1_000_000 || s * b * 1_000_001 > 2560 * a * 1_000_000 || s * s * b
                * 1_000_001 > 3_686_400 * a * 1_000_000
        }),
        side(a, a, b) == side(a, b, a),
{
    let by_a = scaled(a, quotient(2560, a));
    let by_b = scaled(a, quotient(2560, b));
    let by_area = scaled(a, area_scale(a, b));
    let s = side(a, a, b) + 1;
    lemma_side_limit(a, a);
    lemma_side_limit(a, b);
    lemma_area_limit(a, a, b);
    lemma_same_area(a, b);
    if s - 1 >= by_a {
        let l = by_a + 1;
        assert(s * 1_000_001 > 2560 * 1_000_000) by (nonlinear_arith)
            requires
                l * a * 1_000_001 > 2560 * a * 1_000_000,
                s >= l,
                a >= 1,
        ;
    } else if s - 1 >= by_b {
        let l = by_b + 1;
        assert(s * b * 1_000_001 > 2560 * a * 1_000_000) by (nonlinear_arith)
            requires
                l * b * 1_000_001 > 2560 * a * 1_000_000,
                s >= l,
                b >= 1,
        ;
    } else {
        let l = by_area + 1;
        assert(s >= l);
        lemma_scaled_not_negative(a, b);
        let ss = s * s;
        let ll = l * l;
        assert(ss >= ll) by (nonlinear_arith)
            requires
                ss == s * s,
                ll == l * l,
                s >= l,
                l >= 1,
        ;
        let u = ll * b;
        let t = ss * b;
        assert(t >= u) by (nonlinear_arith)
            requires
                t == ss * b,
                u == ll * b,
                ss >= ll,
                b >= 1,
        ;
        assert(ll * (a * b) == u * a) by (nonlinear_arith)
            requires
                u == ll * b,
        ;
        assert(u * 1_000_001 > 3_686_400 * a * 1_000_000) by (nonlinear_arith)
            requires
                u * a * 1_000_001 > 3_686_400 * (a * a) * 1_000_000,
                a >= 1,
        ;
    }
}

proof fn lemma_scaled_not_negative(a: int, b: int)
    requires
        a >= 1,
        b >= 1,
    ensures
        scaled(a, area_scale(a, b)) >= 0,
{
    let z = a * b;
    assert(z >= 1) by (nonlinear_arith)
        requires
            z == a * b,
            a >= 1,
            b >= 1,
    ;
    lemma_rounded(z);
    let q = quotient(3_686_400, rounded(z));
    lemma_quotient(3_686_400, rounded(z));
    lemma_root(q);
    lemma_scaled(a, root(q));
}

/// The size of what is shown is that of the last picture; without one there is none.
pub proof fn law_shown_size_is_the_pictures(s: ViewerState)
    ensures
        s.latest is None ==> s.dims() == (0u32, 0u32),
        s.latest is Some ==> s.dims() == (s.latest->0.width as u32, s.latest->0.height as u32),
{
}

} // verus!
