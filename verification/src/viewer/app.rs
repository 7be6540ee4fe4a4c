//! The window of the viewer: which input it passes on, which size it asks for, and what it
//! reports.
use super::control::{key_action, touch_action, POINTER_ID_MOUSE};
use super::keys::{android_key, to_android_keycode, Key, KeySet};
use super::rounding::{
    lemma_quotient, lemma_root, lemma_rounded, lemma_scaled, quotient, root, round, rounded, scaled,
    Fraction, Scale, BITS_53, NEAR,
};
use super::video::{InputView, VideoEvent, VideoInput};
use crate::proto::messages::{CtrlMsg, InjectKeycode, InjectScroll, InjectTouch, Msg, ResizeDisplay};
use crate::proto::msgs;
use crate::proto::session::Event;
use crate::text::{chars_of, copy_text, string_of, string_view, trim, trimmed};
use vstd::prelude::*;

verus! {

/// How often the size of the window is looked at.
pub const RESIZE_POLL_INTERVAL: u64 = 500_000_000;

/// How many looks in a row must find the same size before it is asked for.
pub const RESIZE_STABLE_TICKS: u32 = 2;

/// Pictures are not drawn more often than this.
pub const MIN_UPLOAD_INTERVAL: u64 = 16_000_000;

/// A display is no wider and no higher.
pub const MAX_DISPLAY_DIMENSION: u32 = 2560;

/// A display has no more pixels.
pub const MAX_DISPLAY_PIXELS: u64 = 3_686_400;

/// How long the counts of the panel are taken over.
pub const HUD_WINDOW: u64 = 250_000_000;

/// After this long without a picture the application is started once more.
pub const RESTART_AFTER: u64 = 8_000_000_000;

/// After this long without a picture the window says so and gives up.
pub const ALERT_AFTER: u64 = 18_000_000_000;

/// The bits of a pressure of 1.
pub const FULL_PRESSURE: u32 = 0x3F80_0000;

/// `x`, or 1 where it is 0.
pub open spec fn at_least_one(x: int) -> int {
    if x < 1 {
        1
    } else {
        x
    }
}

/// Whether a display of this size is within the limits.
pub open spec fn within(w: int, h: int) -> bool {
    w <= MAX_DISPLAY_DIMENSION && h <= MAX_DISPLAY_DIMENSION && w * h <= MAX_DISPLAY_PIXELS
}

/// The scale that makes an area of `a` times `b` as large as it may be at most, computed from
/// rounded numbers.
pub open spec fn area_scale(a: int, b: int) -> Fraction {
    root(quotient(MAX_DISPLAY_PIXELS as int, rounded(a * b)))
}

/// What the smallest of the three scales makes of `x`, and at least 1: those that bring side
/// `a`, side `b` and the area to their limits.
pub open spec fn side(x: int, a: int, b: int) -> int {
    let by_a = scaled(x, quotient(MAX_DISPLAY_DIMENSION as int, a));
    let by_b = scaled(x, quotient(MAX_DISPLAY_DIMENSION as int, b));
    let by_area = scaled(x, area_scale(a, b));
    at_least_one(least(least(by_a, by_b), by_area))
}

pub open spec fn least(x: int, y: int) -> int {
    if x < y {
        x
    } else {
        y
    }
}

/// The size of a display of `w` x `h` that was scaled down, both sides alike, until it is
/// within the limits. The scale is rounded to 53 significant bits, and so is each product
/// before it is rounded down.
pub open spec fn capped(w: int, h: int) -> (int, int) {
    let a = at_least_one(w);
    let b = at_least_one(h);
    if within(a, b) {
        (a, b)
    } else {
        (side(a, a, b), side(b, a, b))
    }
}

/// The greatest even number up to `v`, and at least 2.
pub open spec fn even(v: int) -> int {
    if v < 2 {
        2
    } else {
        v - v % 2
    }
}

/// The least of what the scales make of `x`, and at least 1.
fn cap_side(x: u32, by_a: &Scale, by_b: &Scale, by_area: &Scale) -> (r: u128)
    requires
        1 <= by_a@.num <= BITS_53 && by_a@.den >= 1,
        1 <= by_b@.num <= BITS_53 && by_b@.den >= 1,
        1 <= by_area@.num <= BITS_53 && by_area@.den >= 1,
    ensures
        r == at_least_one(
            least(
                least(scaled(x as int, by_a@), scaled(x as int, by_b@)),
                scaled(x as int, by_area@),
            ),
        ),
{
    let mut r: u128 = by_a.of(x);
    let n: u128 = by_b.of(x);
    if n < r {
        r = n;
    }
    let n: u128 = by_area.of(x);
    if n < r {
        r = n;
    }
    if r < 1 {
        1
    } else {
        r
    }
}

/// The size of a display of `w` x `h` that was scaled down, both sides alike, until it is
/// within the limits; a size that is within them is kept.
pub fn cap_display(w: u32, h: u32) -> (r: (u32, u32))
    ensures
        (r.0 as int, r.1 as int) == capped(w as int, h as int),
{
    let a: u32 = if w < 1 {
        1
    } else {
        w
    };
    let b: u32 = if h < 1 {
        1
    } else {
        h
    };
    assert(1 <= a * b <= 0xFFFF_FFFF * 0xFFFF_FFFF) by (nonlinear_arith)
        requires
            1 <= a <= 0xFFFF_FFFF,
            1 <= b <= 0xFFFF_FFFF,
    ;
    if a <= MAX_DISPLAY_DIMENSION && b <= MAX_DISPLAY_DIMENSION && a as u64 * b as u64
        <= MAX_DISPLAY_PIXELS {
        return (a, b);
    }
    let by_a = Scale::quotient(MAX_DISPLAY_DIMENSION, a as u128);
    let by_b = Scale::quotient(MAX_DISPLAY_DIMENSION, b as u128);
    let area: u128 = round(a as u128 * b as u128);
    proof {
        lemma_rounded(a * b);
    }
    let by_area = Scale::quotient(3_686_400, area).root();
    let x: u128 = cap_side(a, &by_a, &by_b, &by_area);
    let y: u128 = cap_side(b, &by_a, &by_b, &by_area);
    proof {
        lemma_side_is_short(a as int, a as int, b as int);
        lemma_side_is_short(b as int, a as int, b as int);
    }
    (x as u32, y as u32)
}

/// The greatest even number up to `v`, and at least 2: encoders take no odd sizes.
pub fn even_dim(v: u32) -> (r: u32)
    ensures
        r == even(v as int),
{
    let m: u32 = if v < 2 {
        2
    } else {
        v
    };
    m - m % 2
}

/// The size to ask for where the window, over the scale, is `w` x `h`.
pub fn target_display(w: u32, h: u32) -> (r: (u32, u32))
    ensures
        (r.0 as int, r.1 as int) == (
            even(capped(w as int, h as int).0),
            even(capped(w as int, h as int).1),
        ),
{
    let (cw, ch) = cap_display(w, h);
    (even_dim(cw), even_dim(ch))
}

/// A side that is scaled is at least 1 and no longer than it may be.
proof fn lemma_side_is_short(x: int, a: int, b: int)
    requires
        a >= 1,
        b >= 1,
        x == a || x == b,
    ensures
        1 <= side(x, a, b) <= MAX_DISPLAY_DIMENSION,
{
    let d = MAX_DISPLAY_DIMENSION as int;
    let q = quotient(d, x);
    let y = scaled(x, q);
    lemma_quotient(d, x);
    lemma_scaled(x, q);
    lemma_quotient(d, a);
    lemma_quotient(d, b);
    if y > d {
        let e = NEAR as int;
        // y * den * e * e <= d * den * (e + 1) * (e + 1), which is less than (d + 1) of them.
        let l = y * q.den * e;
        let r = x * q.num * (e + 1);
        assert(l * e <= r * e);
        assert(r * e == (q.num * x * e) * (e + 1)) by (nonlinear_arith)
            requires
                r == x * q.num * (e + 1),
        ;
        assert((q.num * x * e) * (e + 1) <= (d * q.den * (e + 1)) * (e + 1)) by (nonlinear_arith)
            requires
                q.num * x * e <= d * q.den * (e + 1),
                e >= 1,
        ;
        let k = q.den;
        assert(l * e == (y * k) * (e * e)) by (nonlinear_arith)
            requires
                l == y * k * e,
        ;
        assert((d * k * (e + 1)) * (e + 1) == (d * k) * ((e + 1) * (e + 1))) by (nonlinear_arith);
        assert(y * k >= (d + 1) * k) by (nonlinear_arith)
            requires
                y >= d + 1,
                k >= 1,
        ;
        assert((d + 1) * k == d * k + k) by (nonlinear_arith);
        let ee = e * e;
        let ff = (e + 1) * (e + 1);
        assert(ee == 0x1000_0000_0000_0000) by (nonlinear_arith)
            requires
                ee == e * e,
                e == 0x4000_0000,
        ;
        assert(ff == ee + 2 * e + 1) by (nonlinear_arith)
            requires
                ee == e * e,
                ff == (e + 1) * (e + 1),
        ;
        assert((y * k) * ee >= (d * k + k) * ee) by (nonlinear_arith)
            requires
                y * k >= d * k + k,
                ee >= 0,
        ;
        assert((d * k + k) * ee == (d * k) * ee + k * ee) by (nonlinear_arith);
        assert((d * k) * ff == (d * k) * ee + (d * k) * (2 * e + 1)) by (nonlinear_arith)
            requires
                ff == ee + 2 * e + 1,
        ;
        assert((d * k) * (2 * e + 1) == k * (d * (2 * e + 1))) by (nonlinear_arith);
        assert(k * ee > k * (d * (2 * e + 1))) by (nonlinear_arith)
            requires
                k >= 1,
                ee > d * (2 * e + 1),
        ;
    }
}

/// Two sides that the scale of the area has made enclose no more than they may.
proof fn lemma_area(x: int, y: int, a: int, b: int)
    requires
        a >= 1,
        b >= 1,
        0 <= x <= scaled(a, area_scale(a, b)),
        0 <= y <= scaled(b, area_scale(a, b)),
    ensures
        x * y <= MAX_DISPLAY_PIXELS,
{
    let e = NEAR as int;
    let o = e + 1;
    let p = MAX_DISPLAY_PIXELS as int;
    let z = a * b;
    assert(z >= 1) by (nonlinear_arith)
        requires
            z == a * b,
            a >= 1,
            b >= 1,
    ;
    lemma_rounded(z);
    let v = rounded(z);
    assert(v >= 1);
    let q = quotient(p, v);
    lemma_quotient(p, v);
    let f = area_scale(a, b);
    lemma_root(q);
    lemma_scaled(a, f);
    lemma_scaled(b, f);
    let c = f.den;
    let r = f.num;
    let m = q.num;
    let k = q.den;
    let xx = x * c * e;
    let yy = y * c * e;
    let aa = a * r * o;
    let bb = b * r * o;
    assert(0 <= xx <= aa) by (nonlinear_arith)
        requires
            xx == x * c * e,
            0 <= x <= scaled(a, f),
            scaled(a, f) * c * e <= aa,
            c >= 1,
            e >= 1,
    ;
    assert(0 <= yy <= bb) by (nonlinear_arith)
        requires
            yy == y * c * e,
            0 <= y <= scaled(b, f),
            scaled(b, f) * c * e <= bb,
            c >= 1,
            e >= 1,
    ;
    assert(xx * yy <= aa * bb) by (nonlinear_arith)
        requires
            0 <= xx <= aa,
            0 <= yy <= bb,
    ;
    // All that is left is to put the four roundings together.
    let w = x * y;
    let cc = c * c;
    let rr = r * r;
    assert(xx * yy == w * cc * (e * e)) by (nonlinear_arith)
        requires
            xx == x * c * e,
            yy == y * c * e,
            w == x * y,
            cc == c * c,
    ;
    assert(aa * bb == z * rr * (o * o)) by (nonlinear_arith)
        requires
            aa == a * r * o,
            bb == b * r * o,
            z == a * b,
            rr == r * r,
    ;
    let s1 = rr * k * e;
    let s2 = m * cc * o;
    assert(s1 <= s2) by (nonlinear_arith)
        requires
            r * r * k * e <= m * c * c * o,
            s1 == rr * k * e,
            s2 == m * cc * o,
            rr == r * r,
            cc == c * c,
    ;
    // w * cc * e^2 <= z * rr * o^2, times k * e, and rr * k * e <= m * cc * o.
    let t1 = w * cc * (e * e);
    let t2 = z * rr * (o * o);
    assert(t1 * (k * e) <= t2 * (k * e)) by (nonlinear_arith)
        requires
            t1 <= t2,
            k >= 1,
            e >= 1,
    ;
    assert(t2 * (k * e) == (z * (o * o)) * s1) by (nonlinear_arith)
        requires
            t2 == z * rr * (o * o),
            s1 == rr * k * e,
    ;
    let zo = z * (o * o);
    assert(zo >= 1) by (nonlinear_arith)
        requires
            zo == z * (o * o),
            z >= 1,
            o >= 1,
    ;
    assert(zo * s1 <= zo * s2) by (nonlinear_arith)
        requires
            s1 <= s2,
            zo >= 1,
    ;
    assert(zo * s2 == cc * (z * m * (o * o * o))) by (nonlinear_arith)
        requires
            zo == z * (o * o),
            s2 == m * cc * o,
    ;
    assert(t1 * (k * e) == cc * (w * k * (e * e * e))) by (nonlinear_arith)
        requires
            t1 == w * cc * (e * e),
    ;
    let u1 = w * k * (e * e * e);
    let u2 = z * m * (o * o * o);
    assert(u1 <= u2) by (nonlinear_arith)
        requires
            cc * u1 <= cc * u2,
            cc == c * c,
            c >= 1,
    ;
    // w * k * e^3 <= z * m * o^3, times v * e, and m * v * e <= p * k * o.
    let g1 = m * v * e;
    let g2 = p * k * o;
    assert(u1 * (v * e) <= u2 * (v * e)) by (nonlinear_arith)
        requires
            u1 <= u2,
            v >= 1,
            e >= 1,
    ;
    let zq = z * (o * o * o);
    assert(u2 * (v * e) == zq * g1) by (nonlinear_arith)
        requires
            u2 == z * m * (o * o * o),
            g1 == m * v * e,
            zq == z * (o * o * o),
    ;
    assert(zq >= 1) by (nonlinear_arith)
        requires
            zq == z * (o * o * o),
            z >= 1,
            o >= 1,
    ;
    assert(zq * g1 <= zq * g2) by (nonlinear_arith)
        requires
            g1 <= g2,
            zq >= 1,
    ;
    let oo = o * o * o * o;
    assert(zq * g2 == k * (z * p * oo)) by (nonlinear_arith)
        requires
            zq == z * (o * o * o),
            g2 == p * k * o,
            oo == o * o * o * o,
    ;
    let ee = e * e * e * e;
    assert(u1 * (v * e) == k * (w * v * ee)) by (nonlinear_arith)
        requires
            u1 == w * k * (e * e * e),
            ee == e * e * e * e,
    ;
    let h1 = w * v * ee;
    let h2 = z * p * oo;
    assert(h1 <= h2) by (nonlinear_arith)
        requires
            k * h1 <= k * h2,
            k >= 1,
    ;
    // w * v * e^4 <= z * p * o^4, times e, and z * e <= v * o.
    assert(h1 * e <= h2 * e) by (nonlinear_arith)
        requires
            h1 <= h2,
            e >= 1,
    ;
    assert(h2 * e == (z * e) * (p * oo)) by (nonlinear_arith)
        requires
            h2 == z * p * oo,
    ;
    let po = p * oo;
    assert(po >= 1) by (nonlinear_arith)
        requires
            po == p * oo,
            oo == o * o * o * o,
            o >= 1,
            p >= 1,
    ;
    assert((z * e) * po <= (v * o) * po) by (nonlinear_arith)
        requires
            z * e <= v * o,
            po >= 1,
    ;
    assert((v * o) * po == v * (p * (oo * o))) by (nonlinear_arith)
        requires
            po == p * oo,
    ;
    assert(h1 * e == v * (w * (ee * e))) by (nonlinear_arith)
        requires
            h1 == w * v * ee,
    ;
    let j1 = w * (ee * e);
    let j2 = p * (oo * o);
    assert(j1 <= j2) by (nonlinear_arith)
        requires
            v * j1 <= v * j2,
            v >= 1,
    ;
    // o^5 is so little more than e^5 that p of them are less than p + 1 of the other.
    if w > p {
        assert(w * (ee * e) >= (p + 1) * (ee * e)) by (nonlinear_arith)
            requires
                w >= p + 1,
                ee == e * e * e * e,
                e >= 1,
        ;
        assert(p * (oo * o) < (p + 1) * (ee * e)) by (nonlinear_arith)
            requires
                p == 3_686_400,
                e == 0x4000_0000,
                o == 0x4000_0001,
                ee == e * e * e * e,
                oo == o * o * o * o,
        ;
    }
}

/// The size that is asked for is even and within the limits; a display that is within them
/// keeps its size.
pub proof fn law_size_is_within_limits(w: int, h: int)
    ensures
        capped(w, h).0 >= 1 && capped(w, h).1 >= 1,
        within(capped(w, h).0, capped(w, h).1),
        w >= 1 && h >= 1 && within(w, h) ==> capped(w, h) == (w, h),
        even(capped(w, h).0) % 2 == 0 && even(capped(w, h).1) % 2 == 0,
        even(capped(w, h).0) >= 2 && even(capped(w, h).1) >= 2,
        within(even(capped(w, h).0), even(capped(w, h).1)),
{
    let a = at_least_one(w);
    let b = at_least_one(h);
    let (x, y) = capped(w, h);
    if !within(a, b) {
        lemma_side_is_short(a, a, b);
        lemma_side_is_short(b, a, b);
        if x > 1 && y > 1 {
            lemma_area(x, y, a, b);
        } else {
            assert(x * y <= 2560) by (nonlinear_arith)
                requires
                    1 <= x <= 2560,
                    1 <= y <= 2560,
                    x == 1 || y == 1,
            ;
        }
    }
    let e = even(x);
    let f = even(y);
    if x >= 2 && y >= 2 {
        assert(e * f <= x * y) by (nonlinear_arith)
            requires
                0 <= e <= x,
                0 <= f <= y,
        ;
    } else {
        assert(e * f <= 5120) by (nonlinear_arith)
            requires
                2 <= e <= 2560,
                2 <= f <= 2560,
                e == 2 || f == 2,
        ;
    }
}

/// What the panel counts.
#[derive(Debug, Clone, Copy, PartialEq, Eq, Structural)]
pub struct Hud {
    pub window_start: u64,
    /// Bytes of pictures that came.
    pub rx_bytes: u64,
    /// Pictures that came.
    pub seen: u64,
    /// Times that the window was drawn.
    pub disp: u64,
    /// Pictures that were lost up to the start of the window.
    pub prev_lost: u64,
}

/// What was counted in one window of time.
#[derive(Debug, Clone, Copy, PartialEq, Eq, Structural)]
pub struct HudSample {
    pub elapsed: u64,
    pub rx_bytes: u64,
    pub seen: u64,
    pub disp: u64,
    pub lost: u64,
    pub lost_total: u64,
}

/// Which size the window had, and which one was asked for.
#[derive(Debug, Clone, Copy)]
pub struct ResizeState {
    pub last_check: u64,
    pub observed: (u32, u32),
    pub stable: u32,
    pub last_sent: (u32, u32),
}

impl ResizeState {
    pub fn new(now: u64) -> (r: Self)
        ensures
            r == (ResizeState { last_check: now, observed: (0, 0), stable: 0, last_sent: (0, 0) }),
    {
        ResizeState { last_check: now, observed: (0, 0), stable: 0, last_sent: (0, 0) }
    }

    /// After a look at `now` that found that `current` should be asked for.
    pub open spec fn looked(self, current: (u32, u32), now: u64) -> ResizeState {
        let s = ResizeState { last_check: now, ..self };
        if current == self.last_sent || current != self.observed {
            ResizeState { observed: current, stable: 0, ..s }
        } else if self.stable + 1 < RESIZE_STABLE_TICKS {
            ResizeState { stable: (self.stable + 1) as u32, ..s }
        } else {
            ResizeState { stable: 0, ..s }
        }
    }

    /// Whether such a look asks for the size: it is not what was asked for last, and the
    /// looks before have found it too.
    pub open spec fn asks(self, current: (u32, u32)) -> bool {
        current != self.last_sent && current == self.observed && self.stable + 1
            >= RESIZE_STABLE_TICKS
    }
}

/// Whether `interval` has passed from `since` to `now`.
pub open spec fn passed(since: u64, now: u64, interval: u64) -> bool {
    now - since >= interval
}

fn has_passed(since: u64, now: u64, interval: u64) -> (r: bool)
    ensures
        r == passed(since, now, interval),
{
    now >= since && now - since >= interval
}

/// A decoded picture.
#[derive(Debug, Clone)]
pub struct VideoFrame {
    pub width: usize,
    pub height: usize,
    pub rgba: Vec<u8>,
}

#[verifier::ext_equal]
pub struct Picture {
    pub width: usize,
    pub height: usize,
    pub rgba: Seq<u8>,
}

impl View for VideoFrame {
    type V = Picture;

    open spec fn view(&self) -> Picture {
        Picture { width: self.width, height: self.height, rgba: self.rgba@ }
    }
}

/// Where the pointer is.
#[derive(Debug, Clone, Copy, PartialEq, Eq, Structural)]
pub enum Pointer {
    Unknown,
    /// Not over the picture.
    Outside,
    /// At this place of the picture.
    At(i32, i32),
}

/// The state of the window.
#[derive(Debug)]
pub struct ViewerApp {
    package: String,
    display_id: u32,
    latest: Option<VideoFrame>,
    last_upload: u64,
    hud: Hud,
    resize: ResizeState,
    started_at: u64,
    mouse_down: bool,
    pressed_keys: KeySet,
    should_exit: bool,
    last_error: Option<String>,
    no_frame_alerted: bool,
    start_app_resent: bool,
}

/// The state of the window, as the contracts speak of it.
#[verifier::ext_equal]
pub struct ViewerState {
    pub package: Seq<char>,
    pub display_id: u32,
    pub latest: Option<Picture>,
    pub last_upload: u64,
    pub hud: Hud,
    pub resize: ResizeState,
    pub started_at: u64,
    pub mouse_down: bool,
    pub pressed: Set<Key>,
    pub should_exit: bool,
    pub last_error: Option<Seq<char>>,
    pub no_frame_alerted: bool,
    pub start_app_resent: bool,
}

impl View for ViewerApp {
    type V = ViewerState;

    closed spec fn view(&self) -> ViewerState {
        ViewerState {
            package: self.package@,
            display_id: self.display_id,
            latest: match self.latest {
                Some(f) => Some(f@),
                None => None,
            },
            last_upload: self.last_upload,
            hud: self.hud,
            resize: self.resize,
            started_at: self.started_at,
            mouse_down: self.mouse_down,
            pressed: self.pressed_keys@,
            should_exit: self.should_exit,
            last_error: string_view(self.last_error),
            no_frame_alerted: self.no_frame_alerted,
            start_app_resent: self.start_app_resent,
        }
    }
}

/// What of an event of the session goes to the decoder: pictures, and the parameter sets of
/// the video.
pub open spec fn forwarded(e: Event) -> Option<InputView> {
    match e {
        Event::Video(f) => Some(InputView::Frame(f@)),
        Event::Control(m) => match m.msg {
            Some(Msg::MediaConfig(c)) => if c.stream == 2 {
                Some(InputView::Config(c.data@))
            } else {
                None
            },
            _ => None,
        },
        _ => None,
    }
}

impl ViewerState {
    /// The window when it opens.
    pub open spec fn fresh(package: Seq<char>, display_id: u32, now: u64) -> ViewerState {
        ViewerState {
            package,
            display_id,
            latest: None,
            last_upload: now,
            hud: Hud { window_start: now, rx_bytes: 0, seen: 0, disp: 0, prev_lost: 0 },
            resize: ResizeState {
                last_check: now,
                observed: (0, 0),
                stable: 0,
                last_sent: (0, 0),
            },
            started_at: now,
            mouse_down: false,
            pressed: Set::empty(),
            should_exit: false,
            last_error: None,
            no_frame_alerted: false,
            start_app_resent: false,
        }
    }

    /// Whether the counts can take `e` in.
    pub open spec fn can_count(self, e: Event) -> bool {
        e matches Event::Video(f) ==> self.hud.seen < u64::MAX && self.hud.rx_bytes
            + f.data@.len() <= u64::MAX
    }

    /// After an event of the session.
    pub open spec fn session_event(self, e: Event) -> ViewerState {
        match e {
            Event::Video(f) => ViewerState {
                hud: Hud {
                    seen: (self.hud.seen + 1) as u64,
                    rx_bytes: (self.hud.rx_bytes + f.data@.len()) as u64,
                    ..self.hud
                },
                ..self
            },
            Event::Error(t) => ViewerState { last_error: Some(t@), should_exit: true, ..self },
            Event::Closed => ViewerState {
                last_error: Some("会话已关闭（设备断开或 server 退出）"@),
                should_exit: true,
                ..self
            },
            _ => self,
        }
    }

    /// After an event of the decoder.
    pub open spec fn video_event(self, e: VideoEvent) -> ViewerState {
        match e {
            VideoEvent::Frame { width, height, rgba } => ViewerState {
                latest: Some(Picture { width, height, rgba: rgba@ }),
                ..self
            },
            VideoEvent::Error(t) => ViewerState { last_error: Some(t@), ..self },
            VideoEvent::Closed => ViewerState {
                last_error: Some("视频流已结束（设备断开或应用退出）"@),
                ..self
            },
        }
    }

    /// Whether the application is to be started once more.
    pub open spec fn restarts(self, now: u64) -> bool {
        self.latest is None && !self.no_frame_alerted && !self.start_app_resent && passed(
            self.started_at,
            now,
            RESTART_AFTER,
        )
    }

    /// Whether the window gives up waiting for a picture.
    pub open spec fn alerts(self, now: u64) -> bool {
        self.latest is None && !self.no_frame_alerted && self.start_app_resent && passed(
            self.started_at,
            now,
            ALERT_AFTER,
        )
    }

    /// After a look at whether there is a picture.
    pub open spec fn watched(self, now: u64) -> ViewerState {
        if self.restarts(now) {
            ViewerState {
                start_app_resent: true,
                last_error: Some(
                    "应用 8s 未出首帧，已重发启动（仍无画面请看设备端 [kulua] startApp 日志）"@,
                ),
                ..self
            }
        } else if self.alerts(now) {
            ViewerState {
                no_frame_alerted: true,
                last_error: Some(
                    "应用启动后 18s 仍无视频帧：am start 失败，或该应用不渲染到虚拟显示器（见设备端 [kulua] startApp 日志）"@,
                ),
                ..self
            }
        } else {
            self
        }
    }

    /// The size of the picture that is shown; 0 where there is none.
    pub open spec fn dims(self) -> (u32, u32) {
        match self.latest {
            Some(p) => (p.width as u32, p.height as u32),
            None => (0, 0),
        }
    }

    /// The message for a touch, where there is a picture to touch.
    pub open spec fn touch(self, action: u8, x: i32, y: i32) -> Option<Msg> {
        let (w, h) = self.dims();
        if w == 0 || h == 0 {
            None
        } else {
            Some(
                Msg::InjectTouch(
                    InjectTouch {
                        display_id: self.display_id,
                        action: action as u32,
                        pointer_id: POINTER_ID_MOUSE,
                        x,
                        y,
                        screen_width: w,
                        screen_height: h,
                        pressure: FULL_PRESSURE,
                        action_button: 0,
                        buttons: 0,
                    },
                ),
            )
        }
    }

    /// What the pointer does to the phone's screen: pressing touches it, moving moves the
    /// finger, letting go lifts it. Where the pointer is not over the picture nothing is
    /// said; where it is not known, letting go lifts the finger at `center`.
    pub open spec fn touched(
        self,
        down: bool,
        pointer: Pointer,
        center: Option<(i32, i32)>,
    ) -> Option<Msg> {
        let at: Option<(i32, i32)> = match pointer {
            Pointer::At(x, y) => Some((x, y)),
            Pointer::Outside => None,
            Pointer::Unknown => if down {
                None
            } else {
                center
            },
        };
        let action: Option<u8> = if down {
            Some(
                if self.mouse_down {
                    touch_action::MOVE
                } else {
                    touch_action::DOWN
                },
            )
        } else if self.mouse_down {
            Some(touch_action::UP)
        } else {
            None
        };
        match (action, at) {
            (Some(a), Some((x, y))) => self.touch(a, x, y),
            _ => None,
        }
    }

    /// The message for key `code`.
    pub open spec fn key_message(self, action: u8, code: u32) -> Msg {
        Msg::InjectKeycode(
            InjectKeycode {
                display_id: self.display_id,
                action: action as u32,
                keycode: code,
                repeat: 0,
                meta_state: 0,
            },
        )
    }

    /// What is said of a key: that it went down, or that one that had gone down went up.
    pub open spec fn keyed(self, key: Key, down: bool, up: bool) -> Option<Msg> {
        match android_key(key) {
            None => None,
            Some(code) => if down {
                Some(self.key_message(key_action::DOWN, code))
            } else if up && self.pressed.contains(key) {
                Some(self.key_message(key_action::UP, code))
            } else {
                None
            },
        }
    }

    /// After that.
    pub open spec fn after_key(self, key: Key, down: bool, up: bool) -> ViewerState {
        if down {
            if android_key(key) is Some {
                ViewerState { pressed: self.pressed.insert(key), ..self }
            } else {
                self
            }
        } else if up {
            ViewerState { pressed: self.pressed.remove(key), ..self }
        } else {
            self
        }
    }

    /// Whether the size of the window is looked at: it is time, there is a picture, and the
    /// window has a size.
    pub open spec fn looks(self, current: Option<(u32, u32)>, now: u64) -> bool {
        passed(self.resize.last_check, now, RESIZE_POLL_INTERVAL) && self.latest is Some
            && current is Some
    }

    /// After the time for a look has come or not.
    pub open spec fn polled(self, current: Option<(u32, u32)>, now: u64) -> ViewerState {
        if self.looks(current, now) {
            ViewerState { resize: self.resize.looked(current->0, now), ..self }
        } else if passed(self.resize.last_check, now, RESIZE_POLL_INTERVAL) {
            ViewerState { resize: ResizeState { last_check: now, ..self.resize }, ..self }
        } else {
            self
        }
    }
}

/// What a message says, where there is one.
pub open spec fn message(m: Option<CtrlMsg>) -> Option<Msg> {
    match m {
        Some(c) => c.msg,
        None => None,
    }
}

impl ViewerApp {
    /// The window when it opens, for the display `display_id` that shall show `package`.
    pub fn new(package: &str, display_id: u32, now: u64) -> (r: Self)
        ensures
            r@ == ViewerState::fresh(package@, display_id, now),
    {
        ViewerApp {
            package: package.to_owned(),
            display_id,
            latest: None,
            last_upload: now,
            hud: Hud { window_start: now, rx_bytes: 0, seen: 0, disp: 0, prev_lost: 0 },
            resize: ResizeState::new(now),
            started_at: now,
            mouse_down: false,
            pressed_keys: KeySet::new(),
            should_exit: false,
            last_error: None,
            no_frame_alerted: false,
            start_app_resent: false,
        }
    }

    pub fn should_exit(&self) -> (r: bool)
        ensures
            r == self@.should_exit,
    {
        self.should_exit
    }

    /// What the panel shows of the last error.
    pub fn last_error(&self) -> (r: Option<String>)
        ensures
            string_view(r) == self@.last_error,
    {
        match &self.last_error {
            Some(e) => Some(copy_text(e)),
            None => None,
        }
    }

    /// What has been counted since the counts began.
    pub fn hud(&self) -> (r: Hud)
        ensures
            r == self@.hud,
    {
        self.hud
    }

    /// The size that was asked for last.
    pub fn last_sent(&self) -> (r: (u32, u32))
        ensures
            r == self@.resize.last_sent,
    {
        self.resize.last_sent
    }

    /// The picture that is shown.
    pub fn latest(&self) -> (r: Option<&VideoFrame>)
        ensures
            match r {
                Some(f) => self@.latest == Some(f@),
                None => self@.latest is None,
            },
    {
        match &self.latest {
            Some(f) => Some(f),
            None => None,
        }
    }

    /// Takes an event of the session in; the result goes to the decoder.
    pub fn drain_session(&mut self, event: Event) -> (r: Option<VideoInput>)
        requires
            old(self)@.can_count(event),
        ensures
            final(self)@ == old(self)@.session_event(event),
            match r {
                Some(i) => forwarded(event) == Some(i@),
                None => forwarded(event) is None,
            },
    {
        match event {
            Event::Video(frame) => {
                self.hud.seen = self.hud.seen + 1;
                self.hud.rx_bytes = self.hud.rx_bytes + frame.data.len() as u64;
                Some(VideoInput::Frame(frame))
            },
            Event::Control(msg) => match msg.msg {
                Some(Msg::MediaConfig(cfg)) => if cfg.stream == 2 {
                    Some(VideoInput::Config(cfg.data))
                } else {
                    None
                },
                _ => None,
            },
            Event::Error(e) => {
                self.last_error = Some(e);
                self.should_exit = true;
                None
            },
            Event::Closed => {
                self.last_error = Some("会话已关闭（设备断开或 server 退出）".to_owned());
                self.should_exit = true;
                None
            },
            _ => None,
        }
    }

    /// Takes an event of the decoder in.
    pub fn drain_video(&mut self, event: VideoEvent)
        ensures
            final(self)@ == old(self)@.video_event(event),
    {
        match event {
            VideoEvent::Frame { width, height, rgba } => {
                self.latest = Some(VideoFrame { width, height, rgba });
            },
            VideoEvent::Error(e) => {
                self.last_error = Some(e);
            },
            VideoEvent::Closed => {
                self.last_error = Some("视频流已结束（设备断开或应用退出）".to_owned());
            },
        }
    }

    /// Looks after an application that shows nothing: after 8 s it is started once more,
    /// after 18 s the window says so.
    pub fn watchdog_no_frame(&mut self, now: u64) -> (r: Option<CtrlMsg>)
        ensures
            final(self)@ == old(self)@.watched(now),
            r is Some <==> old(self)@.restarts(now),
            r matches Some(m) ==> (m.msg matches Some(Msg::StartApp(s)) && s.display_id == old(
                self,
            )@.display_id && s.package@ == old(self)@.package),
    {
        if self.latest.is_some() || self.no_frame_alerted {
            return None;
        }
        if !self.start_app_resent && has_passed(self.started_at, now, RESTART_AFTER) {
            self.start_app_resent = true;
            self.last_error = Some(
                "应用 8s 未出首帧，已重发启动（仍无画面请看设备端 [kulua] startApp 日志）".to_owned(),
            );
            return Some(msgs::start_app(self.display_id, self.package.as_str()));
        }
        if self.start_app_resent && has_passed(self.started_at, now, ALERT_AFTER) {
            self.no_frame_alerted = true;
            self.last_error = Some(
                "应用启动后 18s 仍无视频帧：am start 失败，或该应用不渲染到虚拟显示器（见设备端 [kulua] startApp 日志）".to_owned(),
            );
        }
        None
    }

    /// What the panel shows anew, four times a second. `lost_now` is how many pictures were
    /// lost so far.
    pub fn tick_hud(&mut self, now: u64, lost_now: u64) -> (r: Option<HudSample>)
        ensures
            if passed(old(self)@.hud.window_start, now, HUD_WINDOW) {
                &&& r == Some(
                    HudSample {
                        elapsed: (now - old(self)@.hud.window_start) as u64,
                        rx_bytes: old(self)@.hud.rx_bytes,
                        seen: old(self)@.hud.seen,
                        disp: old(self)@.hud.disp,
                        lost: if lost_now > old(self)@.hud.prev_lost {
                            (lost_now - old(self)@.hud.prev_lost) as u64
                        } else {
                            0
                        },
                        lost_total: lost_now,
                    },
                )
                &&& final(self)@ == (ViewerState {
                    hud: Hud {
                        window_start: now,
                        rx_bytes: 0,
                        seen: 0,
                        disp: 0,
                        prev_lost: lost_now,
                    },
                    ..old(self)@
                })
            } else {
                r is None && final(self)@ == old(self)@
            },
    {
        if !has_passed(self.hud.window_start, now, HUD_WINDOW) {
            return None;
        }
        let lost: u64 = if lost_now > self.hud.prev_lost {
            lost_now - self.hud.prev_lost
        } else {
            0
        };
        let sample = HudSample {
            elapsed: now - self.hud.window_start,
            rx_bytes: self.hud.rx_bytes,
            seen: self.hud.seen,
            disp: self.hud.disp,
            lost,
            lost_total: lost_now,
        };
        self.hud = Hud { window_start: now, rx_bytes: 0, seen: 0, disp: 0, prev_lost: lost_now };
        Some(sample)
    }

    /// Counts that the window was drawn.
    pub fn tick_upload_counter(&mut self)
        requires
            old(self)@.hud.disp < u64::MAX,
        ensures
            final(self)@ == (ViewerState {
                hud: Hud { disp: (old(self)@.hud.disp + 1) as u64, ..old(self)@.hud },
                ..old(self)@
            }),
    {
        self.hud.disp = self.hud.disp + 1;
    }

    /// Whether the picture is to be drawn anew: there is one, and it is not too soon.
    pub fn upload_texture(&mut self, now: u64) -> (r: bool)
        ensures
            r == (old(self)@.latest is Some && passed(
                old(self)@.last_upload,
                now,
                MIN_UPLOAD_INTERVAL,
            )),
            final(self)@ == if r {
                ViewerState { last_upload: now, ..old(self)@ }
            } else {
                old(self)@
            },
    {
        if self.latest.is_none() || !has_passed(self.last_upload, now, MIN_UPLOAD_INTERVAL) {
            return false;
        }
        self.last_upload = now;
        true
    }

    /// The size of the picture that is shown; 0 where there is none.
    pub fn video_dims(&self) -> (r: (u32, u32))
        ensures
            r == self@.dims(),
    {
        match &self.latest {
            Some(f) => (f.width as u32, f.height as u32),
            None => (0, 0),
        }
    }

    /// The message for a touch, where there is a picture to touch.
    pub fn send_touch(&self, action: u8, x: i32, y: i32) -> (r: Option<CtrlMsg>)
        ensures
            message(r) == self@.touch(action, x, y),
            r is Some ==> r->0.msg is Some,
    {
        let (sw, sh) = self.video_dims();
        if sw == 0 || sh == 0 {
            return None;
        }
        Some(
            msgs::inject_touch(
                self.display_id,
                action as u32,
                POINTER_ID_MOUSE,
                x,
                y,
                sw,
                sh,
                FULL_PRESSURE,
                0,
                0,
            ),
        )
    }

    /// What the main button, which is `down` or not, does to the phone's screen. `center` is
    /// the middle of the picture.
    pub fn handle_touch(
        &mut self,
        down: bool,
        pointer: Pointer,
        center: Option<(i32, i32)>,
    ) -> (r: Option<CtrlMsg>)
        ensures
            message(r) == old(self)@.touched(down, pointer, center),
            r is Some ==> r->0.msg is Some,
            final(self)@ == (ViewerState { mouse_down: down, ..old(self)@ }),
    {
        let at: Option<(i32, i32)> = match pointer {
            Pointer::At(x, y) => Some((x, y)),
            Pointer::Outside => None,
            Pointer::Unknown => if down {
                None
            } else {
                center
            },
        };
        let was = self.mouse_down;
        self.mouse_down = down;
        if !down && !was {
            return None;
        }
        let action: u8 = if down {
            if was {
                touch_action::MOVE
            } else {
                touch_action::DOWN
            }
        } else {
            touch_action::UP
        };
        match at {
            Some((x, y)) => self.send_touch(action, x, y),
            None => None,
        }
    }

    /// The message for a turn of the wheel over (`x`, `y`), where there is a picture;
    /// `vscroll` is the bits of the distance.
    pub fn scroll(&self, x: i32, y: i32, vscroll: u32) -> (r: Option<CtrlMsg>)
        ensures
            message(r) == if self@.dims().0 > 0 {
                Some(
                    Msg::InjectScroll(
                        InjectScroll {
                            display_id: self@.display_id,
                            x,
                            y,
                            screen_width: self@.dims().0,
                            screen_height: self@.dims().1,
                            hscroll: 0,
                            vscroll,
                            buttons: 0,
                        },
                    ),
                )
            } else {
                None
            },
            r is Some ==> r->0.msg is Some,
    {
        let (sw, sh) = self.video_dims();
        if sw > 0 {
            Some(msgs::inject_scroll(self.display_id, x, y, sw, sh, 0, vscroll, 0))
        } else {
            None
        }
    }

    /// The messages for the second button, which is the phone's back key.
    pub fn back(&self, pressed: bool, released: bool) -> (r: Vec<CtrlMsg>)
        ensures
            r@.len() == (if pressed {
                1int
            } else {
                0
            }) + (if released {
                1int
            } else {
                0
            }),
            pressed ==> r@[0].msg == Some(
                Msg::BackOrScreenOn(
                    crate::proto::messages::BackOrScreenOn {
                        display_id: self@.display_id,
                        action: key_action::DOWN as u32,
                    },
                ),
            ),
            released ==> r@.last().msg == Some(
                Msg::BackOrScreenOn(
                    crate::proto::messages::BackOrScreenOn {
                        display_id: self@.display_id,
                        action: key_action::UP as u32,
                    },
                ),
            ),
    {
        let mut r: Vec<CtrlMsg> = Vec::new();
        if pressed {
            r.push(msgs::back_or_screen_on(self.display_id, key_action::DOWN as u32));
        }
        if released {
            r.push(msgs::back_or_screen_on(self.display_id, key_action::UP as u32));
        }
        r
    }

    /// The message for text that was typed; `modified` is whether control, alt or command
    /// was held. White space around it is dropped.
    pub fn typed(&self, text: &str, modified: bool) -> (r: Option<CtrlMsg>)
        ensures
            r is Some <==> trimmed(text@).len() > 0 && !modified,
            r matches Some(m) ==> (m.msg matches Some(Msg::InjectText(t)) && t.display_id
                == self@.display_id && t.text@ == trimmed(text@)),
    {
        let chars = chars_of(text);
        let s: &[char] = trim(chars.as_slice());
        if s.len() == 0 || modified {
            return None;
        }
        Some(msgs::inject_text(self.display_id, string_of(s).as_str()))
    }

    /// The message for a key that went down or up. A key goes up only after it went down.
    pub fn key(&mut self, key: Key, down: bool, up: bool) -> (r: Option<CtrlMsg>)
        ensures
            message(r) == old(self)@.keyed(key, down, up),
            r is Some ==> r->0.msg is Some,
            final(self)@ == old(self)@.after_key(key, down, up),
    {
        if down {
            match to_android_keycode(key) {
                Some(kc) => {
                    self.pressed_keys.insert(key);
                    Some(
                        msgs::inject_keycode(self.display_id, key_action::DOWN as u32, kc, 0, 0),
                    )
                },
                None => None,
            }
        } else if up && self.pressed_keys.contains(key) {
            self.pressed_keys.remove(key);
            match to_android_keycode(key) {
                Some(kc) => Some(
                    msgs::inject_keycode(self.display_id, key_action::UP as u32, kc, 0, 0),
                ),
                None => None,
            }
        } else {
            assert(up ==> self@.pressed.remove(key) =~= self@.pressed);
            None
        }
    }

    /// Looks at the size of the window, twice a second once there is a picture, and asks for
    /// a display of that size when it no longer changes. `current` is the size to ask for;
    /// `None` where the window has none.
    pub fn poll_window_size(&mut self, current: Option<(u32, u32)>, now: u64) -> (r: Option<
        CtrlMsg,
    >)
        ensures
            final(self)@ == old(self)@.polled(current, now),
            message(r) == if old(self)@.looks(current, now) && old(self)@.resize.asks(current->0) {
                Some(
                    Msg::ResizeDisplay(
                        ResizeDisplay {
                            display_id: old(self)@.display_id,
                            width: (current->0).0,
                            height: (current->0).1,
                        },
                    ),
                )
            } else {
                None
            },
            r is Some ==> r->0.msg is Some,
    {
        if !has_passed(self.resize.last_check, now, RESIZE_POLL_INTERVAL) {
            return None;
        }
        self.resize.last_check = now;
        if self.latest.is_none() {
            return None;
        }
        let (w, h) = match current {
            Some(c) => c,
            None => {
                return None;
            },
        };
        let sent: (u32, u32) = self.resize.last_sent;
        let seen: (u32, u32) = self.resize.observed;
        if (w == sent.0 && h == sent.1) || !(w == seen.0 && h == seen.1) {
            self.resize.observed = (w, h);
            self.resize.stable = 0;
            return None;
        }
        if self.resize.stable < RESIZE_STABLE_TICKS - 1 {
            self.resize.stable = self.resize.stable + 1;
            return None;
        }
        self.resize.stable = 0;
        Some(msgs::resize_display(self.display_id, w, h))
    }

    /// Notes that the display of this size was asked for.
    pub fn resize_sent(&mut self, size: (u32, u32))
        ensures
            final(self)@ == (ViewerState {
                resize: ResizeState { last_sent: size, ..old(self)@.resize },
                ..old(self)@
            }),
    {
        self.resize.last_sent = size;
    }
}

/// A size is asked for only after three looks in a row have found it, and not again until
/// another one was asked for.
pub proof fn law_size_is_asked_for_when_stable(
    s: ResizeState,
    a: (u32, u32),
    b: (u32, u32),
    t1: u64,
    t2: u64,
)
    requires
        s.stable < RESIZE_STABLE_TICKS,
    ensures
        s.looked(a, t1).asks(b) ==> a == b && s.observed == b,
        a != s.observed && a != s.last_sent ==> {
            &&& !s.asks(a)
            &&& !s.looked(a, t1).asks(a)
            &&& s.looked(a, t1).looked(a, t2).asks(a)
        },
        s.asks(a) ==> s.observed == a && s.stable == 1,
        !(ResizeState { last_sent: a, ..s.looked(a, t1) }).asks(a),
{
}

/// The application is started anew at most once, and the window gives up only after that.
pub proof fn law_application_is_started_anew_once(s: ViewerState, t1: u64, t2: u64)
    ensures
        s.restarts(t1) ==> !s.watched(t1).restarts(t2),
        s.alerts(t1) ==> s.start_app_resent && !s.watched(t1).alerts(t2) && !s.watched(
            t1,
        ).restarts(t2),
        s.start_app_resent ==> s.watched(t1).start_app_resent,
        s.latest is Some ==> s.watched(t1) == s,
{
}

/// What is said of a key takes turns: after it went down it can go up, and after it went up
/// nothing more is said until it goes down again.
pub proof fn law_keys_go_up_after_they_went_down(s: ViewerState, key: Key)
    ensures
        android_key(key) is Some ==> s.after_key(key, true, false).keyed(key, false, true)
            is Some,
        s.after_key(key, false, true).keyed(key, false, true) is None,
        !s.pressed.contains(key) ==> s.keyed(key, false, true) is None,
{
}

} // verus!
