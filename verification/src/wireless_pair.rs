//! Pairing with a phone over the network.
use crate::text::{chars_of, contains_chars, copy_text, decimal_text};
use rand::Rng;
use vstd::prelude::*;
use vstd::string::StringExecFns;

verus! {

/// What the phone is shown: a name that it announces itself under, and a password.
#[derive(Debug, Clone)]
pub struct WirelessPairing {
    pub dns_id: String,
    pub psk: String,
}

/// The letters that names and passwords are made of.
pub const LETTER_RUNES: &'static str = "abcdefghijklmnopqrstuvwxyzABCDEFGHIJKLMNOPQRSTUVWXYZ";

/// `rand::Rng::gen_range` of a range that begins with 0, on `rand::thread_rng`: some number
/// below `n`. Which one is chance.
#[verifier::external_body]
fn below(n: usize) -> (r: usize)
    requires
        n > 0,
    ensures
        r < n,
{
    rand::thread_rng().gen_range(0..n)
}

/// Every character of `s` is an ASCII letter.
pub open spec fn all_letters(s: Seq<char>) -> bool {
    forall|i: int| 0 <= i < s.len() ==> crate::apps::is_letter(#[trigger] s[i])
}

/// The letters at the places `draws`.
pub fn letters_at(draws: &[usize]) -> (r: String)
    requires
        forall|i: int| 0 <= i < draws@.len() ==> #[trigger] draws@[i] < 52,
    ensures
        r@ == Seq::new(draws@.len(), |i: int| LETTER_RUNES@[draws@[i] as int]),
        all_letters(r@),
{
    let letters = chars_of(LETTER_RUNES);
    let mut r = String::new();
    let mut i: usize = 0;
    proof {
        reveal_strlit("abcdefghijklmnopqrstuvwxyzABCDEFGHIJKLMNOPQRSTUVWXYZ");
        assert(all_letters(letters@));
    }
    while i < draws.len()
        invariant
            i <= draws@.len(),
            forall|j: int| 0 <= j < draws@.len() ==> #[trigger] draws@[j] < 52,
            letters@ == LETTER_RUNES@,
            letters@.len() == 52,
            all_letters(letters@),
            r@ == Seq::new(i as nat, |j: int| LETTER_RUNES@[draws@[j] as int]),
            all_letters(r@),
        decreases draws@.len() - i,
    {
        let k: usize = draws[i];
        assert(crate::apps::is_letter(letters@[k as int]));
        r.push(letters[k]);
        i += 1;
        assert(r@ =~= Seq::new(i as nat, |j: int| LETTER_RUNES@[draws@[j] as int]));
    }
    r
}

/// `n` letters, drawn at random: those of [`letters_at`] at places that chance picks.
pub fn rand_string_runes(n: usize) -> (r: String)
    ensures
        r@.len() == n,
        all_letters(r@),
{
    let mut draws: Vec<usize> = Vec::new();
    let mut i: usize = 0;
    while i < n
        invariant
            i <= n,
            draws@.len() == i,
            forall|j: int| 0 <= j < draws@.len() ==> #[trigger] draws@[j] < 52,
        decreases n - i,
    {
        draws.push(below(52));
        i += 1;
    }
    letters_at(draws.as_slice())
}

/// What the phone reads off the screen.
pub open spec fn pairing_text(dns_id: Seq<char>, psk: Seq<char>) -> Seq<char> {
    "WIFI:T:ADB;S:"@ + dns_id + ";P:"@ + psk + ";;"@
}

impl WirelessPairing {
    /// A name of 24 letters and a password of 6, drawn at random.
    pub fn new() -> (r: Self)
        ensures
            r.dns_id@.len() == 24,
            r.psk@.len() == 6,
            all_letters(r.dns_id@),
            all_letters(r.psk@),
    {
        let dns_id = rand_string_runes(24);
        let psk = rand_string_runes(6);
        WirelessPairing::of(dns_id, psk)
    }

    /// The name `dns_id` and the password `psk`.
    pub fn of(dns_id: String, psk: String) -> (r: Self)
        ensures
            r.dns_id@ == dns_id@,
            r.psk@ == psk@,
    {
        WirelessPairing { dns_id, psk }
    }

    /// What the phone reads off the screen.
    pub fn get_info(&self) -> (r: String)
        ensures
            r@ == pairing_text(self.dns_id@, self.psk@),
    {
        "WIFI:T:ADB;S:".to_owned().concat(self.dns_id.as_str()).concat(";P:").concat(
            self.psk.as_str(),
        ).concat(";;")
    }

    pub fn duplicate(&self) -> (r: Self)
        ensures
            r.dns_id@ == self.dns_id@,
            r.psk@ == self.psk@,
    {
        WirelessPairing { dns_id: copy_text(&self.dns_id), psk: copy_text(&self.psk) }
    }
}

/// Two pairings whose names and passwords are made of letters are shown differently unless
/// they are the same: the phone can read both back.
pub proof fn law_pairing_text_is_readable(
    a: Seq<char>,
    p: Seq<char>,
    b: Seq<char>,
    q: Seq<char>,
)
    requires
        all_letters(a),
        all_letters(p),
        all_letters(b),
        all_letters(q),
        pairing_text(a, p) == pairing_text(b, q),
    ensures
        a == b,
        p == q,
{
    reveal_strlit("WIFI:T:ADB;S:");
    reveal_strlit(";P:");
    reveal_strlit(";;");
    let s = pairing_text(a, p);
    let t = pairing_text(b, q);
    let n: int = 13;
    assert("WIFI:T:ADB;S:"@.len() == n);
    assert(s[n + a.len()] == ';');
    assert(t[n + b.len()] == ';');
    if a.len() < b.len() {
        assert(t[n + a.len()] == b[a.len() as int]);
        assert(crate::apps::is_letter(b[a.len() as int]));
    }
    if b.len() < a.len() {
        assert(s[n + b.len()] == a[b.len() as int]);
        assert(crate::apps::is_letter(a[b.len() as int]));
    }
    assert(a.len() == b.len());
    assert(s.len() == n + a.len() + 3 + p.len() + 2);
    assert(t.len() == n + b.len() + 3 + q.len() + 2);
    assert(p.len() == q.len());
    assert forall|i: int| 0 <= i < a.len() implies a[i] == b[i] by {
        assert(s[n + i] == a[i]);
        assert(t[n + i] == b[i]);
    }
    assert forall|i: int| 0 <= i < p.len() implies p[i] == q[i] by {
        assert(s[n + a.len() + 3 + i] == p[i]);
        assert(t[n + b.len() + 3 + i] == q[i]);
    }
    assert(a =~= b);
    assert(p =~= q);
}

/// A picture in shades of grey, row by row.
#[derive(Debug, Clone, PartialEq, Eq)]
pub struct GreyPicture {
    pub width: u32,
    pub height: u32,
    pub pixels: Vec<u8>,
}

/// The QR code of a text, as a picture of at least `w` by `h` pixels: its width, its height
/// and its pixels; `None` where the text is too long for one.
pub uninterp spec fn qr_picture(text: Seq<char>, w: u32, h: u32) -> Option<(u32, u32, Seq<u8>)>;

/// `qrcode::QrCode::new`, and its picture by `qrcode::render::Renderer::min_dimensions` and
/// `build`. All depend on the text and the two numbers alone. The picture is at least as
/// large as it is asked for, and has one byte per pixel.
#[verifier::external_body]
fn draw_qr(text: &str, w: u32, h: u32) -> (r: Option<(u32, u32, Vec<u8>)>)
    requires
        w <= 4096,
        h <= 4096,
    ensures
        match r {
            Some(p) => {
                &&& qr_picture(text@, w, h) == Some((p.0, p.1, p.2@))
                &&& p.0 >= w
                &&& p.1 >= h
                &&& p.2@.len() == p.0 * p.1
            },
            None => qr_picture(text@, w, h) is None,
        },
{
    let code = qrcode::QrCode::new(text).ok()?;
    let img = code.render::<image::Luma<u8>>().min_dimensions(w, h).build();
    Some((img.width(), img.height(), img.into_raw()))
}

/// The QR code of `info`, as a picture of at least 300 by 300 pixels; `None` where `info`
/// is too long for one.
pub fn generate_qr_code(info: &str) -> (r: Option<GreyPicture>)
    ensures
        match r {
            Some(p) => {
                &&& qr_picture(info@, 300, 300) == Some((p.width, p.height, p.pixels@))
                &&& p.width >= 300
                &&& p.height >= 300
                &&& p.pixels@.len() == p.width * p.height
            },
            None => qr_picture(info@, 300, 300) is None,
        },
{
    match draw_qr(info, 300, 300) {
        Some((width, height, pixels)) => Some(GreyPicture { width, height, pixels }),
        None => None,
    }
}

/// The QR code of a text, drawn with block characters; `None` where the text is too long
/// for one.
pub uninterp spec fn qr_blocks(text: Seq<char>) -> Option<Seq<char>>;

/// `qrcode::QrCode::new`, and its rendering with `qrcode::render::unicode::Dense1x2`, dark
/// as dark and light as light. Both depend on the text alone.
#[verifier::external_body]
fn draw_qr_blocks(text: &str) -> (r: Option<String>)
    ensures
        match r {
            Some(s) => qr_blocks(text@) == Some(s@),
            None => qr_blocks(text@) is None,
        },
{
    let code = qrcode::QrCode::new(text).ok()?;
    let image = code.render::<qrcode::render::unicode::Dense1x2>().dark_color(
        qrcode::render::unicode::Dense1x2::Dark,
    ).light_color(qrcode::render::unicode::Dense1x2::Light).build();
    Some(image)
}

/// What is printed on a terminal for `info`; `None` where it is too long for a QR code.
pub fn print_qr_to_terminal(info: &str) -> (r: Option<String>)
    ensures
        match r {
            Some(s) => qr_blocks(info@) matches Some(b) && s@ == b + "\n"@,
            None => qr_blocks(info@) is None,
        },
{
    match draw_qr_blocks(info) {
        Some(s) => Some(s.concat("\n")),
        None => None,
    }
}

/// What was found on the network.
#[derive(Debug)]
pub enum MdnsEvent {
    /// A phone that waits to be paired.
    PairingDiscovered { host: String, port: u16 },
    /// A phone that can be connected to.
    ConnectDiscovered { host: String, port: u16, fullname: String },
    Error(String),
}

/// What a service that phones offer for pairing stands for: it counts where its name has
/// ours in it and it has an address.
pub fn pairing_service(dns_id: &str, fullname: &str, addresses: &[String], port: u16) -> (r: Option<
    MdnsEvent,
>)
    ensures
        match r {
            Some(e) => {
                &&& crate::text::find_text(fullname@, dns_id@) is Some
                &&& addresses@.len() > 0
                &&& e matches MdnsEvent::PairingDiscovered { host, port: p }
                &&& host@ == addresses@[0]@
                &&& p == port
            },
            None => addresses@.len() == 0 || crate::text::find_text(fullname@, dns_id@) is None,
        },
{
    let name = chars_of(fullname);
    let id = chars_of(dns_id);
    if addresses.len() > 0 && contains_chars(name.as_slice(), id.as_slice()) {
        Some(MdnsEvent::PairingDiscovered { host: copy_text(&addresses[0]), port })
    } else {
        None
    }
}

/// What a service that phones offer for connections stands for: it counts where it has an
/// address.
pub fn connect_service(fullname: &str, addresses: &[String], port: u16) -> (r: Option<MdnsEvent>)
    ensures
        match r {
            Some(e) => {
                &&& addresses@.len() > 0
                &&& e matches MdnsEvent::ConnectDiscovered { host, port: p, fullname: n }
                &&& host@ == addresses@[0]@
                &&& p == port
                &&& n@ == fullname@
            },
            None => addresses@.len() == 0,
        },
{
    if addresses.len() > 0 {
        Some(
            MdnsEvent::ConnectDiscovered {
                host: copy_text(&addresses[0]),
                port,
                fullname: fullname.to_owned(),
            },
        )
    } else {
        None
    }
}

/// The address that `host` and `port` make.
pub open spec fn address(host: Seq<char>, port: u16) -> Seq<char> {
    host + ":"@ + crate::text::decimal(port as nat)
}

pub fn format_address(host: &str, port: u16) -> (r: String)
    ensures
        r@ == address(host@, port),
{
    crate::text::cat3(host, ":", decimal_text(port as u64).as_str())
}

/// The arguments that make adb pair with the phone at `addr`.
pub open spec fn pair_args(addr: Seq<char>, psk: Seq<char>) -> Seq<Seq<char>> {
    seq!["pair"@, addr, psk]
}

pub fn build_pair_args(addr: &str, info: &WirelessPairing) -> (r: Vec<String>)
    ensures
        crate::text::string_views(r@) == pair_args(addr@, info.psk@),
{
    let r = vec!["pair".to_owned(), addr.to_owned(), copy_text(&info.psk)];
    assert(crate::text::string_views(r@) =~= pair_args(addr@, info.psk@));
    r
}

/// A phone is paired with at the address where it was found, with the password that it was shown.
pub proof fn law_phone_is_paired_with_its_password(host: Seq<char>, port: u16, psk: Seq<char>)
    ensures
        pair_args(address(host, port), psk) == seq![
            "pair"@,
            host + ":"@ + crate::text::decimal(port as nat),
            psk,
        ],
        address(host, port) == crate::scrcpy::endpoint(host, port),
{
}

/// What a phone is shown holds the name that it is to announce itself under and the password, in the
/// places where a phone looks for the name of a network and its password.
pub proof fn law_shown_text_holds_both(dns_id: Seq<char>, psk: Seq<char>)
    ensures
        ({
            let t = pairing_text(dns_id, psk);
            let n = 13 + dns_id.len() as int;
            &&& t.len() == 18 + dns_id.len() + psk.len()
            &&& t.take(13) == "WIFI:T:ADB;S:"@
            &&& t.subrange(13, n) == dns_id
            &&& t.subrange(n, n + 3) == ";P:"@
            &&& t.subrange(n + 3, n + 3 + psk.len()) == psk
            &&& t.skip(n + 3 + psk.len()) == ";;"@
        }),
{
    reveal_strlit("WIFI:T:ADB;S:");
    reveal_strlit(";P:");
    reveal_strlit(";;");
    let t = pairing_text(dns_id, psk);
    let n = 13 + dns_id.len() as int;
    assert(t.take(13) =~= "WIFI:T:ADB;S:"@);
    assert(t.subrange(13, n) =~= dns_id);
    assert(t.subrange(n, n + 3) =~= ";P:"@);
    assert(t.subrange(n + 3, n + 3 + psk.len()) =~= psk);
    assert(t.skip(n + 3 + psk.len()) =~= ";;"@);
}

} // verus!
