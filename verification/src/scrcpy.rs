//! Starting the server on the phone, and finding the phone's address.
use crate::settings::ScrcpyParams;
use crate::text::{
    cat2, cat3, chars_of, decimal, decimal_text, find, find_char, hex, hex_text, lines, lossy_text,
    rfind_char, rfind_end, same_chars, split_lines, split_words, string_of, text_lossy, texts,
    trim, trimmed, words,
};
use vstd::prelude::*;

verus! {

/// The upper half of every session identifier: "KL" in ASCII.
pub const SCID_PREFIX: u32 = 0x4B4C_0000;

/// The identifier of the session on control port `port`.
pub open spec fn scid(port: u16) -> u32 {
    (SCID_PREFIX + port) as u32
}

/// The identifier of the session on control port `port`.
pub fn scid_for_port(port: u16) -> (r: u32)
    ensures
        r == scid(port),
{
    let p: u32 = port as u32;
    assert(0x4B4C_0000u32 | p == 0x4B4C_0000u32 + p) by (bit_vector)
        requires
            p <= 0xFFFF,
    ;
    SCID_PREFIX | p
}

/// The session identifier as eight lower-case hexadecimal digits.
pub fn scid_hex(port: u16) -> (r: String)
    ensures
        r@ == hex(scid(port) as nat, 8),
        r@.len() == 8,
{
    proof {
        crate::text::lemma_hex_len(scid(port) as nat, 8);
    }
    hex_text(scid_for_port(port) as u64, 8)
}

/// A session identifier fits into 31 bits, carries the marker, and no two ports share one.
pub proof fn law_scid_identifies_port(p: u16, q: u16)
    ensures
        scid(p) < 0x8000_0000,
        scid(p) / 0x1_0000 == 0x4B4C,
        hex(scid(p) as nat, 8) == hex(scid(q) as nat, 8) ==> p == q,
{
    reveal_with_fuel(crate::text::pow16, 9);
    if hex(scid(p) as nat, 8) == hex(scid(q) as nat, 8) {
        crate::text::lemma_hex_injective(scid(p) as nat, scid(q) as nat, 8);
    }
}

/// The shell script that kills the server of one session.
pub open spec fn kill_script(scid_hex: Seq<char>) -> Seq<char> {
    "for f in $(grep -l 'scid="@ + scid_hex
        + "' /proc/[0-9]*/cmdline 2>/dev/null); do p=${f#/proc/}; p=${p%/cmdline}; [ \"$p\" = \"$$\" ] && continue; [ \"$p\" = \"self\" ] && continue; kill -9 \"$p\" 2>/dev/null; done; true"@
}

/// The shell script that kills the server of one session and no other. A single `grep`
/// looks through all command lines: a loop over the processes would take half a minute on
/// a wireless connection. The script spares its own shell and always succeeds.
pub fn build_scid_kill_script(scid_hex: &str) -> (r: String)
    ensures
        r@ == kill_script(scid_hex@),
{
    cat3(
        "for f in $(grep -l 'scid=",
        scid_hex,
        "' /proc/[0-9]*/cmdline 2>/dev/null); do p=${f#/proc/}; p=${p%/cmdline}; [ \"$p\" = \"$$\" ] && continue; [ \"$p\" = \"self\" ] && continue; kill -9 \"$p\" 2>/dev/null; done; true",
    )
}

/// The adb arguments that kill the server of the session on `port`.
pub open spec fn kill_args(serial: Seq<char>, port: u16) -> Seq<Seq<char>> {
    seq!["-s"@, serial, "shell"@, kill_script(hex(scid(port) as nat, 8))]
}

/// The adb arguments that kill the server of the session on `port`.
pub fn kill_by_scid(serial: &str, port: u16) -> (r: Vec<String>)
    ensures
        crate::text::string_views(r@) == kill_args(serial@, port),
{
    let id = scid_hex(port);
    let mut r: Vec<String> = Vec::new();
    r.push("-s".to_owned());
    r.push(serial.to_owned());
    r.push("shell".to_owned());
    r.push(build_scid_kill_script(id.as_str()));
    assert(crate::text::string_views(r@) =~= kill_args(serial@, port));
    r
}

/// One number of a dotted IPv4 address: one to three digits, no leading zero, at most 255.
pub open spec fn is_octet(s: Seq<char>) -> bool {
    &&& 1 <= s.len() <= 3
    &&& crate::text::all_digits(s)
    &&& s.len() > 1 ==> s[0] != '0'
    &&& crate::text::digits_value(s) <= 255
}

/// `n` numbers with dots between them.
pub open spec fn is_dotted(s: Seq<char>, n: nat) -> bool
    decreases n,
{
    if n == 0 {
        false
    } else if n == 1 {
        is_octet(s)
    } else {
        let k = find(s, '.');
        k < s.len() && is_octet(s.take(k as int)) && is_dotted(
            s.skip((k + 1) as int),
            (n - 1) as nat,
        )
    }
}

/// An IPv4 address in dotted decimal notation.
pub open spec fn is_ipv4(s: Seq<char>) -> bool {
    is_dotted(s, 4)
}

fn octet(s: &[char]) -> (r: bool)
    ensures
        r == is_octet(s@),
{
    if s.len() == 0 || s.len() > 3 {
        return false;
    }
    if s.len() > 1 && s[0] == '0' {
        return false;
    }
    if s[0] == '+' {
        assert(!crate::text::is_digit(s@[0]));
        return false;
    }
    assert(crate::text::number_digits(s@) == s@);
    match crate::text::parse_number(s, 255) {
        Some(_) => true,
        None => false,
    }
}

fn dotted(s: &[char], n: usize) -> (r: bool)
    ensures
        r == is_dotted(s@, n as nat),
    decreases n,
{
    if n == 0 {
        return false;
    }
    if n == 1 {
        return octet(s);
    }
    let k: usize = find_char(s, '.');
    if k >= s.len() {
        return false;
    }
    assert(s@.subrange(k + 1, s@.len() as int) =~= s@.skip(k + 1));
    assert(s@.subrange(0, k as int) =~= s@.take(k as int));
    octet(&s[0..k]) && dotted(&s[k + 1..s.len()], n - 1)
}

/// Whether `s` is an IPv4 address in dotted decimal notation.
pub fn ipv4(s: &[char]) -> (r: bool)
    ensures
        r == is_ipv4(s@),
{
    dotted(s, 4)
}

/// One past the last `]:` of `s`; 0 where there is none.
pub open spec fn rfind_bracket(s: Seq<char>) -> nat
    decreases s.len(),
{
    if s.len() < 2 {
        0
    } else if s[s.len() - 2] == ']' && s.last() == ':' {
        s.len()
    } else {
        rfind_bracket(s.drop_last())
    }
}

fn find_last_bracket(s: &[char]) -> (r: usize)
    ensures
        r == rfind_bracket(s@),
        r <= s@.len(),
        r > 0 ==> r >= 2,
{
    let mut i: usize = s.len();
    assert(s@.take(i as int) =~= s@);
    while i >= 2
        invariant
            i <= s@.len(),
            rfind_bracket(s@) == rfind_bracket(s@.take(i as int)),
        decreases i,
    {
        if s[i - 2] == ']' && s[i - 1] == ':' {
            return i;
        }
        assert(s@.take(i as int).drop_last() =~= s@.take(i - 1));
        i -= 1;
    }
    0
}

/// The address in a serial number of the form `address:port`: an IPv4 address, or an IPv6
/// address in brackets, which stay.
pub open spec fn address_in_serial(serial: Seq<char>) -> Option<Seq<char>> {
    let s = trimmed(serial);
    let colon = rfind_end(s, ':');
    let v4 = s.take(colon - 1);
    if find(s, '.') < s.len() && colon > 0 && is_ipv4(v4) {
        Some(v4)
    } else if s.len() > 0 && s.first() == '[' && rfind_bracket(s.skip(1)) > 0 {
        Some("["@ + s.skip(1).take(rfind_bracket(s.skip(1)) - 2) + "]"@)
    } else {
        None
    }
}

/// The address in a serial number of the form `address:port`.
pub fn serial_ip(serial: &str) -> (r: Option<String>)
    ensures
        crate::text::string_view(r) == address_in_serial(serial@),
{
    let chars = chars_of(serial);
    let s = trim(chars.as_slice());
    let dot: usize = find_char(s, '.');
    if dot < s.len() {
        let colon: usize = rfind_char(s, ':');
        if colon > 0 {
            let v4 = &s[0..colon - 1];
            assert(v4@ =~= s@.take(colon - 1));
            if ipv4(v4) {
                return Some(string_of(v4));
            }
        }
    }
    if s.len() > 0 && s[0] == '[' {
        let rest = &s[1..s.len()];
        assert(rest@ =~= s@.skip(1));
        let end: usize = find_last_bracket(rest);
        if end > 0 {
            let inner = string_of(&rest[0..end - 2]);
            assert(inner@ =~= s@.skip(1).take(end - 2));
            return Some(cat3("[", inner.as_str(), "]"));
        }
    }
    None
}

/// The word after the first `key` of a line, where a word follows it.
pub open spec fn word_after(w: Seq<Seq<char>>, key: Seq<char>) -> Option<Seq<char>>
    decreases w.len(),
{
    if w.len() < 2 {
        None
    } else if w[0] == key {
        Some(w[1])
    } else {
        word_after(w.skip(1), key)
    }
}

fn next_word(w: &Vec<Vec<char>>, key: &[char]) -> (r: Option<usize>)
    ensures
        match r {
            Some(i) => i < w@.len() && word_after(texts(w@), key@) == Some(w@[i as int]@),
            None => word_after(texts(w@), key@) is None,
        },
{
    let ghost t = texts(w@);
    let mut i: usize = 0;
    assert(t.skip(0) =~= t);
    while w.len() - i > 1
        invariant
            i <= w@.len(),
            t == texts(w@),
            word_after(t, key@) == word_after(t.skip(i as int), key@),
        decreases w@.len() - i,
    {
        proof {
            assert(t.skip(i as int)[0] == w@[i as int]@);
            assert(t.skip(i as int)[1] == w@[i + 1]@);
            assert(t.skip(i as int).skip(1) =~= t.skip(i + 1));
        }
        if same_chars(w[i].as_slice(), key) {
            return Some(i + 1);
        }
        i += 1;
    }
    None
}

/// The network interface of the default route in the output of `ip route`: the word after
/// `dev` in the first line that begins with `default` and has one.
pub open spec fn default_dev(ls: Seq<Seq<char>>) -> Option<Seq<char>>
    decreases ls.len(),
{
    if ls.len() == 0 {
        None
    } else {
        let w = words(ls[0]);
        if w.len() > 0 && w[0] == "default"@ && word_after(w, "dev"@) is Some {
            word_after(w, "dev"@)
        } else {
            default_dev(ls.skip(1))
        }
    }
}

/// The network interface of the default route in the output of `ip route`.
pub fn default_route_dev(stdout: &[u8]) -> (r: Option<String>)
    ensures
        crate::text::string_view(r) == default_dev(lines(lossy_text(stdout@))),
{
    let text = text_lossy(stdout);
    let chars = chars_of(text.as_str());
    let ls = split_lines(chars.as_slice());
    let ghost all = texts(ls@);
    let default_word = chars_of("default");
    let dev_word = chars_of("dev");
    let mut i: usize = 0;
    assert(all.skip(0) =~= all);
    while i < ls.len()
        invariant
            i <= ls@.len(),
            all == texts(ls@),
            all == lines(lossy_text(stdout@)),
            default_word@ == "default"@,
            dev_word@ == "dev"@,
            default_dev(all) == default_dev(all.skip(i as int)),
        decreases ls@.len() - i,
    {
        proof {
            assert(all.skip(i as int)[0] == ls@[i as int]@);
            assert(all.skip(i as int).skip(1) =~= all.skip(i + 1));
        }
        let w = split_words(ls[i].as_slice());
        assert(texts(w@).len() == w@.len());
        if w.len() > 0 && same_chars(w[0].as_slice(), default_word.as_slice()) {
            assert(texts(w@)[0] == w@[0]@);
            if let Some(k) = next_word(&w, dev_word.as_slice()) {
                return Some(string_of(w[k].as_slice()));
            }
        }
        proof {
            if w@.len() > 0 {
                assert(texts(w@)[0] == w@[0]@);
            }
        }
        i += 1;
    }
    None
}

/// The IPv4 address in a line of the output of `ip -f inet addr show`.
pub open spec fn inet_in_line(line: Seq<char>) -> Option<Seq<char>> {
    let w = words(line);
    if w.len() > 1 && w[0] == "inet"@ && is_ipv4(w[1].take(find(w[1], '/') as int)) {
        Some(w[1].take(find(w[1], '/') as int))
    } else {
        None
    }
}

/// The first IPv4 address in the output of `ip -f inet addr show`.
pub open spec fn inet_address(ls: Seq<Seq<char>>) -> Option<Seq<char>>
    decreases ls.len(),
{
    if ls.len() == 0 {
        None
    } else if inet_in_line(ls[0]) is Some {
        inet_in_line(ls[0])
    } else {
        inet_address(ls.skip(1))
    }
}

/// The first IPv4 address in the output of `ip -f inet addr show`.
pub fn iface_inet_ip(stdout: &[u8]) -> (r: Option<String>)
    ensures
        crate::text::string_view(r) == inet_address(lines(lossy_text(stdout@))),
{
    let text = text_lossy(stdout);
    let chars = chars_of(text.as_str());
    let ls = split_lines(chars.as_slice());
    let ghost all = texts(ls@);
    let inet_word = chars_of("inet");
    let mut i: usize = 0;
    assert(all.skip(0) =~= all);
    while i < ls.len()
        invariant
            i <= ls@.len(),
            all == texts(ls@),
            all == lines(lossy_text(stdout@)),
            inet_word@ == "inet"@,
            inet_address(all) == inet_address(all.skip(i as int)),
        decreases ls@.len() - i,
    {
        proof {
            assert(all.skip(i as int)[0] == ls@[i as int]@);
            assert(all.skip(i as int).skip(1) =~= all.skip(i + 1));
        }
        let w = split_words(ls[i].as_slice());
        assert(texts(w@).len() == w@.len());
        if w.len() > 1 && same_chars(w[0].as_slice(), inet_word.as_slice()) {
            assert(texts(w@)[0] == w@[0]@);
            assert(texts(w@)[1] == w@[1]@);
            let n: usize = find_char(w[1].as_slice(), '/');
            let ip = &w[1].as_slice()[0..n];
            assert(ip@ =~= w@[1]@.take(n as int));
            if ipv4(ip) {
                return Some(string_of(ip));
            }
        }
        proof {
            if w@.len() > 1 {
                assert(texts(w@)[0] == w@[0]@);
            }
        }
        i += 1;
    }
    None
}

/// The word after the first `src` in the output of `ip route`.
pub open spec fn route_src(ls: Seq<Seq<char>>) -> Option<Seq<char>>
    decreases ls.len(),
{
    if ls.len() == 0 {
        None
    } else if word_after(words(ls[0]), "src"@) is Some {
        word_after(words(ls[0]), "src"@)
    } else {
        route_src(ls.skip(1))
    }
}

/// The source address of the first route that names one.
pub fn route_source(stdout: &[u8]) -> (r: Option<String>)
    ensures
        crate::text::string_view(r) == route_src(lines(lossy_text(stdout@))),
{
    let text = text_lossy(stdout);
    let chars = chars_of(text.as_str());
    let ls = split_lines(chars.as_slice());
    let ghost all = texts(ls@);
    let src_word = chars_of("src");
    let mut i: usize = 0;
    assert(all.skip(0) =~= all);
    while i < ls.len()
        invariant
            i <= ls@.len(),
            all == texts(ls@),
            all == lines(lossy_text(stdout@)),
            src_word@ == "src"@,
            route_src(all) == route_src(all.skip(i as int)),
        decreases ls@.len() - i,
    {
        proof {
            assert(all.skip(i as int)[0] == ls@[i as int]@);
            assert(all.skip(i as int).skip(1) =~= all.skip(i + 1));
        }
        let w = split_words(ls[i].as_slice());
        if let Some(k) = next_word(&w, src_word.as_slice()) {
            return Some(string_of(w[k].as_slice()));
        }
        i += 1;
    }
    None
}

/// `host:port`.
pub open spec fn endpoint(host: Seq<char>, port: u16) -> Seq<char> {
    host + ":"@ + decimal(port as nat)
}

fn endpoint_text(host: &str, port: u16) -> (r: String)
    ensures
        r@ == endpoint(host@, port),
{
    let p = decimal_text(port as u64);
    cat3(host, ":", p.as_str())
}

/// What the search for the phone's address does next.
#[derive(Debug, Clone, PartialEq, Eq)]
pub enum Resolve {
    /// The address was found.
    Found(String),
    /// Run `ip route` on the phone.
    ReadRoute,
    /// Run `ip -f inet addr show` on the phone for this interface.
    ReadInterface(String),
    /// There is no address.
    Unreachable,
}

/// The search begins: a serial number of the form `address:port` has the address.
pub fn resolve_serial(serial: &str, port: u16) -> (r: Resolve)
    ensures
        match address_in_serial(serial@) {
            Some(a) => r matches Resolve::Found(s) && s@ == endpoint(a, port),
            None => r == Resolve::ReadRoute,
        },
{
    match serial_ip(serial) {
        Some(ip) => Resolve::Found(endpoint_text(ip.as_str(), port)),
        None => Resolve::ReadRoute,
    }
}

/// The search has the output of `ip route`, which is empty where the command failed. The
/// address of the interface of the default route is the most reliable one: a route's own
/// source address can be that of another network.
pub fn resolve_route(stdout: &[u8]) -> (r: Resolve)
    ensures
        match default_dev(lines(lossy_text(stdout@))) {
            Some(d) => r matches Resolve::ReadInterface(s) && s@ == d,
            None => r == Resolve::ReadRoute,
        },
{
    match default_route_dev(stdout) {
        Some(dev) => Resolve::ReadInterface(dev),
        None => Resolve::ReadRoute,
    }
}

/// The search has the output of `ip -f inet addr show`.
pub fn resolve_interface(stdout: &[u8], port: u16) -> (r: Resolve)
    ensures
        match inet_address(lines(lossy_text(stdout@))) {
            Some(a) => r matches Resolve::Found(s) && s@ == endpoint(a, port),
            None => r == Resolve::ReadRoute,
        },
{
    match iface_inet_ip(stdout) {
        Some(ip) => Resolve::Found(endpoint_text(ip.as_str(), port)),
        None => Resolve::ReadRoute,
    }
}

/// The search has the output of `ip route` once more, and falls back on the source address
/// of a route.
pub fn resolve_fallback(stdout: &[u8], port: u16) -> (r: Resolve)
    ensures
        match route_src(lines(lossy_text(stdout@))) {
            Some(a) => r matches Resolve::Found(s) && s@ == endpoint(a, port),
            None => r == Resolve::Unreachable,
        },
{
    match route_source(stdout) {
        Some(ip) => Resolve::Found(endpoint_text(ip.as_str(), port)),
        None => Resolve::Unreachable,
    }
}

/// The phone's address: the one in its serial number, else that of the interface of the
/// default route, else the source address of a route.
pub open spec fn device_address(
    serial: Seq<char>,
    route: Seq<char>,
    interface: Seq<char>,
    fallback: Seq<char>,
) -> Option<Seq<char>> {
    if address_in_serial(serial) is Some {
        address_in_serial(serial)
    } else if default_dev(lines(route)) is Some && inet_address(lines(interface)) is Some {
        inet_address(lines(interface))
    } else {
        route_src(lines(fallback))
    }
}

/// The phone's address and port, from its serial number, the output of `ip route`, that of
/// `ip -f inet addr show` for the interface of the default route, and that of `ip route`
/// once more; each is empty where the command failed or was not run.
pub fn resolve_device_ip(
    serial: &str,
    route: &[u8],
    interface: &[u8],
    fallback: &[u8],
    port: u16,
) -> (r: Option<String>)
    ensures
        crate::text::string_view(r) == match device_address(
            serial@,
            lossy_text(route@),
            lossy_text(interface@),
            lossy_text(fallback@),
        ) {
            Some(a) => Some(endpoint(a, port)),
            None => None,
        },
{
    if let Resolve::Found(a) = resolve_serial(serial, port) {
        return Some(a);
    }
    if let Resolve::ReadInterface(_) = resolve_route(route) {
        if let Resolve::Found(a) = resolve_interface(interface, port) {
            return Some(a);
        }
    }
    match resolve_fallback(fallback, port) {
        Resolve::Found(a) => Some(a),
        _ => None,
    }
}

/// The MD5 digest of `data` as 32 lower-case hexadecimal digits.
pub uninterp spec fn md5_digest(data: Seq<u8>) -> Seq<char>;

/// `md5::Md5::digest`, shown with `{:x}`: the digest depends on the data alone.
#[verifier::external_body]
fn md5_hex(data: &[u8]) -> (r: String)
    ensures
        r@ == md5_digest(data@),
{
    format!("{:x}", <md5::Md5 as md5::Digest>::digest(data))
}

/// The digest that `md5sum` reported: the first word of its output.
pub open spec fn reported_digest(stdout: Option<Seq<u8>>) -> Option<Seq<char>> {
    match stdout {
        Some(b) => {
            let w = words(trimmed(lossy_text(b)));
            if w.len() > 0 {
                Some(w[0])
            } else {
                None
            }
        },
        None => None,
    }
}

/// Whether the program on the phone differs from the local one. That it is there is not
/// enough: an older build would be started, which does not speak this protocol.
pub fn digest_differs(local: &str, stdout: Option<&[u8]>) -> (r: bool)
    ensures
        r == (reported_digest(
            match stdout {
                Some(b) => Some(b@),
                None => None,
            },
        ) != Some(local@)),
{
    let out = match stdout {
        Some(b) => b,
        None => {
            return true;
        },
    };
    let text = text_lossy(out);
    let chars = chars_of(text.as_str());
    let w = split_words(trim(chars.as_slice()));
    assert(texts(w@).len() == w@.len());
    if w.len() == 0 {
        return true;
    }
    assert(texts(w@)[0] == w@[0]@);
    let mine = chars_of(local);
    !same_chars(w[0].as_slice(), mine.as_slice())
}

/// Whether the server program has to be pushed to the phone: where the local file could
/// not be read (pushing it then reports the error), where `md5sum` failed on the phone,
/// and where the digests differ.
pub fn jar_needs_push(local: Option<&[u8]>, stdout: Option<&[u8]>) -> (r: bool)
    ensures
        r == match local {
            Some(b) => reported_digest(
                match stdout {
                    Some(o) => Some(o@),
                    None => None,
                },
            ) != Some(md5_digest(b@)),
            None => true,
        },
{
    match local {
        Some(b) => {
            let mine = md5_hex(b);
            digest_differs(mine.as_str(), stdout)
        },
        None => true,
    }
}

/// The arguments that start the server program on the phone. Audio parameters are passed
/// on only where they are set.
pub open spec fn server_args(
    port: u16,
    audio_codec: Seq<char>,
    audio_bit_rate: u32,
) -> Seq<Seq<char>> {
    let base = seq![
        "CLASSPATH=/data/local/tmp/kulua-server.jar"@,
        "app_process"@,
        "/"@,
        "com.kulua.server.Server"@,
        "scid="@ + hex(scid(port) as nat, 8),
        "port="@ + decimal(port as nat),
    ];
    let codec = if audio_codec.len() > 0 {
        seq!["audio_codec="@ + audio_codec]
    } else {
        Seq::empty()
    };
    let rate = if audio_bit_rate > 0 {
        seq!["audio_bit_rate="@ + decimal(audio_bit_rate as nat)]
    } else {
        Seq::empty()
    };
    base + codec + rate
}

/// The arguments that start the server program on the phone.
pub fn build_server_args(port: u16, params: &ScrcpyParams) -> (r: Vec<String>)
    ensures
        crate::text::string_views(r@) == server_args(port, params.audio_codec@, params.audio_bit_rate),
{
    let id = scid_hex(port);
    let number = decimal_text(port as u64);
    let mut r: Vec<String> = Vec::new();
    r.push("CLASSPATH=/data/local/tmp/kulua-server.jar".to_owned());
    r.push("app_process".to_owned());
    r.push("/".to_owned());
    r.push("com.kulua.server.Server".to_owned());
    r.push(cat2("scid=", id.as_str()));
    r.push(cat2("port=", number.as_str()));
    if !params.audio_codec.as_str().is_empty() {
        r.push(cat2("audio_codec=", params.audio_codec.as_str()));
    }
    if params.audio_bit_rate > 0 {
        let rate = decimal_text(params.audio_bit_rate as u64);
        r.push(cat2("audio_bit_rate=", rate.as_str()));
    }
    assert(crate::text::string_views(r@) =~= server_args(port, params.audio_codec@, params.audio_bit_rate));
    r
}

/// An IPv4 address as it is written.
pub open spec fn dotted_text(a: u8, b: u8, c: u8, d: u8) -> Seq<char> {
    decimal(a as nat) + seq!['.'] + decimal(b as nat) + seq!['.'] + decimal(c as nat) + seq!['.']
        + decimal(d as nat)
}

proof fn lemma_octet(x: u8)
    ensures
        is_octet(decimal(x as nat)),
        forall|i: int|
            0 <= i < decimal(x as nat).len() ==> '0' <= #[trigger] decimal(x as nat)[i] <= '9',
{
    crate::text::law_decimal_is_plain(x as nat, 0);
    crate::text::law_number_of_decimal(x as nat, 255);
}

proof fn lemma_octet_before_dot(x: u8, rest: Seq<char>, n: nat)
    requires
        n > 1,
    ensures
        is_dotted(decimal(x as nat) + seq!['.'] + rest, n) == is_dotted(rest, (n - 1) as nat),
{
    let w = decimal(x as nat);
    let s = w + seq!['.'] + rest;
    lemma_octet(x);
    crate::text::lemma_find(s, '.');
    let k = find(s, '.') as int;
    assert(s[w.len() as int] == '.');
    if k < w.len() {
        assert(s[k] == w[k]);
    }
    assert(k == w.len());
    assert(s.take(k) =~= w);
    assert(s.skip(k + 1) =~= rest);
}

/// Four numbers of one byte with dots between them are an IPv4 address.
pub proof fn law_dotted_numbers_are_an_address(a: u8, b: u8, c: u8, d: u8)
    ensures
        is_ipv4(dotted_text(a, b, c, d)),
{
    let dot = seq!['.'];
    let z = decimal(d as nat);
    let y = decimal(c as nat) + dot + z;
    let x = decimal(b as nat) + dot + y;
    assert(dotted_text(a, b, c, d) =~= decimal(a as nat) + dot + x);
    lemma_octet_before_dot(a, x, 4);
    lemma_octet_before_dot(b, y, 3);
    lemma_octet_before_dot(c, z, 2);
    lemma_octet(d);
}

proof fn lemma_dotted_chars(a: u8, b: u8, c: u8, d: u8)
    ensures
        forall|i: int|
            0 <= i < dotted_text(a, b, c, d).len() ==> '.' <= #[trigger] dotted_text(a, b, c, d)[i]
                <= '9' && dotted_text(a, b, c, d)[i] != '/',
        dotted_text(a, b, c, d).len() > 0,
{
    lemma_octet(a);
    lemma_octet(b);
    lemma_octet(c);
    lemma_octet(d);
    let t = dotted_text(a, b, c, d);
    let p = decimal(a as nat);
    let q = decimal(b as nat);
    let r = decimal(c as nat);
    let s = decimal(d as nat);
    assert forall|i: int| 0 <= i < t.len() implies '.' <= #[trigger] t[i] <= '9' && t[i]
        != '/' by {
        let j = i - p.len() - 1;
        let k = j - q.len() - 1;
        let l = k - r.len() - 1;
        if i < p.len() {
            assert(t[i] == p[i]);
        } else if 0 <= j < q.len() {
            assert(t[i] == q[j]);
        } else if 0 <= k < r.len() {
            assert(t[i] == r[k]);
        } else if 0 <= l {
            assert(t[i] == s[l]);
        }
    }
}

/// A phone that adb reaches over the network is reached at the address in its serial number,
/// whatever the phone says of its routes.
pub proof fn law_network_serial_has_the_address(
    a: u8,
    b: u8,
    c: u8,
    d: u8,
    port: u16,
    route: Seq<char>,
    interface: Seq<char>,
    fallback: Seq<char>,
)
    ensures
        address_in_serial(dotted_text(a, b, c, d) + ":"@ + decimal(port as nat)) == Some(
            dotted_text(a, b, c, d),
        ),
        device_address(
            dotted_text(a, b, c, d) + ":"@ + decimal(port as nat),
            route,
            interface,
            fallback,
        ) == Some(dotted_text(a, b, c, d)),
{
    reveal_strlit(":");
    let t = dotted_text(a, b, c, d);
    let p = decimal(port as nat);
    let s = t + ":"@ + p;
    law_dotted_numbers_are_an_address(a, b, c, d);
    lemma_dotted_chars(a, b, c, d);
    crate::text::law_decimal_is_plain(port as nat, 0);
    let none = Seq::<char>::empty();
    assert(none + s + none =~= s);
    assert(s.first() == t[0]);
    assert(s.last() == p[p.len() - 1]);
    crate::text::law_padding_is_trimmed(none, s, none);
    crate::text::lemma_rfind(s, ':');
    let e = rfind_end(s, ':') as int;
    assert(s[t.len() as int] == ':');
    assert(e > t.len());
    if e > t.len() + 1 {
        assert(s[e - 1] == p[e - 1 - t.len() - 1]);
    }
    assert(s.take(e - 1) =~= t);
    crate::text::lemma_find(s, '.');
    lemma_octet(a);
    let w = decimal(a as nat).len() as int;
    assert(t[w] == '.');
    assert(s[w] == '.');
}

/// The serial number of a phone on a cable, with no dot in it, no bracket and no white space, has
/// no address; the phone's routes are asked for one.
pub proof fn law_cable_serial_has_no_address(
    serial: Seq<char>,
    route: Seq<char>,
    interface: Seq<char>,
    fallback: Seq<char>,
)
    requires
        forall|i: int|
            0 <= i < serial.len() ==> #[trigger] serial[i] != '.' && serial[i] != '['
                && !crate::text::is_space(serial[i]),
    ensures
        address_in_serial(serial) is None,
        device_address(serial, route, interface, fallback) == if default_dev(lines(route)) is Some
            && inet_address(lines(interface)) is Some {
            inet_address(lines(interface))
        } else {
            route_src(lines(fallback))
        },
{
    let none = Seq::<char>::empty();
    assert(none + serial + none =~= serial);
    crate::text::law_padding_is_trimmed(none, serial, none);
    crate::text::lemma_find(serial, '.');
}

/// The word after a key is the one that stands behind its first occurrence.
pub proof fn law_word_after_its_key(a: Seq<Seq<char>>, key: Seq<char>, word: Seq<char>, b: Seq<Seq<char>>)
    requires
        !a.contains(key),
    ensures
        word_after(a + seq![key, word] + b, key) == Some(word),
        word_after(a, key) is None,
    decreases a.len(),
{
    let w = a + seq![key, word] + b;
    reveal_with_fuel(word_after, 2);
    if a.len() > 0 {
        let t = a.skip(1);
        assert forall|i: int| 0 <= i < t.len() implies t[i] != key by {
            assert(a.contains(a[i + 1]));
        }
        law_word_after_its_key(t, key, word, b);
        assert(a.contains(a[0]));
        assert(w[0] == a[0]);
        assert(w.skip(1) =~= t + seq![key, word] + b);
    } else {
        assert(w[0] == key && w[1] == word);
    }
}

/// The interface of the default route is the one that the first line of the default route names.
pub proof fn law_default_route_names_the_interface(
    before: Seq<Seq<char>>,
    line: Seq<char>,
    after: Seq<Seq<char>>,
    a: Seq<Seq<char>>,
    dev: Seq<char>,
    b: Seq<Seq<char>>,
)
    requires
        forall|i: int|
            0 <= i < before.len() ==> !(words(#[trigger] before[i]).len() > 0 && words(before[i])[0]
                == "default"@),
        words(line) == seq!["default"@] + a + seq!["dev"@, dev] + b,
        !a.contains("dev"@),
    ensures
        default_dev(before + seq![line] + after) == Some(dev),
        default_dev(before) is None,
    decreases before.len(),
{
    let ls = before + seq![line] + after;
    if before.len() > 0 {
        let t = before.skip(1);
        assert forall|i: int| 0 <= i < t.len() implies !(words(#[trigger] t[i]).len() > 0 && words(
            t[i],
        )[0] == "default"@) by {
            assert(t[i] == before[i + 1]);
        }
        law_default_route_names_the_interface(t, line, after, a, dev, b);
        assert(ls[0] == before[0]);
        assert(ls.skip(1) =~= t + seq![line] + after);
    } else {
        reveal_strlit("default");
        reveal_strlit("dev");
        let head = seq!["default"@] + a;
        assert("default"@.len() != "dev"@.len());
        assert forall|i: int| 0 <= i < head.len() implies head[i] != "dev"@ by {
            if i > 0 {
                assert(a.contains(a[i - 1]));
            }
        }
        law_word_after_its_key(head, "dev"@, dev, b);
        assert(ls[0] == line);
    }
}

/// The address of an interface is the first IPv4 address that its lines give, without the length
/// of its network.
pub proof fn law_interface_has_its_first_address(
    before: Seq<Seq<char>>,
    line: Seq<char>,
    after: Seq<Seq<char>>,
    a: u8,
    b: u8,
    c: u8,
    d: u8,
    net: Seq<char>,
    rest: Seq<Seq<char>>,
)
    requires
        forall|i: int|
            0 <= i < before.len() ==> !(words(#[trigger] before[i]).len() > 0 && words(before[i])[0]
                == "inet"@),
        words(line) == seq!["inet"@, dotted_text(a, b, c, d) + seq!['/'] + net] + rest,
    ensures
        inet_address(before + seq![line] + after) == Some(dotted_text(a, b, c, d)),
        inet_address(before) is None,
    decreases before.len(),
{
    let ls = before + seq![line] + after;
    if before.len() > 0 {
        let t = before.skip(1);
        assert forall|i: int| 0 <= i < t.len() implies !(words(#[trigger] t[i]).len() > 0 && words(
            t[i],
        )[0] == "inet"@) by {
            assert(t[i] == before[i + 1]);
        }
        law_interface_has_its_first_address(t, line, after, a, b, c, d, net, rest);
        assert(ls[0] == before[0]);
        assert(ls.skip(1) =~= t + seq![line] + after);
    } else {
        let ip = dotted_text(a, b, c, d);
        let w = ip + seq!['/'] + net;
        law_dotted_numbers_are_an_address(a, b, c, d);
        lemma_dotted_chars(a, b, c, d);
        lemma_no_slash(ip, net);
        assert(words(line)[1] == w);
        assert(words(line)[0] == "inet"@);
        assert(w.take(ip.len() as int) =~= ip);
        assert(ls[0] == line);
    }
}

proof fn lemma_no_slash(ip: Seq<char>, net: Seq<char>)
    requires
        forall|i: int| 0 <= i < ip.len() ==> #[trigger] ip[i] != '/',
    ensures
        find(ip + seq!['/'] + net, '/') == ip.len(),
{
    let w = ip + seq!['/'] + net;
    crate::text::lemma_find(w, '/');
    let k = find(w, '/') as int;
    assert(w[ip.len() as int] == '/');
    if k < ip.len() {
        assert(w[k] == ip[k]);
    }
}

/// Where no address is found otherwise, the source of the first route that names one is taken.
pub proof fn law_first_source_is_taken(
    before: Seq<Seq<char>>,
    line: Seq<char>,
    after: Seq<Seq<char>>,
    a: Seq<Seq<char>>,
    src: Seq<char>,
    b: Seq<Seq<char>>,
)
    requires
        forall|i: int| 0 <= i < before.len() ==> !words(#[trigger] before[i]).contains("src"@),
        words(line) == a + seq!["src"@, src] + b,
        !a.contains("src"@),
    ensures
        route_src(before + seq![line] + after) == Some(src),
        route_src(before) is None,
    decreases before.len(),
{
    let ls = before + seq![line] + after;
    if before.len() > 0 {
        let t = before.skip(1);
        assert forall|i: int| 0 <= i < t.len() implies !words(#[trigger] t[i]).contains("src"@) by {
            assert(t[i] == before[i + 1]);
        }
        law_first_source_is_taken(t, line, after, a, src, b);
        law_word_after_its_key(words(before[0]), "src"@, src, b);
        assert(ls[0] == before[0]);
        assert(ls.skip(1) =~= t + seq![line] + after);
    } else {
        law_word_after_its_key(a, "src"@, src, b);
        assert(ls[0] == line);
    }
}

/// What is killed before a server is started is what carries the identifier that the server of
/// that port is started with: its argument stands in the script that looks for it.
pub proof fn law_server_is_killed_by_its_identifier(
    serial: Seq<char>,
    port: u16,
    codec: Seq<char>,
    rate: u32,
)
    ensures
        ({
            let args = server_args(port, codec, rate);
            let kill = kill_args(serial, port);
            &&& kill.len() == 4 && kill[1] == serial
            &&& args.len() >= 6
            &&& args[4] == "scid="@ + hex(scid(port) as nat, 8)
            &&& crate::text::find_text(kill[3], args[4]) is Some
        }),
{
    reveal_strlit("for f in $(grep -l 'scid=");
    reveal_strlit("scid=");
    let args = server_args(port, codec, rate);
    let id = hex(scid(port) as nat, 8);
    let script = kill_args(serial, port)[3];
    crate::text::lemma_hex_len(scid(port) as nat, 8);
    assert("for f in $(grep -l 'scid="@.len() == 25);
    assert(args[4] == "scid="@ + id);
    assert(script.subrange(20, 33) =~= args[4]);
    crate::text::law_text_is_found_where_it_first_occurs(script, args[4], 20);
}

/// The server is told its port, and how to encode audio where that was chosen.
pub proof fn law_server_is_told_its_parameters(port: u16, codec: Seq<char>, rate: u32)
    ensures
        ({
            let args = server_args(port, codec, rate);
            &&& args.contains("port="@ + decimal(port as nat))
            &&& codec.len() > 0 ==> args.contains("audio_codec="@ + codec)
            &&& rate > 0 ==> args.contains("audio_bit_rate="@ + decimal(rate as nat))
            &&& codec.len() == 0 && rate == 0 ==> args.len() == 6
            &&& args.len() <= 8
        }),
{
    let args = server_args(port, codec, rate);
    assert(args[5] == "port="@ + decimal(port as nat));
    if codec.len() > 0 {
        assert(args[6] == "audio_codec="@ + codec);
    }
    if rate > 0 {
        assert(args[args.len() - 1] == "audio_bit_rate="@ + decimal(rate as nat));
    }
}

/// A phone reports the digest of the program in the first word that it prints.
pub proof fn law_digest_is_the_first_word(b: Seq<u8>, digest: Seq<char>, rest: Seq<char>)
    requires
        digest.len() > 0,
        forall|i: int| 0 <= i < digest.len() ==> !crate::text::is_space(#[trigger] digest[i]),
        rest.len() > 0 ==> !crate::text::is_space(rest.last()),
        lossy_text(b) == if rest.len() > 0 {
            digest + seq![' '] + rest + seq!['\n']
        } else {
            digest + seq!['\n']
        },
    ensures
        reported_digest(Some(b)) == Some(digest),
{
    let none = Seq::<char>::empty();
    let s = if rest.len() > 0 {
        digest + seq![' '] + rest
    } else {
        digest
    };
    assert(s.first() == digest[0]);
    assert(s.last() == if rest.len() > 0 {
        rest.last()
    } else {
        digest[digest.len() - 1]
    });
    assert(none + s + seq!['\n'] =~= lossy_text(b));
    crate::text::law_padding_is_trimmed(none, s, seq!['\n']);
    crate::text::law_first_word_is_read(digest, ' ', rest);
    assert(digest.push(' ') + rest =~= digest + seq![' '] + rest);
}

/// Where a phone is connected to is where its address is found again: host, colon and port.
pub proof fn law_endpoint_has_the_address(a: u8, b: u8, c: u8, d: u8, port: u16, other: u16)
    ensures
        address_in_serial(endpoint(dotted_text(a, b, c, d), port)) == Some(dotted_text(a, b, c, d)),
        endpoint(dotted_text(a, b, c, d), port) == endpoint(dotted_text(a, b, c, d), other) ==> port
            == other,
{
    law_network_serial_has_the_address(
        a,
        b,
        c,
        d,
        port,
        Seq::empty(),
        Seq::empty(),
        Seq::empty(),
    );
    let t = dotted_text(a, b, c, d);
    let x = endpoint(t, port);
    let y = endpoint(t, other);
    let n = t.len() as int + ":"@.len();
    assert(x.skip(n) =~= decimal(port as nat));
    assert(y.skip(n) =~= decimal(other as nat));
    crate::text::law_decimal_is_plain(port as nat, other as nat);
}

} // verus!
