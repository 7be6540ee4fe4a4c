//! Devices, the addresses they are known by, and errors.
use crate::text::{chars_of, contains_chars, copy_option, copy_text, holds, same};
use vstd::prelude::*;
use vstd::string::StringExecFns;

verus! {

/// What a device calls itself: its serial number.
pub type DeviceId = String;

/// The form of a device's address.
#[derive(Debug, Clone, Copy, PartialEq, Eq, Structural)]
pub enum DeviceAddrKind {
    /// A serial number; the device hangs on a cable.
    Usb,
    /// A service name.
    Mdns,
    /// Host and port.
    Ip,
}

/// A service name has `.local:` or `._tcp` in it; another address that has a colon is a
/// host and a port; what is left is a serial number.
pub open spec fn addr_kind(addr: Seq<char>) -> DeviceAddrKind {
    if crate::text::find_text(addr, ".local:"@) is Some || crate::text::find_text(
        addr,
        "._tcp"@,
    ) is Some {
        DeviceAddrKind::Mdns
    } else if crate::text::find(addr, ':') < addr.len() {
        DeviceAddrKind::Ip
    } else {
        DeviceAddrKind::Usb
    }
}

/// `needle` occurs in `s`.
pub(crate) fn contains_str(s: &str, needle: &str) -> (r: bool)
    ensures
        r == (crate::text::find_text(s@, needle@) is Some),
{
    let a = chars_of(s);
    let b = chars_of(needle);
    contains_chars(a.as_slice(), b.as_slice())
}

impl DeviceAddrKind {
    /// A cable comes before a service name, a service name before host and port.
    pub open spec fn rank(self) -> u8 {
        match self {
            DeviceAddrKind::Usb => 3,
            DeviceAddrKind::Mdns => 2,
            DeviceAddrKind::Ip => 1,
        }
    }

    /// The form of the address `addr`.
    pub fn classify(addr: &str) -> (r: Self)
        ensures
            r == addr_kind(addr@),
    {
        if contains_str(addr, ".local:") || contains_str(addr, "._tcp") {
            DeviceAddrKind::Mdns
        } else {
            let a = chars_of(addr);
            let at: usize = crate::text::find_char(a.as_slice(), ':');
            if at < a.len() {
                DeviceAddrKind::Ip
            } else {
                DeviceAddrKind::Usb
            }
        }
    }

    /// The higher, the better.
    pub fn priority(self) -> (r: u8)
        ensures
            r == self.rank(),
    {
        match self {
            DeviceAddrKind::Usb => 3,
            DeviceAddrKind::Mdns => 2,
            DeviceAddrKind::Ip => 1,
        }
    }
}

/// The addresses that a device is known by, one of each form.
#[derive(Debug, Clone, PartialEq)]
pub struct DeviceIdentity {
    pub usb: Option<String>,
    pub mdns: Option<String>,
    pub ip: Option<String>,
}

/// The addresses that a device is known by.
#[verifier::ext_equal]
pub struct Identity {
    pub usb: Option<Seq<char>>,
    pub mdns: Option<Seq<char>>,
    pub ip: Option<Seq<char>>,
}

impl View for DeviceIdentity {
    type V = Identity;

    open spec fn view(&self) -> Identity {
        Identity {
            usb: crate::text::string_view(self.usb),
            mdns: crate::text::string_view(self.mdns),
            ip: crate::text::string_view(self.ip),
        }
    }
}

/// `a`, or `b` where there is no `a`.
pub open spec fn prefer(a: Option<Seq<char>>, b: Option<Seq<char>>) -> Option<Seq<char>> {
    if a is Some {
        a
    } else {
        b
    }
}

impl Identity {
    pub open spec fn empty() -> Identity {
        Identity { usb: None, mdns: None, ip: None }
    }

    /// The address of the form that comes first.
    pub open spec fn best(self) -> Option<Seq<char>> {
        prefer(self.usb, prefer(self.mdns, self.ip))
    }

    /// What `other` knows replaces what was known before.
    pub open spec fn merged(self, other: Identity) -> Identity {
        Identity {
            usb: prefer(other.usb, self.usb),
            mdns: prefer(other.mdns, self.mdns),
            ip: prefer(other.ip, self.ip),
        }
    }

    /// `addr` as the address of form `kind`.
    pub open spec fn with(self, addr: Seq<char>, kind: DeviceAddrKind) -> Identity {
        match kind {
            DeviceAddrKind::Usb => Identity { usb: Some(addr), ..self },
            DeviceAddrKind::Mdns => Identity { mdns: Some(addr), ..self },
            DeviceAddrKind::Ip => Identity { ip: Some(addr), ..self },
        }
    }

    /// The address of form `kind`.
    pub open spec fn of_kind(self, kind: DeviceAddrKind) -> Option<Seq<char>> {
        match kind {
            DeviceAddrKind::Usb => self.usb,
            DeviceAddrKind::Mdns => self.mdns,
            DeviceAddrKind::Ip => self.ip,
        }
    }

    pub open spec fn knows(self, addr: Seq<char>) -> bool {
        self.usb == Some(addr) || self.mdns == Some(addr) || self.ip == Some(addr)
    }

    /// What is known of a device of which only `addr` is known.
    pub open spec fn only(addr: Seq<char>) -> Identity {
        Identity::empty().with(addr, addr_kind(addr))
    }
}

impl Default for DeviceIdentity {
    fn default() -> (r: Self)
        ensures
            r@ == Identity::empty(),
    {
        DeviceIdentity { usb: None, mdns: None, ip: None }
    }
}

impl DeviceIdentity {
    /// The address of the form that comes first: USB, then mDNS, then IP.
    pub fn best_serial(&self) -> (r: Option<&str>)
        ensures
            match r {
                Some(s) => self@.best() == Some(s@),
                None => self@.best() is None,
            },
    {
        match &self.usb {
            Some(s) => Some(s.as_str()),
            None => match &self.mdns {
                Some(s) => Some(s.as_str()),
                None => match &self.ip {
                    Some(s) => Some(s.as_str()),
                    None => None,
                },
            },
        }
    }

    /// Takes over every address that `other` knows.
    pub fn merge(&mut self, other: &DeviceIdentity)
        ensures
            final(self)@ == old(self)@.merged(other@),
    {
        if other.usb.is_some() {
            self.usb = copy_option(&other.usb);
        }
        if other.mdns.is_some() {
            self.mdns = copy_option(&other.mdns);
        }
        if other.ip.is_some() {
            self.ip = copy_option(&other.ip);
        }
    }

    /// Sets the address of form `kind`.
    pub fn set_by_kind(&mut self, addr: String, kind: DeviceAddrKind)
        ensures
            final(self)@ == old(self)@.with(addr@, kind),
    {
        match kind {
            DeviceAddrKind::Usb => self.usb = Some(addr),
            DeviceAddrKind::Mdns => self.mdns = Some(addr),
            DeviceAddrKind::Ip => self.ip = Some(addr),
        }
    }

    /// Whether the device is known by `addr`, of whatever form.
    pub fn contains_addr(&self, addr: &str) -> (r: bool)
        ensures
            r == self@.knows(addr@),
    {
        holds(&self.usb, addr) || holds(&self.mdns, addr) || holds(&self.ip, addr)
    }

    /// What is known of a device of which only `addr` is known.
    pub fn from_addr(addr: &str) -> (r: Self)
        ensures
            r@ == Identity::only(addr@),
    {
        let kind = DeviceAddrKind::classify(addr);
        let mut r = DeviceIdentity::default();
        r.set_by_kind(addr.to_owned(), kind);
        r
    }

    pub fn duplicate(&self) -> (r: Self)
        ensures
            r@ == self@,
    {
        DeviceIdentity {
            usb: copy_option(&self.usb),
            mdns: copy_option(&self.mdns),
            ip: copy_option(&self.ip),
        }
    }
}

/// A device is known by every address that was set.
pub proof fn law_set_address_is_known(i: Identity, addr: Seq<char>, kind: DeviceAddrKind)
    ensures
        i.with(addr, kind).knows(addr),
        i.with(addr, kind).of_kind(kind) == Some(addr),
        forall|k: DeviceAddrKind| k != kind ==> i.with(addr, kind).of_kind(k) == i.of_kind(k),
{
}

/// Merging loses no form of address: a form that either side had is still there, and where
/// both had one, it is that of the side that was merged in.
pub proof fn law_merge_keeps_addresses(a: Identity, b: Identity, kind: DeviceAddrKind)
    ensures
        b.of_kind(kind) is Some ==> a.merged(b).of_kind(kind) == b.of_kind(kind),
        b.of_kind(kind) is None ==> a.merged(b).of_kind(kind) == a.of_kind(kind),
{
}

/// Merging the same twice is merging it once, and merging in order is merging the merged.
pub proof fn law_merge(a: Identity, b: Identity, c: Identity)
    ensures
        a.merged(b).merged(b) == a.merged(b),
        a.merged(b).merged(c) == a.merged(b.merged(c)),
        a.merged(Identity::empty()) == a,
        Identity::empty().merged(a) == a,
{
}

/// The best address is one that the device is known by, and no form that comes before its
/// own has one.
pub proof fn law_best_address(i: Identity, kind: DeviceAddrKind)
    ensures
        i.best() matches Some(addr) ==> i.knows(addr),
        i.best() is None ==> i.of_kind(kind) is None,
        i.of_kind(kind) is Some && (forall|k: DeviceAddrKind|
            #![trigger i.of_kind(k)]
            k.rank() > kind.rank() ==> i.of_kind(k) is None) ==> i.best() == i.of_kind(kind),
{
    if i.of_kind(kind) is Some && (forall|k: DeviceAddrKind|
        #![trigger i.of_kind(k)]
        k.rank() > kind.rank() ==> i.of_kind(k) is None) {
        assert(kind != DeviceAddrKind::Usb ==> i.of_kind(DeviceAddrKind::Usb) is None);
        assert(kind == DeviceAddrKind::Ip ==> i.of_kind(DeviceAddrKind::Mdns) is None);
    }
    if i.best() is None {
        assert(i.usb is None && i.mdns is None && i.ip is None);
    }
}

/// How a device stands with adb.
#[derive(Debug, Clone, PartialEq, Eq)]
pub enum DeviceState {
    /// Connected.
    Device,
    Offline,
    /// The debugging dialogue has not been confirmed.
    Unauthorized,
    Unknown(String),
}

/// How a device stands with adb.
pub enum State {
    Device,
    Offline,
    Unauthorized,
    Unknown(Seq<char>),
}

impl View for DeviceState {
    type V = State;

    open spec fn view(&self) -> State {
        match *self {
            DeviceState::Device => State::Device,
            DeviceState::Offline => State::Offline,
            DeviceState::Unauthorized => State::Unauthorized,
            DeviceState::Unknown(s) => State::Unknown(s@),
        }
    }
}

impl DeviceState {
    pub fn is_device(&self) -> (r: bool)
        ensures
            r == (self@ == State::Device),
    {
        match self {
            DeviceState::Device => true,
            _ => false,
        }
    }

    pub fn duplicate(&self) -> (r: Self)
        ensures
            r@ == self@,
    {
        match self {
            DeviceState::Device => DeviceState::Device,
            DeviceState::Offline => DeviceState::Offline,
            DeviceState::Unauthorized => DeviceState::Unauthorized,
            DeviceState::Unknown(s) => DeviceState::Unknown(copy_text(s)),
        }
    }

    /// The two states are the same.
    pub fn same_as(&self, other: &Self) -> (r: bool)
        ensures
            r == (self@ == other@),
    {
        match (self, other) {
            (DeviceState::Device, DeviceState::Device) => true,
            (DeviceState::Offline, DeviceState::Offline) => true,
            (DeviceState::Unauthorized, DeviceState::Unauthorized) => true,
            (DeviceState::Unknown(a), DeviceState::Unknown(b)) => same(a.as_str(), b.as_str()),
            _ => false,
        }
    }
}

/// A text between quotation marks, with what cannot be shown written as an escape.
pub uninterp spec fn quoted_text(s: Seq<char>) -> Seq<char>;

/// `std::fmt::Debug` of `str`: the text between quotation marks, with its escapes. It
/// depends on the text alone.
#[verifier::external_body]
fn quote_text(s: &str) -> (r: String)
    ensures
        r@ == quoted_text(s@),
{
    format!("{:?}", s)
}

impl State {
    /// How the state is told.
    pub open spec fn told(self) -> Seq<char> {
        match self {
            State::Device => "Device"@,
            State::Offline => "Offline"@,
            State::Unauthorized => "Unauthorized"@,
            State::Unknown(s) => "Unknown("@ + quoted_text(s) + ")"@,
        }
    }
}

impl DeviceState {
    /// How the state is told.
    pub fn text(&self) -> (r: String)
        ensures
            r@ == self@.told(),
    {
        match self {
            DeviceState::Device => "Device".to_owned(),
            DeviceState::Offline => "Offline".to_owned(),
            DeviceState::Unauthorized => "Unauthorized".to_owned(),
            DeviceState::Unknown(s) => crate::text::cat3(
                "Unknown(",
                quote_text(s.as_str()).as_str(),
                ")",
            ),
        }
    }
}

/// A device.
#[derive(Debug, Clone, PartialEq)]
pub struct Device {
    /// Given to it once, as a 128-bit number.
    pub uuid: u128,
    pub id: DeviceId,
    /// The address that adb is to use.
    pub serial: String,
    pub state: DeviceState,
    /// What the phone calls itself; empty as long as that is not known.
    pub name: String,
    pub identity: DeviceIdentity,
}

/// A device, as the contracts speak of it.
#[verifier::ext_equal]
pub struct DeviceView {
    pub uuid: u128,
    pub id: Seq<char>,
    pub serial: Seq<char>,
    pub state: State,
    pub name: Seq<char>,
    pub identity: Identity,
}

impl View for Device {
    type V = DeviceView;

    open spec fn view(&self) -> DeviceView {
        DeviceView {
            uuid: self.uuid,
            id: self.id@,
            serial: self.serial@,
            state: self.state@,
            name: self.name@,
            identity: self.identity@,
        }
    }
}

impl Device {
    pub fn duplicate(&self) -> (r: Self)
        ensures
            r@ == self@,
    {
        Device {
            uuid: self.uuid,
            id: copy_text(&self.id),
            serial: copy_text(&self.serial),
            state: self.state.duplicate(),
            name: copy_text(&self.name),
            identity: self.identity.duplicate(),
        }
    }
}

/// The views of a list of devices.
pub open spec fn device_views(v: Seq<Device>) -> Seq<DeviceView> {
    v.map_values(|d: Device| d@)
}

/// A random UUID of version 4: its version is 4, and its variant that of RFC 9562.
pub open spec fn is_random_uuid(u: u128) -> bool {
    (u / 0x1000_0000_0000_0000_0000) % 16 == 4 && (u / 0x4000_0000_0000_0000) % 4 == 2
}

/// `uuid::Uuid::new_v4`, as a number: random but for the bits that hold version and
/// variant. Nothing else is said of the number; that two of them differ is likely, not
/// certain.
#[verifier::external_body]
pub(crate) fn new_uuid() -> (r: u128)
    ensures
        is_random_uuid(r),
{
    uuid::Uuid::new_v4().as_u128()
}

/// How a UUID is written: its 32 hexadecimal digits in groups of 8, 4, 4, 4 and 12.
pub open spec fn uuid_text(u: u128) -> Seq<char> {
    crate::text::hex((u / 0x1_0000_0000_0000_0000_0000_0000) as nat, 8) + "-"@ + crate::text::hex(
        (u / 0x1_0000_0000_0000_0000_0000) as nat,
        4,
    ) + "-"@ + crate::text::hex((u / 0x1_0000_0000_0000_0000) as nat, 4) + "-"@ + crate::text::hex(
        (u / 0x1_0000_0000_0000) as nat,
        4,
    ) + "-"@ + crate::text::hex(u as nat, 12)
}

/// `uuid::Uuid::to_string`: the UUID with its hyphens, in lower case.
#[verifier::external_body]
pub(crate) fn write_uuid(u: u128) -> (r: String)
    ensures
        r@ == uuid_text(u),
{
    uuid::Uuid::from_u128(u).to_string()
}

/// The UUID that a text stands for.
pub uninterp spec fn uuid_in(s: Seq<char>) -> Option<u128>;

/// `uuid::Uuid::parse_str`: the UUID that a text stands for. It depends on the text alone.
/// What was written with hyphens is read back; other ways of writing are read too.
#[verifier::external_body]
pub(crate) fn read_uuid(s: &str) -> (r: Option<u128>)
    ensures
        r == uuid_in(s@),
        forall|u: u128| s@ == #[trigger] uuid_text(u) ==> r == Some(u),
{
    uuid::Uuid::parse_str(s).ok().map(|u| u.as_u128())
}

/// `std::io::Error`, which is carried along and never looked into.
#[verifier::external_type_specification]
#[verifier::external_body]
pub struct ExIoError(std::io::Error);

/// `std::str::Utf8Error`, which is carried along and never looked into.
#[verifier::external_type_specification]
#[verifier::external_body]
pub struct ExUtf8Error(std::str::Utf8Error);

/// What went wrong with adb.
#[derive(Debug)]
pub enum AdbError {
    /// There is no adb to run.
    AdbNotFound { tried: String },
    CommandFailed(String),
    Io(std::io::Error),
    /// What adb printed is no text.
    Utf8(std::str::Utf8Error),
    Other(String),
}

/// `std::io::Error::to_string`. The text is the error's own; nothing is said of it.
#[verifier::external_body]
pub(crate) fn io_error_text(e: &std::io::Error) -> (r: String) {
    e.to_string()
}

/// `std::str::Utf8Error::to_string`. The text is the error's own; nothing is said of it.
#[verifier::external_body]
fn utf8_error_text(e: &std::str::Utf8Error) -> (r: String) {
    e.to_string()
}

/// How an input or output error with the text `cause` is told.
pub fn io_message(cause: &str) -> (r: String)
    ensures
        r@ == "I/O error: "@ + cause@,
{
    "I/O error: ".to_owned().concat(cause)
}

/// How an encoding error with the text `cause` is told.
pub fn utf8_message(cause: &str) -> (r: String)
    ensures
        r@ == "UTF-8 error: "@ + cause@,
{
    "UTF-8 error: ".to_owned().concat(cause)
}

impl AdbError {
    /// `r` is how the error is told. Of an error that carries another, only what stands
    /// before the text of that other is fixed.
    pub open spec fn told_as(self, r: Seq<char>) -> bool {
        match self {
            AdbError::AdbNotFound { tried } => r == "adb not found (tried: "@ + tried@ + ")"@,
            AdbError::CommandFailed(m) => r == "adb command failed: "@ + m@,
            AdbError::Io(_) => exists|cause: Seq<char>| r == #[trigger] ("I/O error: "@ + cause),
            AdbError::Utf8(_) => exists|cause: Seq<char>|
                r == #[trigger] ("UTF-8 error: "@ + cause),
            AdbError::Other(m) => r == m@,
        }
    }

    /// How the error is told.
    pub fn to_string(&self) -> (r: String)
        ensures
            self.told_as(r@),
    {
        match self {
            AdbError::AdbNotFound { tried } => "adb not found (tried: ".to_owned().concat(
                tried.as_str(),
            ).concat(")"),
            AdbError::CommandFailed(m) => "adb command failed: ".to_owned().concat(m.as_str()),
            AdbError::Io(e) => {
                let cause = io_error_text(e);
                io_message(cause.as_str())
            },
            AdbError::Utf8(e) => {
                let cause = utf8_error_text(e);
                utf8_message(cause.as_str())
            },
            AdbError::Other(m) => copy_text(m),
        }
    }

    /// What the error that this one carries says, where it carries one.
    pub fn source(&self) -> (r: Option<String>)
        ensures
            r is Some <==> self is Io || self is Utf8,
    {
        match self {
            AdbError::Io(e) => Some(io_error_text(e)),
            AdbError::Utf8(e) => Some(utf8_error_text(e)),
            _ => None,
        }
    }
}

impl PartialEq for AdbError {
    fn eq(&self, other: &Self) -> (r: bool) {
        match (self, other) {
            (AdbError::AdbNotFound { tried: a }, AdbError::AdbNotFound { tried: b }) => same(
                a.as_str(),
                b.as_str(),
            ),
            (AdbError::CommandFailed(a), AdbError::CommandFailed(b)) => same(
                a.as_str(),
                b.as_str(),
            ),
            (AdbError::Io(_), AdbError::Io(_)) => true,
            (AdbError::Utf8(_), AdbError::Utf8(_)) => true,
            (AdbError::Other(a), AdbError::Other(b)) => same(a.as_str(), b.as_str()),
            _ => false,
        }
    }
}

/// Errors are equal where they are of one kind and their texts are equal. Two that carry
/// an error of the system are equal whatever that error is.
impl vstd::std_specs::cmp::PartialEqSpecImpl for AdbError {
    open spec fn obeys_eq_spec() -> bool {
        true
    }

    open spec fn eq_spec(&self, other: &Self) -> bool {
        match (*self, *other) {
            (AdbError::AdbNotFound { tried: a }, AdbError::AdbNotFound { tried: b }) => a@ == b@,
            (AdbError::CommandFailed(a), AdbError::CommandFailed(b)) => a@ == b@,
            (AdbError::Io(_), AdbError::Io(_)) => true,
            (AdbError::Utf8(_), AdbError::Utf8(_)) => true,
            (AdbError::Other(a), AdbError::Other(b)) => a@ == b@,
            _ => false,
        }
    }
}

/// An address with `.local:` or `._tcp` in it is a service name; of the others one with a colon in
/// it is a host and a port, and one without is that of a cable.
pub proof fn law_address_shows_its_form(addr: Seq<char>)
    ensures
        addr_kind(addr) == DeviceAddrKind::Mdns <==> (exists|at: int|
            0 <= at && #[trigger] goes_on(addr, at, ".local:"@)) || (exists|at: int|
            0 <= at && #[trigger] goes_on(addr, at, "._tcp"@)),
        addr_kind(addr) == DeviceAddrKind::Usb ==> !addr.contains(':'),
        addr_kind(addr) == DeviceAddrKind::Ip ==> addr.contains(':'),
{
    let p = ".local:"@;
    let q = "._tcp"@;
    reveal_strlit(".local:");
    reveal_strlit("._tcp");
    crate::text::lemma_find(addr, ':');
    if addr_kind(addr) == DeviceAddrKind::Mdns {
        let (w, i) = if crate::text::find_text(addr, p) is Some {
            (p, crate::text::find_text(addr, p)->0)
        } else {
            (q, crate::text::find_text(addr, q)->0)
        };
        crate::text::lemma_find_text(addr, w);
        assert(addr.skip(i as int).take(w.len() as int) =~= addr.subrange(
            i as int,
            i as int + w.len(),
        ));
        assert(goes_on(addr, i as int, w));
    }
    assert forall|at: int| 0 <= at && #[trigger] goes_on(addr, at, p) implies addr_kind(addr)
        == DeviceAddrKind::Mdns by {
        crate::text::law_text_is_found_where_it_first_occurs(addr, p, at);
    }
    assert forall|at: int| 0 <= at && #[trigger] goes_on(addr, at, q) implies addr_kind(addr)
        == DeviceAddrKind::Mdns by {
        crate::text::law_text_is_found_where_it_first_occurs(addr, q, at);
    }
    if addr_kind(addr) == DeviceAddrKind::Ip {
        assert(addr[crate::text::find(addr, ':') as int] == ':');
    }
}

/// `s` goes on with `p` at place `at`.
pub open spec fn goes_on(s: Seq<char>, at: int, p: Seq<char>) -> bool {
    at + p.len() <= s.len() && s.subrange(at, at + p.len()) == p
}

/// A device of which one address is known has that address in the place of its form, and no other;
/// with more addresses, the one of a cable is taken first, then the service name, then host and
/// port. Of two addresses of one form the later one is kept.
pub proof fn law_address_has_its_place(addr: Seq<char>, known: Identity, new: Identity)
    ensures
        addr_kind(addr) == DeviceAddrKind::Usb ==> Identity::only(addr) == (Identity {
            usb: Some(addr),
            mdns: None,
            ip: None,
        }),
        addr_kind(addr) == DeviceAddrKind::Mdns ==> Identity::only(addr) == (Identity {
            usb: None,
            mdns: Some(addr),
            ip: None,
        }),
        addr_kind(addr) == DeviceAddrKind::Ip ==> Identity::only(addr) == (Identity {
            usb: None,
            mdns: None,
            ip: Some(addr),
        }),
        known.usb is Some ==> known.best() == known.usb,
        known.usb is None && known.mdns is Some ==> known.best() == known.mdns,
        known.usb is None && known.mdns is None ==> known.best() == known.ip,
        known.merged(new).usb == if new.usb is Some {
            new.usb
        } else {
            known.usb
        },
        known.merged(new).mdns == if new.mdns is Some {
            new.mdns
        } else {
            known.mdns
        },
        known.merged(new).ip == if new.ip is Some {
            new.ip
        } else {
            known.ip
        },
{
}

} // verus!
