//! Notifications of a phone, which are shown on the desktop.
use crate::protocol::notification::{parse_notification_detail, parse_notification_list};
use crate::text::{copy_option, copy_text, text_lossy};
use crate::text_set::TextSet;
use vstd::prelude::*;
use vstd::string::StringExecFns;

verus! {

/// How long a poller waits between two looks at a phone: 2 seconds, in nanoseconds.
pub const POLL_INTERVAL: u64 = 2_000_000_000;

/// A notification of a phone.
#[derive(Debug, Clone)]
pub struct NotifInfo {
    /// What the phone knows it by.
    pub key: String,
    /// The application that sent it.
    pub package: String,
    pub title: Option<String>,
    pub body: Option<String>,
}

/// A notification, as the contracts speak of it.
#[verifier::ext_equal]
pub struct Notif {
    pub key: Seq<char>,
    pub package: Seq<char>,
    pub title: Option<Seq<char>>,
    pub body: Option<Seq<char>>,
}

impl View for NotifInfo {
    type V = Notif;

    open spec fn view(&self) -> Notif {
        Notif {
            key: self.key@,
            package: self.package@,
            title: crate::text::string_view(self.title),
            body: crate::text::string_view(self.body),
        }
    }
}

/// What is shown on the desktop, and under whose name.
pub struct DesktopNote {
    pub summary: String,
    pub body: String,
    pub appname: String,
}

/// What is shown of a notification: its title, or the application where it has none, and
/// its body.
pub fn show_desktop_notification(info: &NotifInfo) -> (r: DesktopNote)
    ensures
        r.summary@ == match info@.title {
            Some(t) => t,
            None => info@.package,
        },
        r.body@ == match info@.body {
            Some(b) => b,
            None => Seq::empty(),
        },
        r.appname@ == "PhoneSync"@,
{
    let summary = match &info.title {
        Some(t) => copy_text(t),
        None => copy_text(&info.package),
    };
    let body = match &info.body {
        Some(b) => copy_text(b),
        None => String::new(),
    };
    assert(info.body is None ==> body@ =~= Seq::empty());
    DesktopNote { summary, body, appname: "PhoneSync".to_owned() }
}

/// `s` with every single quote written so that it can stand between single quotes in a
/// shell command.
pub open spec fn shell_quoted(s: Seq<char>) -> Seq<char>
    decreases s.len(),
{
    if s.len() == 0 {
        Seq::empty()
    } else {
        shell_quoted(s.drop_last()) + if s.last() == '\'' {
            "'\\''"@
        } else {
            seq![s.last()]
        }
    }
}

fn quote(s: &str) -> (r: String)
    ensures
        r@ == shell_quoted(s@),
{
    let v = crate::text::chars_of(s);
    let mut r = String::new();
    let mut i: usize = 0;
    assert(v@.take(0) =~= Seq::empty());
    assert(r@ =~= Seq::empty());
    while i < v.len()
        invariant
            i <= v@.len(),
            v@ == s@,
            r@ == shell_quoted(v@.take(i as int)),
        decreases v@.len() - i,
    {
        let ghost before = r@;
        proof {
            let t = v@.take(i + 1);
            assert(t.drop_last() =~= v@.take(i as int));
            assert(t.last() == v@[i as int]);
        }
        if v[i] == '\'' {
            r = r.concat("'\\''");
        } else {
            r.push(v[i]);
            assert(r@ =~= before + seq![v@[i as int]]);
        }
        i += 1;
    }
    assert(v@.take(i as int) =~= v@);
    r
}

/// What a shell makes of `s` between single quotes, where the text holds nothing but
/// characters other than single quotes and the groups that stand for one.
pub open spec fn shell_unquoted(s: Seq<char>) -> Option<Seq<char>>
    decreases s.len(),
{
    if s.len() == 0 {
        Some(Seq::empty())
    } else if s.first() != '\'' {
        match shell_unquoted(s.skip(1)) {
            Some(t) => Some(seq![s.first()] + t),
            None => None,
        }
    } else if crate::text::has_prefix(s, "'\\''"@) && s.len() >= 4 {
        match shell_unquoted(s.skip(4)) {
            Some(t) => Some(seq!['\''] + t),
            None => None,
        }
    } else {
        None
    }
}

proof fn lemma_unquoted_append(s: Seq<char>, t: Seq<char>, c: char)
    requires
        shell_unquoted(s) is Some,
        t == if c == '\'' {
            "'\\''"@
        } else {
            seq![c]
        },
    ensures
        shell_unquoted(s + t) == Some(shell_unquoted(s).unwrap().push(c)),
    decreases s.len(),
{
    reveal_strlit("'\\''");
    reveal_with_fuel(shell_unquoted, 2);
    if s.len() == 0 {
        assert(s + t =~= t);
        if c == '\'' {
            assert(t.take(4) =~= t);
            assert(t.skip(4) =~= Seq::empty());
            assert(seq!['\''] + Seq::<char>::empty() =~= Seq::<char>::empty().push(c));
        } else {
            assert(t.skip(1) =~= Seq::empty());
            assert(seq![c] + Seq::<char>::empty() =~= Seq::<char>::empty().push(c));
        }
    } else if s.first() != '\'' {
        lemma_unquoted_append(s.skip(1), t, c);
        assert((s + t).skip(1) =~= s.skip(1) + t);
        let u = shell_unquoted(s.skip(1)).unwrap();
        assert(seq![s.first()] + u.push(c) =~= (seq![s.first()] + u).push(c));
    } else {
        lemma_unquoted_append(s.skip(4), t, c);
        assert((s + t).skip(4) =~= s.skip(4) + t);
        assert((s + t).take(4) =~= s.take(4));
        let u = shell_unquoted(s.skip(4)).unwrap();
        assert(seq!['\''] + u.push(c) =~= (seq!['\''] + u).push(c));
    }
}

/// What was quoted is read back by the shell, whatever characters it holds.
pub proof fn law_quoting_is_undone(s: Seq<char>)
    ensures
        shell_unquoted(shell_quoted(s)) == Some(s),
    decreases s.len(),
{
    if s.len() > 0 {
        law_quoting_is_undone(s.drop_last());
        let t = if s.last() == '\'' {
            "'\\''"@
        } else {
            seq![s.last()]
        };
        lemma_unquoted_append(shell_quoted(s.drop_last()), t, s.last());
        assert(s.drop_last().push(s.last()) =~= s);
    }
}

/// The arguments that make adb list the keys of a phone's notifications.
pub open spec fn list_args(serial: Seq<char>) -> Seq<Seq<char>> {
    seq!["-s"@, serial, "shell"@, "cmd"@, "notification"@, "list"@]
}

pub fn build_list_args(serial: &str) -> (r: Vec<String>)
    ensures
        crate::text::string_views(r@) == list_args(serial@),
{
    let r = vec![
        "-s".to_owned(),
        serial.to_owned(),
        "shell".to_owned(),
        "cmd".to_owned(),
        "notification".to_owned(),
        "list".to_owned(),
    ];
    assert(crate::text::string_views(r@) =~= list_args(serial@));
    r
}

/// The arguments that make adb print the notification `key`. The shell on the phone must
/// not read the bars in a key as pipes, so the key is quoted.
pub open spec fn detail_args(serial: Seq<char>, key: Seq<char>) -> Seq<Seq<char>> {
    seq!["-s"@, serial, "shell"@, "cmd notification get '"@ + shell_quoted(key) + "'"@]
}

pub fn build_detail_args(serial: &str, key: &str) -> (r: Vec<String>)
    ensures
        crate::text::string_views(r@) == detail_args(serial@, key@),
{
    let cmd = crate::text::cat3("cmd notification get '", quote(key).as_str(), "'");
    let r = vec!["-s".to_owned(), serial.to_owned(), "shell".to_owned(), cmd];
    assert(crate::text::string_views(r@) =~= detail_args(serial@, key@));
    r
}

/// What a look at a phone that lists `keys` does to what a poller knows, and the keys that
/// it tells. The first look tells none.
pub open spec fn look(seen: Option<Set<Seq<char>>>, keys: Set<Seq<char>>) -> (
    Option<Set<Seq<char>>>,
    Set<Seq<char>>,
) {
    (
        Some(keys),
        match seen {
            None => Set::empty(),
            Some(before) => keys.difference(before),
        },
    )
}

/// What a poller knows after it has seen `lists` one after the other, and the keys that it
/// told at each look.
pub open spec fn looks(lists: Seq<Set<Seq<char>>>) -> (
    Option<Set<Seq<char>>>,
    Seq<Set<Seq<char>>>,
)
    decreases lists.len(),
{
    if lists.len() == 0 {
        (None, Seq::empty())
    } else {
        let (seen, told) = looks(lists.drop_last());
        let (now, added) = look(seen, lists.last());
        (now, told.push(added))
    }
}

proof fn lemma_looks(lists: Seq<Set<Seq<char>>>)
    ensures
        looks(lists).1.len() == lists.len(),
        looks(lists).0 == if lists.len() == 0 {
            None
        } else {
            Some(lists.last())
        },
        forall|i: int|
            0 <= i < lists.len() ==> #[trigger] looks(lists).1[i] == if i == 0 {
                Set::empty()
            } else {
                lists[i].difference(lists[i - 1])
            },
    decreases lists.len(),
{
    if lists.len() > 0 {
        lemma_looks(lists.drop_last());
    }
}

/// What is there at the first look is not told. A notification that comes later is told at
/// the look at which it is first listed, and not again as long as it stays.
pub proof fn law_notification_is_told_once(
    lists: Seq<Set<Seq<char>>>,
    i: int,
    j: int,
    key: Seq<char>,
)
    requires
        0 <= i < j < lists.len(),
        forall|k: int| i <= k <= j ==> (#[trigger] lists[k]).contains(key),
    ensures
        !looks(lists).1[0].contains(key),
        i > 0 && !lists[i - 1].contains(key) ==> looks(lists).1[i].contains(key),
        forall|k: int| i < k <= j ==> !(#[trigger] looks(lists).1[k]).contains(key),
{
    lemma_looks(lists);
    assert(lists[i].contains(key));
    assert forall|k: int| i < k <= j implies !(#[trigger] looks(lists).1[k]).contains(key) by {
        assert(lists[k - 1].contains(key));
    }
}

/// What a poller knows of a phone.
pub struct NotificationPoller {
    /// The keys of the last look; `None` before the first.
    seen: Option<TextSet>,
}

impl View for NotificationPoller {
    type V = Option<Set<Seq<char>>>;

    closed spec fn view(&self) -> Option<Set<Seq<char>>> {
        match self.seen {
            Some(s) => Some(s@),
            None => None,
        }
    }
}

impl NotificationPoller {
    pub closed spec fn wf(&self) -> bool {
        self.seen matches Some(s) ==> s.wf()
    }

    pub fn new() -> (r: Self)
        ensures
            r.wf(),
            r@ is None,
    {
        NotificationPoller { seen: None }
    }

    /// Takes what adb printed for the list, and returns the keys that have come since the
    /// last look. The first look only takes note of what is there, so that old
    /// notifications are not shown. Where adb failed (`None`), nothing changes.
    pub fn on_list(&mut self, stdout: Option<&[u8]>) -> (added: TextSet)
        requires
            old(self).wf(),
        ensures
            final(self).wf(),
            added.wf(),
            match stdout {
                None => final(self)@ == old(self)@ && added@ == Set::<Seq<char>>::empty(),
                Some(b) => {
                    let keys = crate::protocol::notification::keys_in(crate::text::lossy_text(b@));
                    (final(self)@, added@) == look(old(self)@, keys)
                },
            },
    {
        let b = match stdout {
            Some(b) => b,
            None => return TextSet::new(),
        };
        let text = text_lossy(b);
        let keys = parse_notification_list(text.as_str());
        let added = match &self.seen {
            Some(before) => keys.difference(before),
            None => TextSet::new(),
        };
        self.seen = Some(keys);
        added
    }

    /// The notification `key`, from what adb printed for it.
    pub fn on_detail(&self, key: &str, stdout: Option<&[u8]>) -> (r: Option<NotifInfo>)
        ensures
            match (
                stdout,
                r,
            ) {
                (None, n) => n is None,
                (Some(b), Some(n)) => crate::protocol::notification::detail(
                    crate::text::lossy_text(b@),
                    key@,
                ) == Some(n@),
                (Some(b), None) => crate::protocol::notification::detail(
                    crate::text::lossy_text(b@),
                    key@,
                ) is None,
            },
    {
        match stdout {
            Some(b) => {
                let text = text_lossy(b);
                parse_notification_detail(text.as_str(), key)
            },
            None => None,
        }
    }
}

impl NotifInfo {
    pub fn duplicate(&self) -> (r: Self)
        ensures
            r@ == self@,
    {
        NotifInfo {
            key: copy_text(&self.key),
            package: copy_text(&self.package),
            title: copy_option(&self.title),
            body: copy_option(&self.body),
        }
    }
}

/// A look tells exactly the keys that the phone lists now and did not list at the last look; the
/// first one tells none. What is listed now is what the next look compares with.
pub proof fn law_look_tells_what_is_new(
    seen: Option<Set<Seq<char>>>,
    keys: Set<Seq<char>>,
    key: Seq<char>,
)
    ensures
        look(seen, keys).0 == Some(keys),
        seen is None ==> !look(seen, keys).1.contains(key),
        seen matches Some(before) ==> (look(seen, keys).1.contains(key) <==> keys.contains(key)
            && !before.contains(key)),
{
}

/// A notification that goes and comes again is told again.
pub proof fn law_notification_that_returns_is_told(
    before: Set<Seq<char>>,
    without: Set<Seq<char>>,
    with: Set<Seq<char>>,
    key: Seq<char>,
)
    requires
        before.contains(key),
        !without.contains(key),
        with.contains(key),
    ensures
        ({
            let (a, x) = look(Some(before), without);
            let (b, y) = look(a, with);
            !x.contains(key) && y.contains(key)
        }),
{
}

/// The phone that is named is asked for its notifications, and for the one with the key that was
/// given: its shell reads the key back as it was, whatever characters it holds.
pub proof fn law_phone_is_asked_for_the_key(serial: Seq<char>, key: Seq<char>)
    ensures
        ({
            let l = list_args(serial);
            let d = detail_args(serial, key);
            &&& l == seq!["-s"@, serial, "shell"@, "cmd"@, "notification"@, "list"@]
            &&& d.len() == 4
            &&& d.take(3) == l.take(3)
            &&& d[3].take(22) == "cmd notification get '"@
            &&& d[3].last() == '\''
            &&& shell_unquoted(d[3].subrange(22, d[3].len() - 1)) == Some(key)
        }),
{
    reveal_strlit("cmd notification get '");
    reveal_strlit("'");
    law_quoting_is_undone(key);
    let l = list_args(serial);
    let d = detail_args(serial, key);
    assert(d.take(3) =~= l.take(3));
    assert(d[3].take(22) =~= "cmd notification get '"@);
    assert(d[3].subrange(22, d[3].len() - 1) =~= shell_quoted(key));
}

} // verus!
