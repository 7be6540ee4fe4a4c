//! The applications that a device can start.
use crate::text::{
    cat2, chars_of, contains_chars, copy_text, decimal_text, split_lines, starts_with,
    string_of, text_lossy, trim, trim_end,
};
use crate::types::AdbError;
use std::collections::HashMap;
use vstd::prelude::*;
use vstd::string::StringExecFns;

verus! {

/// Where the server stands on the phone; sessions use the same file.
pub const REMOTE_JAR: &'static str = "/data/local/tmp/kulua-server.jar";

/// How long a list of applications stays good: 60 seconds, in nanoseconds.
pub const APP_CACHE_TTL: u64 = 60_000_000_000;

/// How long the listing may take: 20 seconds, in nanoseconds.
pub const LIST_APPS_TIMEOUT: u64 = 20_000_000_000;

/// The columns that a name is padded to.
pub const NAME_COLUMNS: usize = 30;

/// An application that can be started.
#[derive(Debug, Clone, PartialEq)]
pub struct AppInfo {
    pub package_name: String,
    /// May be empty.
    pub label: String,
    /// It came with the system.
    pub system: bool,
}

/// An application, as the contracts speak of it.
#[verifier::ext_equal]
pub struct App {
    pub package_name: Seq<char>,
    pub label: Seq<char>,
    pub system: bool,
}

impl View for AppInfo {
    type V = App;

    open spec fn view(&self) -> App {
        App { package_name: self.package_name@, label: self.label@, system: self.system }
    }
}

impl Default for AppInfo {
    fn default() -> (r: Self)
        ensures
            r@ == App::unnamed(false),
    {
        AppInfo { package_name: String::new(), label: String::new(), system: false }
    }
}

impl AppInfo {
    pub fn duplicate(&self) -> (r: Self)
        ensures
            r@ == self@,
    {
        AppInfo {
            package_name: copy_text(&self.package_name),
            label: copy_text(&self.label),
            system: self.system,
        }
    }
}

/// The applications of a list.
pub open spec fn app_views(v: Seq<AppInfo>) -> Seq<App> {
    v.map_values(|a: AppInfo| a@)
}

/// A copy of a list.
pub fn copy_apps(v: &[AppInfo]) -> (r: Vec<AppInfo>)
    ensures
        app_views(r@) == app_views(v@),
{
    let mut r: Vec<AppInfo> = Vec::new();
    let mut i: usize = 0;
    while i < v.len()
        invariant
            i <= v@.len(),
            app_views(r@) == app_views(v@).take(i as int),
        decreases v@.len() - i,
    {
        let ghost before = r@;
        r.push(v[i].duplicate());
        i += 1;
        assert(app_views(r@) =~= app_views(before).push(v@[i - 1]@));
        assert(app_views(r@) =~= app_views(v@).take(i as int));
    }
    assert(app_views(v@).take(i as int) =~= app_views(v@));
    r
}

impl App {
    pub open spec fn unnamed(system: bool) -> App {
        App { package_name: Seq::empty(), label: Seq::empty(), system }
    }

    /// What stands behind the mark of an entry: the name, padded to its columns, then a
    /// blank and the package. A name that is longer fills the line. A line that is shorter
    /// than the columns is a name.
    pub open spec fn entry(self, rest: Seq<char>) -> App {
        if rest.len() < NAME_COLUMNS {
            App { label: crate::text::trimmed(rest), ..self }
        } else {
            let name = rest.take(NAME_COLUMNS as int);
            let package = rest.skip(NAME_COLUMNS as int);
            if package.len() > 0 && package.first() == ' ' {
                App {
                    label: crate::text::trimmed_end(name),
                    package_name: crate::text::trimmed(package),
                    ..self
                }
            } else {
                App { label: rest, ..self }
            }
        }
    }
}

/// The mark of an entry, if the line has one: whether it is a system application, and
/// what stands behind the mark.
pub open spec fn marked(line: Seq<char>) -> Option<(bool, Seq<char>)> {
    if crate::text::has_prefix(line, " * "@) {
        Some((true, line.skip(3)))
    } else if crate::text::has_prefix(line, " - "@) {
        Some((false, line.skip(3)))
    } else {
        None
    }
}

/// `s` without carriage returns at its end.
pub open spec fn without_returns(s: Seq<char>) -> Seq<char>
    decreases s.len(),
{
    if s.len() > 0 && s.last() == '\r' {
        without_returns(s.drop_last())
    } else {
        s
    }
}

/// A line that can hold nothing but the package of the entry before it: one word behind
/// blanks.
pub open spec fn continues(line: Seq<char>) -> bool {
    &&& line.len() > 0
    &&& line[0] == ' '
    &&& crate::text::trimmed(line).len() > 0
    &&& forall|i: int|
        0 <= i < crate::text::trimmed(line).len() ==> !crate::text::is_space(
            #[trigger] crate::text::trimmed(line)[i],
        )
}

/// An entry that was begun.
#[verifier::ext_equal]
pub struct Begun {
    pub app: App,
    /// What stood behind its mark.
    pub line: Seq<char>,
    /// Its package stood on a line of its own.
    pub continued: bool,
}

impl Begun {
    /// The entry once an unmarked line has followed it. Such a line holds the package, and
    /// all that stood behind the mark was the name.
    pub open spec fn followed(self, line: Seq<char>) -> Begun {
        let package_name = crate::text::trimmed(line);
        if self.app.package_name.len() == 0 {
            Begun { app: App { package_name, ..self.app }, continued: true, ..self }
        } else if !self.continued && continues(line) {
            Begun {
                app: App { package_name, label: self.line, ..self.app },
                continued: true,
                ..self
            }
        } else {
            self
        }
    }
}

/// What has been read of a listing.
#[verifier::ext_equal]
pub struct Listing {
    /// The heading has been seen.
    pub in_list: bool,
    /// The entry that was begun last; its package may stand on the next line.
    pub current: Option<Begun>,
    pub apps: Seq<App>,
}

impl Listing {
    pub open spec fn fresh() -> Listing {
        Listing { in_list: false, current: None, apps: Seq::empty() }
    }

    /// The entry that was begun is over; one without a package is dropped.
    pub open spec fn finished(self) -> Listing {
        match self.current {
            Some(b) if b.app.package_name.len() > 0 => Listing {
                current: None,
                apps: self.apps.push(b.app),
                ..self
            },
            _ => Listing { current: None, ..self },
        }
    }

    pub open spec fn step(self, raw: Seq<char>) -> Listing {
        let line = without_returns(raw);
        if !self.in_list {
            Listing { in_list: crate::text::find_text(line, "List of apps:"@) is Some, ..self }
        } else if line.len() == 0 {
            self
        } else {
            match marked(line) {
                Some((system, rest)) => Listing {
                    current: Some(
                        Begun {
                            app: App::unnamed(system).entry(rest),
                            line: rest,
                            continued: false,
                        },
                    ),
                    ..self.finished()
                },
                None => match self.current {
                    Some(b) => Listing { current: Some(b.followed(line)), ..self },
                    None => self,
                },
            }
        }
    }

    /// What has been read after the lines `ls`.
    pub open spec fn after(ls: Seq<Seq<char>>) -> Listing
        decreases ls.len(),
    {
        if ls.len() == 0 {
            Listing::fresh()
        } else {
            Listing::after(ls.drop_last()).step(ls.last())
        }
    }
}

/// The applications that a listing names.
pub open spec fn listed(output: Seq<char>) -> Seq<App> {
    Listing::after(crate::text::lines(output)).finished().apps
}

fn drop_returns(s: &[char]) -> (r: &[char])
    ensures
        r@ == without_returns(s@),
{
    let mut b: usize = s.len();
    assert(s@.take(b as int) =~= s@);
    while b > 0 && s[b - 1] == '\r'
        invariant
            b <= s@.len(),
            without_returns(s@) == without_returns(s@.take(b as int)),
        decreases b,
    {
        assert(s@.take(b as int).drop_last() =~= s@.take(b - 1));
        b -= 1;
    }
    proof {
        if b > 0 {
            assert(s@.take(b as int).last() == s@[b - 1]);
        }
        assert(s@.subrange(0, b as int) =~= s@.take(b as int));
    }
    &s[0..b]
}

/// Reads what stands behind the mark of an entry.
fn parse_app_line(app: &mut AppInfo, rest: &[char])
    requires
        old(app)@.package_name.len() == 0,
    ensures
        final(app)@ == old(app)@.entry(rest@),
{
    if rest.len() < NAME_COLUMNS {
        app.label = string_of(trim(rest));
        return;
    }
    let name = &rest[0..NAME_COLUMNS];
    let package = &rest[NAME_COLUMNS..rest.len()];
    assert(name@ =~= rest@.take(NAME_COLUMNS as int));
    assert(package@ =~= rest@.skip(NAME_COLUMNS as int));
    if package.len() > 0 && package[0] == ' ' {
        app.label = string_of(trim_end(name));
        let pkg = trim(package);
        if pkg.len() > 0 {
            app.package_name = string_of(pkg);
        } else {
            assert(pkg@ =~= Seq::empty());
            assert(app.package_name@ =~= Seq::empty());
        }
    } else {
        app.label = string_of(rest);
    }
}

/// An entry that was begun.
struct Entry {
    app: AppInfo,
    line: Vec<char>,
    continued: bool,
}

impl View for Entry {
    type V = Begun;

    closed spec fn view(&self) -> Begun {
        Begun { app: self.app@, line: self.line@, continued: self.continued }
    }
}

fn is_continuation(line: &[char]) -> (r: bool)
    ensures
        r == continues(line@),
{
    if line.len() == 0 || line[0] != ' ' {
        return false;
    }
    let word = trim(line);
    if word.len() == 0 {
        return false;
    }
    let mut i: usize = 0;
    while i < word.len()
        invariant
            i <= word@.len(),
            word@ == crate::text::trimmed(line@),
            forall|j: int| 0 <= j < i ==> !crate::text::is_space(#[trigger] word@[j]),
        decreases word@.len() - i,
    {
        if crate::text::space(word[i]) {
            assert(crate::text::is_space(crate::text::trimmed(line@)[i as int]));
            return false;
        }
        i += 1;
    }
    true
}

impl Entry {
    /// Takes an unmarked line that follows the entry.
    fn follow(self, line: &[char]) -> (r: Entry)
        ensures
            r@ == self@.followed(line@),
    {
        let mut app = self.app;
        if app.package_name.as_str().unicode_len() == 0 {
            app.package_name = string_of(trim(line));
            Entry { app, line: self.line, continued: true }
        } else if !self.continued && is_continuation(line) {
            app.package_name = string_of(trim(line));
            app.label = string_of(self.line.as_slice());
            Entry { app, line: self.line, continued: true }
        } else {
            Entry { app, line: self.line, continued: self.continued }
        }
    }
}

/// Closes the entry that was begun; one without a package is dropped.
fn finish_app(apps: &mut Vec<AppInfo>, current: &mut Option<Entry>)
    ensures
        *final(current) == None::<Entry>,
        app_views(final(apps)@) == match *old(current) {
            Some(b) if b@.app.package_name.len() > 0 => app_views(old(apps)@).push(b@.app),
            _ => app_views(old(apps)@),
        },
{
    match current.take() {
        Some(entry) => {
            let app = entry.app;
            if app.package_name.as_str().unicode_len() > 0 {
                let ghost before = apps@;
                apps.push(app);
                assert(app_views(apps@) =~= app_views(before).push(app@));
            }
        },
        None => {},
    }
}

/// The applications that a listing names. Lines before its heading are not read. An entry
/// begins with ` * ` (a system application) or ` - `; then come the name, padded to 30
/// columns, a blank and the package. Where the name is longer, the package stands on the
/// next line, which has no mark.
pub fn parse_apps_output(output: &str) -> (r: Vec<AppInfo>)
    ensures
        app_views(r@) == listed(output@),
{
    let text = chars_of(output);
    let ls = split_lines(text.as_slice());
    let heading = chars_of("List of apps:");
    let star = chars_of(" * ");
    let dash = chars_of(" - ");
    let mut apps: Vec<AppInfo> = Vec::new();
    let mut in_list: bool = false;
    let mut current: Option<Entry> = None;
    let ghost all = crate::text::texts(ls@);
    let mut i: usize = 0;
    proof {
        reveal_strlit(" * ");
        reveal_strlit(" - ");
        assert(all.take(0) =~= Seq::empty());
        assert(app_views(apps@) =~= Seq::empty());
    }
    while i < ls.len()
        invariant
            i <= ls@.len(),
            all == crate::text::texts(ls@),
            heading@ == "List of apps:"@,
            star@ == " * "@,
            dash@ == " - "@,
            star@.len() == 3,
            dash@.len() == 3,
            in_list == Listing::after(all.take(i as int)).in_list,
            app_views(apps@) == Listing::after(all.take(i as int)).apps,
            match (current, Listing::after(all.take(i as int)).current) {
                (Some(a), Some(b)) => a@ == b,
                (None, None) => true,
                _ => false,
            },
        decreases ls@.len() - i,
    {
        proof {
            let t = all.take(i + 1);
            assert(t.drop_last() =~= all.take(i as int));
            assert(t.last() == ls@[i as int]@);
        }
        let line = drop_returns(ls[i].as_slice());
        i += 1;
        if !in_list {
            if contains_chars(line, heading.as_slice()) {
                in_list = true;
            }
            continue;
        }
        if line.len() == 0 {
            continue;
        }
        let is_star: bool = starts_with(line, star.as_slice());
        if is_star || starts_with(line, dash.as_slice()) {
            finish_app(&mut apps, &mut current);
            let rest = &line[3..line.len()];
            assert(rest@ =~= line@.skip(3));
            let mut app = AppInfo { package_name: String::new(), label: String::new(), system: is_star };
            assert(app@ =~= App::unnamed(is_star));
            parse_app_line(&mut app, rest);
            current = Some(
                Entry { app, line: crate::text::copy_chars(rest), continued: false },
            );
        } else {
            current = match current {
                Some(entry) => Some(entry.follow(line)),
                None => None,
            };
        }
    }
    assert(all.take(i as int) =~= all);
    finish_app(&mut apps, &mut current);
    apps
}

/// `n` blanks.
pub open spec fn blanks(n: nat) -> Seq<char> {
    Seq::new(n, |i: int| ' ')
}

/// The mark of an application.
pub open spec fn mark_of(system: bool) -> Seq<char> {
    if system {
        " * "@
    } else {
        " - "@
    }
}

/// An application as a listing shows it.
pub open spec fn printed_entry(a: App) -> Seq<char> {
    let mark = mark_of(a.system);
    if a.label.len() <= NAME_COLUMNS {
        mark + a.label + blanks((NAME_COLUMNS - a.label.len()) as nat) + " "@ + a.package_name
            + "\n"@
    } else {
        mark + a.label + "\n"@ + blanks(35) + a.package_name + "\n"@
    }
}

/// The entries of a listing.
pub open spec fn printed(apps: Seq<App>) -> Seq<char>
    decreases apps.len(),
{
    if apps.len() == 0 {
        Seq::empty()
    } else {
        printed(apps.drop_last()) + printed_entry(apps.last())
    }
}

/// A name and a package that a listing can show: the package is one word, and the name
/// holds no line break and does not end in white space.
pub open spec fn printable(a: App) -> bool {
    &&& a.package_name.len() > 0
    &&& forall|i: int|
        0 <= i < a.package_name.len() ==> !crate::text::is_space(#[trigger] a.package_name[i])
    &&& !a.label.contains('\n')
    &&& a.label.len() > 0 ==> !crate::text::is_space(a.label.last())
}

proof fn lemma_blanks_lead(n: nat, p: Seq<char>)
    requires
        p.len() > 0,
        !crate::text::is_space(p[0]),
    ensures
        crate::text::leading_spaces(blanks(n) + p) == n,
    decreases n,
{
    let s = blanks(n) + p;
    if n > 0 {
        lemma_blanks_lead((n - 1) as nat, p);
        assert(s.first() == ' ');
        assert(s.skip(1) =~= blanks((n - 1) as nat) + p);
    } else {
        assert(s =~= p);
    }
}

proof fn lemma_blanks_trail(p: Seq<char>, n: nat)
    requires
        p.len() > 0 ==> !crate::text::is_space(p.last()),
    ensures
        crate::text::trailing_spaces(p + blanks(n)) == n,
    decreases n,
{
    let s = p + blanks(n);
    if n > 0 {
        lemma_blanks_trail(p, (n - 1) as nat);
        assert(s.last() == ' ');
        assert(s.drop_last() =~= p + blanks((n - 1) as nat));
    } else {
        assert(s =~= p);
    }
}

proof fn lemma_word_trimmed(n: nat, p: Seq<char>)
    requires
        p.len() > 0,
        !crate::text::is_space(p[0]),
        !crate::text::is_space(p.last()),
    ensures
        crate::text::trimmed(blanks(n) + p) == p,
{
    lemma_blanks_lead(n, p);
    assert((blanks(n) + p).skip(n as int) =~= p);
    lemma_blanks_trail(p, 0);
    assert(p + blanks(0) =~= p);
    assert(p.take(p.len() as int) =~= p);
}

/// The lines of a text that ends in a line break do not depend on what follows.
proof fn lemma_lines_concat(a: Seq<char>, b: Seq<char>)
    requires
        a.len() > 0 ==> a.last() == '\n',
    ensures
        crate::text::lines(a + b) == crate::text::lines(a) + crate::text::lines(b),
    decreases a.len(),
{
    if a.len() == 0 {
        assert(a + b =~= b);
        assert(crate::text::lines(a) + crate::text::lines(b) =~= crate::text::lines(b));
    } else {
        let n = crate::text::find(a, '\n');
        let m = crate::text::find(a + b, '\n');
        crate::text::lemma_find(a, '\n');
        crate::text::lemma_find(a + b, '\n');
        assert(a[a.len() - 1] == '\n');
        assert(n < a.len());
        assert((a + b)[n as int] == '\n');
        assert(m <= n);
        if m < n {
            assert(a[m as int] == (a + b)[m as int]);
        }
        let c = a.skip((n + 1) as int);
        if c.len() > 0 {
            assert(c.last() == a.last());
        }
        lemma_lines_concat(c, b);
        assert((a + b).take(n as int) =~= a.take(n as int));
        assert((a + b).skip((n + 1) as int) =~= c + b);
        assert(crate::text::lines(a + b) =~= crate::text::lines(a) + crate::text::lines(b));
    }
}

proof fn lemma_one_line(l: Seq<char>)
    requires
        !l.contains('\n'),
    ensures
        crate::text::lines(l + "\n"@) == seq![crate::text::without_return(l)],
{
    reveal_strlit("\n");
    let s = l + "\n"@;
    let n = crate::text::find(s, '\n');
    crate::text::lemma_find(s, '\n');
    assert(s[l.len() as int] == '\n');
    assert(n <= l.len());
    if n < l.len() {
        assert(l[n as int] == '\n');
        assert(l.contains('\n'));
    }
    assert(s.take(n as int) =~= l);
    assert(s.skip((n + 1) as int) =~= Seq::empty());
    assert(crate::text::lines(s.skip((n + 1) as int)) =~= Seq::empty());
    assert(crate::text::lines(s) =~= seq![crate::text::without_return(l)]);
}

proof fn lemma_after_more(a: Seq<Seq<char>>, l: Seq<char>)
    ensures
        Listing::after(a + seq![l]) == Listing::after(a).step(l),
{
    let b = a + seq![l];
    assert(b.drop_last() =~= a);
    assert(b.last() == l);
}

proof fn lemma_mark_is_read(system: bool, rest: Seq<char>)
    ensures
        mark_of(system).len() == 3,
        mark_of(system)[0] == ' ',
        mark_of(system)[1] != '\n',
        mark_of(system)[2] == ' ',
        marked(mark_of(system) + rest) == Some((system, rest)),
{
    reveal_strlit(" * ");
    reveal_strlit(" - ");
    let l = mark_of(system) + rest;
    assert(l.take(3) =~= mark_of(system));
    assert(l.skip(3) =~= rest);
    if !system {
        assert(l.take(3)[1] == '-');
        assert(" * "@[1] == '*');
    }
}

proof fn lemma_short_entry(a: App)
    requires
        printable(a),
        a.label.len() <= NAME_COLUMNS,
    ensures
        ({
            let k = (NAME_COLUMNS - a.label.len()) as nat;
            let rest = a.label + blanks(k) + " "@ + a.package_name;
            let l = mark_of(a.system) + rest;
            &&& crate::text::lines(printed_entry(a)) == seq![l]
            &&& without_returns(l) == l
            &&& l.len() > 0
            &&& marked(l) == Some((a.system, rest))
            &&& App::unnamed(a.system).entry(rest) == a
        }),
{
    reveal_strlit(" ");
    let p = a.package_name;
    assert(!crate::text::is_space(p[0]));
    assert(!crate::text::is_space(p[p.len() - 1]));
    let k = (NAME_COLUMNS - a.label.len()) as nat;
    let rest = a.label + blanks(k) + " "@ + p;
    let l = mark_of(a.system) + rest;
    lemma_mark_is_read(a.system, rest);
    assert(printed_entry(a) =~= l + "\n"@);
    assert(!l.contains('\n')) by {
        assert forall|i: int| 0 <= i < l.len() implies l[i] != '\n' by {
            if 3 <= i < 3 + a.label.len() {
                assert(l[i] == a.label[i - 3]);
                assert(a.label.contains(a.label[i - 3]));
            } else if i >= 3 + NAME_COLUMNS + 1 {
                assert(l[i] == p[i - 3 - NAME_COLUMNS - 1]);
            }
        }
    }
    lemma_one_line(l);
    assert(l.last() == p.last());
    assert(l.last() != '\r');
    let name = rest.take(NAME_COLUMNS as int);
    let package = rest.skip(NAME_COLUMNS as int);
    assert(name =~= a.label + blanks(k));
    assert(package =~= blanks(1) + p);
    assert(package.first() == ' ');
    lemma_blanks_trail(a.label, k);
    assert(crate::text::trimmed_end(name) =~= a.label);
    lemma_word_trimmed(1, p);
    assert(App::unnamed(a.system).entry(rest) =~= a);
}

proof fn lemma_long_entry(a: App)
    requires
        printable(a),
        a.label.len() > NAME_COLUMNS,
    ensures
        ({
            let l = mark_of(a.system) + a.label;
            let m = blanks(35) + a.package_name;
            &&& crate::text::lines(printed_entry(a)) == seq![l, m]
            &&& without_returns(l) == l
            &&& without_returns(m) == m
            &&& l.len() > 0
            &&& m.len() > 0
            &&& marked(l) == Some((a.system, a.label))
            &&& marked(m) is None
            &&& crate::text::trimmed(m) == a.package_name
            &&& continues(m)
        }),
{
    reveal_strlit(" * ");
    reveal_strlit(" - ");
    reveal_strlit("\n");
    let p = a.package_name;
    assert(!crate::text::is_space(p[0]));
    assert(!crate::text::is_space(p[p.len() - 1]));
    let l = mark_of(a.system) + a.label;
    let m = blanks(35) + p;
    lemma_mark_is_read(a.system, a.label);
    assert(printed_entry(a) =~= (l + "\n"@) + (m + "\n"@));
    assert(!l.contains('\n')) by {
        assert forall|i: int| 0 <= i < l.len() implies l[i] != '\n' by {
            if 3 <= i {
                assert(l[i] == a.label[i - 3]);
                assert(a.label.contains(a.label[i - 3]));
            }
        }
    }
    assert(!m.contains('\n')) by {
        assert forall|i: int| 0 <= i < m.len() implies m[i] != '\n' by {
            if i >= 35 {
                assert(m[i] == p[i - 35]);
            }
        }
    }
    lemma_one_line(l);
    lemma_one_line(m);
    assert((l + "\n"@).last() == '\n');
    lemma_lines_concat(l + "\n"@, m + "\n"@);
    assert(l.last() == a.label.last());
    assert(l.last() != '\r');
    assert(m.last() == p.last());
    assert(m.last() != '\r');
    assert(crate::text::lines(printed_entry(a)) =~= seq![l, m]);
    assert(m[1] == ' ');
    assert(m.take(3)[1] == ' ');
    assert(" * "@[1] == '*');
    assert(" - "@[1] == '-');
    lemma_word_trimmed(35, p);
    assert(m[0] == ' ');
}

/// Reading an entry as it is printed adds the application.
proof fn lemma_entry_is_read(ls: Seq<Seq<char>>, a: App)
    requires
        printable(a),
        Listing::after(ls).in_list,
    ensures
        ({
            let t = Listing::after(ls + crate::text::lines(printed_entry(a)));
            &&& t.in_list
            &&& t.finished().apps == Listing::after(ls).finished().apps.push(a)
        }),
{
    let was = Listing::after(ls);
    if a.label.len() <= NAME_COLUMNS {
        lemma_short_entry(a);
        let k = (NAME_COLUMNS - a.label.len()) as nat;
        let rest = a.label + blanks(k) + " "@ + a.package_name;
        lemma_after_more(ls, mark_of(a.system) + rest);
    } else {
        lemma_long_entry(a);
        let l = mark_of(a.system) + a.label;
        let m = blanks(35) + a.package_name;
        assert(ls + seq![l, m] =~= (ls + seq![l]) + seq![m]);
        lemma_after_more(ls, l);
        lemma_after_more(ls + seq![l], m);
        let b = Begun {
            app: App::unnamed(a.system).entry(a.label),
            line: a.label,
            continued: false,
        };
        assert(was.step(l).current == Some(b));
        let e = App::unnamed(a.system).entry(a.label);
        assert(e.system == a.system);
        if e.package_name.len() == 0 {
            let package = a.label.skip(NAME_COLUMNS as int);
            if package.first() == ' ' {
                lemma_last_is_kept(package);
            }
            assert(e.label == a.label);
        }
        assert(b.followed(m).app =~= a);
        assert(was.step(l).step(m).current == Some(b.followed(m)));
    }
}

/// Trimming keeps a last character that is no white space.
proof fn lemma_last_is_kept(s: Seq<char>)
    requires
        s.len() > 0,
        !crate::text::is_space(s.last()),
    ensures
        crate::text::trimmed(s).len() > 0,
{
    lemma_lead_bound(s);
    let t = s.skip(crate::text::leading_spaces(s) as int);
    assert(t.last() == s.last());
}

proof fn lemma_lead_bound(s: Seq<char>)
    requires
        s.len() > 0,
        !crate::text::is_space(s.last()),
    ensures
        crate::text::leading_spaces(s) < s.len(),
    decreases s.len(),
{
    if crate::text::is_space(s.first()) {
        assert(s.len() > 1);
        assert(s.skip(1).last() == s.last());
        lemma_lead_bound(s.skip(1));
    }
}

proof fn lemma_heading_found(tag: Seq<char>, p: Seq<char>)
    ensures
        crate::text::find_text(tag + p, p) is Some,
    decreases tag.len(),
{
    let s = tag + p;
    if tag.len() == 0 {
        assert(s =~= p);
        assert(s.take(p.len() as int) =~= p);
    } else {
        lemma_heading_found(tag.skip(1), p);
        assert(s.skip(1) =~= tag.skip(1) + p);
    }
}

/// Lines before the heading leave nothing behind.
proof fn lemma_before_heading(ls: Seq<Seq<char>>)
    requires
        forall|i: int|
            0 <= i < ls.len() ==> crate::text::find_text(
                without_returns(#[trigger] ls[i]),
                "List of apps:"@,
            ) is None,
    ensures
        Listing::after(ls) == Listing::fresh(),
    decreases ls.len(),
{
    if ls.len() > 0 {
        let a = ls.drop_last();
        assert forall|i: int| 0 <= i < a.len() implies crate::text::find_text(
            without_returns(#[trigger] a[i]),
            "List of apps:"@,
        ) is None by {
            assert(a[i] == ls[i]);
        }
        lemma_before_heading(a);
        assert(ls.last() == ls[ls.len() - 1]);
    }
}

proof fn lemma_entries_are_read(ls: Seq<Seq<char>>, apps: Seq<App>)
    requires
        Listing::after(ls).in_list,
        Listing::after(ls).finished().apps == Seq::<App>::empty(),
        forall|i: int| 0 <= i < apps.len() ==> printable(#[trigger] apps[i]),
    ensures
        Listing::after(ls + crate::text::lines(printed(apps))).in_list,
        Listing::after(ls + crate::text::lines(printed(apps))).finished().apps == apps,
        printed(apps).len() > 0 ==> printed(apps).last() == '\n',
    decreases apps.len(),
{
    reveal_strlit("\n");
    if apps.len() == 0 {
        assert(ls + crate::text::lines(printed(apps)) =~= ls);
        assert(apps =~= Seq::empty());
    } else {
        let before = apps.drop_last();
        let a = apps.last();
        assert(a == apps[apps.len() - 1]);
        assert forall|i: int| 0 <= i < before.len() implies printable(#[trigger] before[i]) by {
            assert(before[i] == apps[i]);
        }
        lemma_entries_are_read(ls, before);
        lemma_lines_concat(printed(before), printed_entry(a));
        let more = ls + crate::text::lines(printed(before));
        lemma_entry_is_read(more, a);
        assert(more + crate::text::lines(printed_entry(a)) =~= ls + crate::text::lines(
            printed(apps),
        ));
        assert(before.push(a) =~= apps);
        assert(printed_entry(a).last() == '\n');
    }
}

/// A listing is read back as it was printed: the same applications in the same order, each
/// with its name, its package and its kind. Lines that come before the heading change
/// nothing, and neither does what precedes it on its own line.
pub proof fn law_listing_is_read_back(log: Seq<char>, tag: Seq<char>, apps: Seq<App>)
    requires
        log.len() > 0 ==> log.last() == '\n',
        forall|i: int|
            0 <= i < crate::text::lines(log).len() ==> crate::text::find_text(
                without_returns(#[trigger] crate::text::lines(log)[i]),
                "List of apps:"@,
            ) is None,
        !tag.contains('\n'),
        forall|i: int| 0 <= i < apps.len() ==> printable(#[trigger] apps[i]),
    ensures
        listed(log + tag + "List of apps:\n"@ + printed(apps)) == apps,
{
    reveal_strlit("List of apps:");
    reveal_strlit("List of apps:\n");
    reveal_strlit("\n");
    let h = tag + "List of apps:"@;
    let text = log + tag + "List of apps:\n"@ + printed(apps);
    assert("List of apps:\n"@ =~= "List of apps:"@ + "\n"@);
    assert(text =~= log + ((h + "\n"@) + printed(apps)));
    lemma_lines_concat(log, (h + "\n"@) + printed(apps));
    lemma_lines_concat(h + "\n"@, printed(apps));
    assert(!h.contains('\n')) by {
        assert forall|i: int| 0 <= i < h.len() implies h[i] != '\n' by {
            if i < tag.len() {
                assert(h[i] == tag[i]);
                assert(tag.contains(tag[i]));
            } else {
                assert(h[i] == "List of apps:"@[i - tag.len()]);
            }
        }
    }
    lemma_one_line(h);
    assert(h.last() == "List of apps:"@.last());
    assert(h.last() == ':');
    lemma_before_heading(crate::text::lines(log));
    let ls = crate::text::lines(log) + seq![h];
    lemma_after_more(crate::text::lines(log), h);
    lemma_heading_found(tag, "List of apps:"@);
    assert(without_returns(h) == h);
    lemma_entries_are_read(ls, apps);
    assert(crate::text::lines(text) =~= ls + crate::text::lines(printed(apps)));
}

/// A letter of the ASCII alphabet.
pub open spec fn is_letter(c: char) -> bool {
    'a' <= c <= 'z' || 'A' <= c <= 'Z'
}

/// A letter, a digit or an underscore.
pub open spec fn is_name_char(c: char) -> bool {
    is_letter(c) || crate::text::is_digit(c) || c == '_'
}

/// Part of a package name: it begins with a letter, and only letters, digits and
/// underscores follow.
pub open spec fn is_segment(s: Seq<char>) -> bool {
    s.len() > 0 && is_letter(s[0]) && forall|i: int| 0 < i < s.len() ==> is_name_char(#[trigger] s[i])
}

/// One or more parts with dots between them.
pub open spec fn is_dotted_name(s: Seq<char>) -> bool
    decreases s.len(),
{
    let n = crate::text::find(s, '.');
    if n < s.len() {
        is_segment(s.take(n as int)) && is_dotted_name(s.skip((n + 1) as int))
    } else {
        is_segment(s)
    }
}

/// A package name: parts with dots between them, at most 255 characters.
pub open spec fn is_package_name(s: Seq<char>) -> bool {
    s.len() <= 255 && is_dotted_name(s)
}

fn segment(s: &[char]) -> (r: bool)
    ensures
        r == is_segment(s@),
{
    if s.len() == 0 {
        return false;
    }
    let first: char = s[0];
    if !(('a' <= first && first <= 'z') || ('A' <= first && first <= 'Z')) {
        return false;
    }
    let mut i: usize = 1;
    while i < s.len()
        invariant
            1 <= i <= s@.len(),
            is_letter(s@[0]),
            forall|j: int| 0 < j < i ==> is_name_char(#[trigger] s@[j]),
        decreases s@.len() - i,
    {
        let c: char = s[i];
        if !(('a' <= c && c <= 'z') || ('A' <= c && c <= 'Z') || ('0' <= c && c <= '9') || c
            == '_') {
            assert(!is_name_char(s@[i as int]));
            return false;
        }
        i += 1;
    }
    true
}

/// Whether `pkg` is a package name.
pub fn is_valid_package_name(pkg: &str) -> (r: bool)
    ensures
        r == is_package_name(pkg@),
{
    let s = chars_of(pkg);
    if s.len() > 255 {
        return false;
    }
    let mut at: usize = 0;
    assert(s@.skip(0) =~= s@);
    while at <= s.len()
        invariant
            at <= s@.len(),
            s@.len() <= 255,
            s@ == pkg@,
            is_package_name(pkg@) == is_dotted_name(s@.skip(at as int)),
        decreases s@.len() - at,
    {
        let rest = &s.as_slice()[at..s.len()];
        assert(rest@ =~= s@.skip(at as int));
        let n: usize = crate::text::find_char(rest, '.');
        if n == rest.len() {
            return segment(rest);
        }
        let part = &rest[0..n];
        assert(part@ =~= rest@.take(n as int));
        if !segment(part) {
            return false;
        }
        assert(rest@.skip(n + 1) =~= s@.skip(at + n + 1));
        at = at + n + 1;
    }
    false
}

/// A package name is not empty, and every character of it is a letter, a digit, an
/// underscore or a dot.
pub proof fn law_package_name_is_plain(s: Seq<char>)
    requires
        is_package_name(s),
    ensures
        0 < s.len() <= 255,
        is_letter(s[0]),
        forall|i: int| 0 <= i < s.len() ==> is_name_char(#[trigger] s[i]) || s[i] == '.',
{
    lemma_dotted(s);
}

proof fn lemma_dotted(s: Seq<char>)
    requires
        is_dotted_name(s),
    ensures
        s.len() > 0,
        is_letter(s[0]),
        forall|i: int| 0 <= i < s.len() ==> is_name_char(#[trigger] s[i]) || s[i] == '.',
    decreases s.len(),
{
    let n = crate::text::find(s, '.');
    crate::text::lemma_find(s, '.');
    if n < s.len() {
        let a = s.take(n as int);
        let b = s.skip((n + 1) as int);
        lemma_dotted(b);
        assert(s[0] == a[0]);
        assert forall|i: int| 0 <= i < s.len() implies is_name_char(#[trigger] s[i]) || s[i]
            == '.' by {
            if i < n {
                assert(s[i] == a[i]);
                if i > 0 {
                    assert(is_name_char(a[i]));
                }
            } else if i > n {
                assert(s[i] == b[i - n - 1]);
            }
        }
    }
}

/// The arguments that ask adb whether the server stands on the phone.
pub open spec fn jar_test_args(serial: Seq<char>) -> Seq<Seq<char>> {
    seq!["-s"@, serial, "shell"@, "test"@, "-f"@, REMOTE_JAR@]
}

pub fn build_jar_test_args(serial: &str) -> (r: Vec<String>)
    ensures
        crate::text::string_views(r@) == jar_test_args(serial@),
{
    let r = vec![
        "-s".to_owned(),
        serial.to_owned(),
        "shell".to_owned(),
        "test".to_owned(),
        "-f".to_owned(),
        REMOTE_JAR.to_owned(),
    ];
    assert(crate::text::string_views(r@) =~= jar_test_args(serial@));
    r
}

/// The arguments that make adb run the server to list the applications.
pub open spec fn list_apps_args(serial: Seq<char>) -> Seq<Seq<char>> {
    seq![
        "-s"@,
        serial,
        "shell"@,
        "CLASSPATH="@ + REMOTE_JAR@,
        "app_process"@,
        "/"@,
        "com.kulua.server.Server"@,
        "list_apps=true"@,
    ]
}

pub fn build_list_apps_args(serial: &str) -> (r: Vec<String>)
    ensures
        crate::text::string_views(r@) == list_apps_args(serial@),
{
    let r = vec![
        "-s".to_owned(),
        serial.to_owned(),
        "shell".to_owned(),
        cat2("CLASSPATH=", REMOTE_JAR),
        "app_process".to_owned(),
        "/".to_owned(),
        "com.kulua.server.Server".to_owned(),
        "list_apps=true".to_owned(),
    ];
    assert(crate::text::string_views(r@) =~= list_apps_args(serial@));
    r
}

/// What became of the listing that adb ran.
pub enum ListOutcome {
    /// adb ended; what it printed, and what it printed as errors.
    Printed { stdout: Vec<u8>, stderr: Vec<u8> },
    Failed(AdbError),
    /// It did not end in time (in nanoseconds).
    TimedOut(u64),
}

/// The applications of a device, from what adb printed. Both of its streams are read, one
/// after the other.
pub fn list_apps(outcome: ListOutcome) -> (r: Result<Vec<AppInfo>, AdbError>)
    ensures
        match outcome {
            ListOutcome::Printed { stdout, stderr } => r matches Ok(apps) && app_views(apps@)
                == listed(
                crate::text::lossy_text(stdout@) + crate::text::lossy_text(stderr@),
            ),
            ListOutcome::Failed(e) => r == Err::<Vec<AppInfo>, AdbError>(e),
            ListOutcome::TimedOut(t) => r matches Err(AdbError::Other(m)) && m@
                == "list_apps timed out after "@ + crate::text::decimal((t / 1_000_000_000) as nat)
                + "s"@,
        },
{
    match outcome {
        ListOutcome::Printed { stdout, stderr } => {
            let out = text_lossy(stdout.as_slice());
            let err = text_lossy(stderr.as_slice());
            let text = out.concat(err.as_str());
            Ok(parse_apps_output(text.as_str()))
        },
        ListOutcome::Failed(e) => Err(e),
        ListOutcome::TimedOut(t) => Err(
            AdbError::Other(
                crate::text::cat3(
                    "list_apps timed out after ",
                    decimal_text(t / 1_000_000_000).as_str(),
                    "s",
                ),
            ),
        ),
    }
}

/// A list of applications and when it was read.
struct CacheEntry {
    apps: Vec<AppInfo>,
    fetched_at: u64,
}

/// A list of applications and when it was read.
#[verifier::ext_equal]
pub struct Cached {
    pub apps: Seq<App>,
    pub fetched_at: u64,
}

impl View for CacheEntry {
    type V = Cached;

    closed spec fn view(&self) -> Cached {
        Cached { apps: app_views(self.apps@), fetched_at: self.fetched_at }
    }
}

impl Cached {
    /// It is not older than it may be.
    pub open spec fn is_fresh(self, now: u64) -> bool {
        crate::proto::reliable::elapsed(now, self.fetched_at) <= APP_CACHE_TTL
    }
}

/// The lists of applications that have been read, by device.
pub struct AppCache {
    entries: HashMap<u128, CacheEntry>,
}

impl View for AppCache {
    type V = Map<u128, Cached>;

    closed spec fn view(&self) -> Map<u128, Cached> {
        self.entries@.map_values(|e: CacheEntry| e@)
    }
}

impl Default for AppCache {
    fn default() -> (r: Self)
        ensures
            r@ == Map::<u128, Cached>::empty(),
    {
        AppCache::new()
    }
}

impl AppCache {
    pub fn new() -> (r: Self)
        ensures
            r@ == Map::<u128, Cached>::empty(),
    {
        let r = AppCache { entries: HashMap::new() };
        assert(r@ =~= Map::empty());
        r
    }

    /// The list of the device `uuid`, if there is one that is still good at `now`.
    pub fn get(&self, uuid: u128, now: u64) -> (r: Option<&[AppInfo]>)
        ensures
            match r {
                Some(apps) => self@.contains_key(uuid) && self@[uuid].is_fresh(now) && app_views(
                    apps@,
                ) == self@[uuid].apps,
                None => !(self@.contains_key(uuid) && self@[uuid].is_fresh(now)),
            },
    {
        broadcast use vstd::std_specs::hash::group_hash_axioms;

        match self.entries.get(&uuid) {
            Some(e) => {
                if crate::proto::reliable::elapsed_since(now, e.fetched_at) <= APP_CACHE_TTL {
                    Some(e.apps.as_slice())
                } else {
                    None
                }
            },
            None => None,
        }
    }

    /// Keeps the list of the device `uuid`, which was read at `now`.
    pub fn put(&mut self, uuid: u128, apps: Vec<AppInfo>, now: u64)
        ensures
            final(self)@ == old(self)@.insert(
                uuid,
                (Cached { apps: app_views(apps@), fetched_at: now }),
            ),
    {
        broadcast use vstd::std_specs::hash::group_hash_axioms;

        self.entries.insert(uuid, CacheEntry { apps, fetched_at: now });
        assert(self@ =~= old(self)@.insert(
            uuid,
            (Cached { apps: app_views(apps@), fetched_at: now }),
        ));
    }

    /// Forgets the list of the device `uuid`.
    pub fn invalidate(&mut self, uuid: u128)
        ensures
            final(self)@ == old(self)@.remove(uuid),
    {
        broadcast use vstd::std_specs::hash::group_hash_axioms;

        self.entries.remove(&uuid);
        assert(self@ =~= old(self)@.remove(uuid));
    }

    /// Forgets all lists.
    pub fn clear(&mut self)
        ensures
            final(self)@ == Map::<u128, Cached>::empty(),
    {
        broadcast use vstd::std_specs::hash::group_hash_axioms;

        self.entries.clear();
        assert(self@ =~= Map::empty());
    }
}

/// A list that was kept is read back until it is too old, and then never again, however
/// often the clock is read.
pub proof fn law_cache_expires(c: Cached, now: u64, later: u64)
    requires
        now <= later,
        !c.is_fresh(now),
    ensures
        !c.is_fresh(later),
{
}

/// A list that was kept is good for 60 seconds, and no longer.
pub proof fn law_list_is_good_for_a_minute(c: Cached, now: u64)
    requires
        c.fetched_at <= now,
    ensures
        c.is_fresh(now) <==> now - c.fetched_at <= 60_000_000_000,
{
}

/// A package name is made of parts with dots between them, each a letter and then letters, digits and
/// underscores: a part alone is one, a part before another one is one, and a text that begins
/// or ends with a dot is none.
pub proof fn law_parts_make_a_package_name(part: Seq<char>, rest: Seq<char>)
    requires
        part.len() > 0,
        'a' <= part[0] <= 'z' || 'A' <= part[0] <= 'Z',
        forall|i: int|
            0 < i < part.len() ==> ('a' <= #[trigger] part[i] <= 'z' || 'A' <= part[i] <= 'Z' || '0'
                <= part[i] <= '9' || part[i] == '_'),
    ensures
        part.len() <= 255 ==> is_package_name(part),
        part.len() + 1 + rest.len() <= 255 ==> (is_package_name(part + seq!['.'] + rest)
            <==> is_package_name(rest)),
        part.len() + 1 + rest.len() > 255 ==> !is_package_name(part + seq!['.'] + rest),
        !is_package_name(seq!['.'] + rest),
        !is_package_name(part + seq!['.']),
        !is_package_name(Seq::empty()),
{
    reveal_with_fuel(is_dotted_name, 2);
    crate::text::lemma_find(part, '.');
    let s = part + seq!['.'] + rest;
    crate::text::lemma_find(s, '.');
    let n = crate::text::find(s, '.') as int;
    assert(s[part.len() as int] == '.');
    if n < part.len() {
        assert(s[n] == part[n]);
    }
    assert(s.take(n) =~= part);
    assert(s.skip(n + 1) =~= rest);
    let d = seq!['.'] + rest;
    crate::text::lemma_find(d, '.');
    assert(d[0] == '.');
    let e = part + seq!['.'];
    crate::text::lemma_find(e, '.');
    let m = crate::text::find(e, '.') as int;
    assert(e[part.len() as int] == '.');
    if m < part.len() {
        assert(e[m] == part[m]);
    }
    assert(e.skip(m + 1) =~= Seq::empty());
    crate::text::lemma_find(Seq::empty(), '.');
}

/// Nothing but letters, digits, underscores and dots stands in a package name.
pub proof fn law_other_characters_make_no_package_name(s: Seq<char>, i: int)
    requires
        0 <= i < s.len(),
        !('a' <= s[i] <= 'z' || 'A' <= s[i] <= 'Z' || '0' <= s[i] <= '9' || s[i] == '_' || s[i]
            == '.'),
    ensures
        !is_package_name(s),
{
    if is_package_name(s) {
        law_package_name_is_plain(s);
    }
}

/// What is asked of a phone is asked of the one that is named, in its shell: whether the server stands
/// there, and which applications it lists. The server that lists them is the one that was
/// looked for and that a session starts.
pub proof fn law_server_is_the_same_everywhere(serial: Seq<char>, port: u16, codec: Seq<char>, rate: u32)
    ensures
        ({
            let t = jar_test_args(serial);
            let l = list_apps_args(serial);
            let s = crate::scrcpy::server_args(port, codec, rate);
            &&& t.len() == 6 && l.len() == 8
            &&& t.take(3) == seq!["-s"@, serial, "shell"@] && l.take(3) == t.take(3)
            &&& t[3] == "test"@ && t[4] == "-f"@
            &&& l[3] == "CLASSPATH="@ + t[5]
            &&& l.subrange(3, 7) == s.take(4)
            &&& l[7] == "list_apps=true"@
        }),
{
    reveal_strlit("CLASSPATH=");
    reveal_strlit("/data/local/tmp/kulua-server.jar");
    reveal_strlit("CLASSPATH=/data/local/tmp/kulua-server.jar");
    let t = jar_test_args(serial);
    let l = list_apps_args(serial);
    let s = crate::scrcpy::server_args(port, codec, rate);
    assert(t.take(3) =~= seq!["-s"@, serial, "shell"@]);
    assert(l.take(3) =~= t.take(3));
    assert("CLASSPATH="@ + REMOTE_JAR@ =~= "CLASSPATH=/data/local/tmp/kulua-server.jar"@);
    assert(l.subrange(3, 7) =~= s.take(4));
}

} // verus!
