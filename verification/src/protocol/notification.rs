//! What a phone prints of its notifications.
use crate::notification::NotifInfo;
use crate::text::{
    chars_of, contains_chars, find_char, find_chars, split_lines, string_of, trim, word_end,
};
use crate::text_set::TextSet;
use vstd::prelude::*;

verus! {

/// The keys in a list: every line that is not blank is one.
pub open spec fn keys_in(output: Seq<char>) -> Set<Seq<char>> {
    Set::new(
        |k: Seq<char>|
            k.len() > 0 && exists|i: int|
                0 <= i < crate::text::lines(output).len() && k == crate::text::trimmed(
                    #[trigger] crate::text::lines(output)[i],
                ),
    )
}

/// The keys in a list of notifications. Every line that is not blank is one.
pub fn parse_notification_list(output: &str) -> (r: TextSet)
    ensures
        r.wf(),
        r@ == keys_in(output@),
{
    let text = chars_of(output);
    let ls = split_lines(text.as_slice());
    let ghost all = crate::text::texts(ls@);
    let mut r = TextSet::new();
    let mut i: usize = 0;
    while i < ls.len()
        invariant
            i <= ls@.len(),
            all == crate::text::texts(ls@),
            r.wf(),
            forall|k: Seq<char>| #[trigger]
                r@.contains(k) <==> k.len() > 0 && exists|j: int|
                    0 <= j < i && k == crate::text::trimmed(#[trigger] all[j]),
        decreases ls@.len() - i,
    {
        let ghost before = r@;
        let line = trim(ls[i].as_slice());
        assert(all[i as int] == ls@[i as int]@);
        if line.len() > 0 {
            r.insert(string_of(line));
        }
        proof {
            assert forall|k: Seq<char>| #[trigger] r@.contains(k) <==> k.len() > 0 && exists|j: int|
                0 <= j < i + 1 && k == crate::text::trimmed(#[trigger] all[j]) by {
                if r@.contains(k) {
                    if before.contains(k) {
                        let j = choose|j: int|
                            0 <= j < i && k == crate::text::trimmed(#[trigger] all[j]);
                        assert(k == crate::text::trimmed(all[j]));
                    } else {
                        assert(k == crate::text::trimmed(all[i as int]));
                    }
                }
            }
        }
        i += 1;
    }
    assert(r@ =~= keys_in(output@));
    r
}

/// The value in `name=Type (value)`: what stands between the first opening bracket and the
/// closing one at the end, and without brackets all that stands behind the first equals
/// sign. An empty value is none.
pub open spec fn value_of(line: Seq<char>) -> Option<Seq<char>> {
    let eq = crate::text::find(line, '=');
    let v = crate::text::trimmed(line.skip((eq + 1) as int));
    if eq >= line.len() || v.len() == 0 {
        None
    } else if v.last() == ')' && crate::text::find(v, '(') < v.len() {
        let inner = crate::text::trimmed(
            v.subrange(crate::text::find(v, '(') as int + 1, v.len() - 1),
        );
        if inner.len() == 0 {
            None
        } else {
            Some(inner)
        }
    } else {
        Some(v)
    }
}

/// The value of a line.
pub fn extract_string_value(line: &[char]) -> (r: Option<String>)
    ensures
        crate::text::string_view(r) == value_of(line@),
{
    let eq: usize = find_char(line, '=');
    if eq >= line.len() {
        return None;
    }
    let rest = &line[eq + 1..line.len()];
    assert(rest@ =~= line@.skip(eq + 1));
    let v = trim(rest);
    if v.len() == 0 {
        return None;
    }
    if v[v.len() - 1] == ')' {
        let open: usize = find_char(v, '(');
        if open < v.len() {
            proof {
                crate::text::lemma_find(v@, '(');
            }
            let between = &v[open + 1..v.len() - 1];
            assert(between@ =~= v@.subrange(open + 1, v@.len() - 1));
            let inner = trim(between);
            if inner.len() == 0 {
                return None;
            }
            return Some(string_of(inner));
        }
    }
    Some(string_of(v))
}

/// The value of a line that a phone prints is read whole, whatever brackets it holds.
pub proof fn law_value_is_read_back(name: Seq<char>, kind: Seq<char>, value: Seq<char>)
    requires
        !name.contains('='),
        !kind.contains('('),
        kind.len() > 0 ==> !crate::text::is_space(kind[0]),
        value.len() > 0,
        crate::text::trimmed(value) == value,
    ensures
        value_of(name + "="@ + kind + " ("@ + value + ")"@) == Some(value),
{
    reveal_strlit("=");
    reveal_strlit(" (");
    reveal_strlit(")");
    let line = name + "="@ + kind + " ("@ + value + ")"@;
    let n = name.len() as int;
    crate::text::lemma_find(line, '=');
    let eq = crate::text::find(line, '=');
    assert(line[n] == '=');
    assert(eq <= n);
    if eq < n {
        assert(line[eq as int] == name[eq as int]);
        assert(name.contains('='));
    }
    let rest = line.skip(n + 1);
    assert(rest =~= kind + " ("@ + value + ")"@);
    assert(rest.last() == ')');
    let v = if kind.len() == 0 {
        rest.skip(1)
    } else {
        rest
    };
    if kind.len() == 0 {
        assert(rest[0] == ' ');
        assert(v[0] == '(');
        reveal_with_fuel(crate::text::leading_spaces, 2);
    } else {
        assert(rest[0] == kind[0]);
        assert(rest.skip(0) =~= rest);
    }
    assert(rest.skip(crate::text::leading_spaces(rest) as int) == v);
    assert(v.last() == ')');
    assert(crate::text::trimmed(rest) =~= v);
    let open = crate::text::find(v, '(');
    crate::text::lemma_find(v, '(');
    let at: int = if kind.len() == 0 {
        0
    } else {
        kind.len() as int + 1
    };
    assert(v[at] == '(');
    assert(open <= at);
    if open < at {
        if open < kind.len() {
            assert(v[open as int] == kind[open as int]);
            assert(kind.contains('('));
        } else {
            assert(v[open as int] == ' ');
        }
    }
    assert(v.subrange(open as int + 1, v.len() - 1) =~= value);
}

/// The application that a line names: the word behind `pkg=`, unless it is empty.
pub open spec fn package_on(line: Seq<char>) -> Option<Seq<char>> {
    match crate::text::find_text(line, "pkg="@) {
        Some(at) => {
            let rest = line.skip((at + 4) as int);
            let word = rest.take(crate::text::word_len(rest) as int);
            if word.len() > 0 {
                Some(word)
            } else {
                None
            }
        },
        None => None,
    }
}

/// What has been read of a notification.
#[verifier::ext_equal]
pub struct Detail {
    pub package: Option<Seq<char>>,
    pub title: Option<Seq<char>>,
    pub body: Option<Seq<char>>,
}

/// `line` has `part` in it.
pub open spec fn has(line: Seq<char>, part: Seq<char>) -> bool {
    crate::text::find_text(line, part) is Some
}

impl Detail {
    pub open spec fn step(self, raw: Seq<char>) -> Detail {
        let line = crate::text::trimmed(raw);
        let package = if self.package is None {
            package_on(line)
        } else {
            self.package
        };
        if self.title is None && has(line, "android.title="@) {
            Detail { package, title: value_of(line), ..self }
        } else if self.body is None && (has(line, "android.text="@) || has(
            line,
            "android.bigText="@,
        )) {
            Detail { package, body: value_of(line), ..self }
        } else {
            Detail { package, ..self }
        }
    }

    /// What has been read after the lines `ls`.
    pub open spec fn after(ls: Seq<Seq<char>>) -> Detail
        decreases ls.len(),
    {
        if ls.len() == 0 {
            Detail { package: None, title: None, body: None }
        } else {
            Detail::after(ls.drop_last()).step(ls.last())
        }
    }
}

/// The notification that a phone prints for `key`. It must name its application; title and
/// body are the first values that the lines give for them.
pub open spec fn detail(output: Seq<char>, key: Seq<char>) -> Option<crate::notification::Notif> {
    let d = Detail::after(crate::text::lines(output));
    match d.package {
        Some(package) => Some(
            crate::notification::Notif { key, package, title: d.title, body: d.body },
        ),
        None => None,
    }
}

fn find_package(line: &[char], mark: &[char]) -> (r: Option<String>)
    requires
        mark@ == "pkg="@,
        mark@.len() == 4,
    ensures
        crate::text::string_view(r) == package_on(line@),
{
    match find_chars(line, mark) {
        Some(at) => {
            assert(line.len() == line@.len());
            let rest = &line[at + 4..line.len()];
            assert(rest@ =~= line@.skip(at + 4));
            let n: usize = word_end(rest);
            let word = &rest[0..n];
            assert(word@ =~= rest@.take(n as int));
            if word.len() > 0 {
                Some(string_of(word))
            } else {
                None
            }
        },
        None => None,
    }
}

/// Reads what a phone prints for the notification `key`.
pub fn parse_notification_detail(output: &str, key: &str) -> (r: Option<NotifInfo>)
    ensures
        match r {
            Some(n) => detail(output@, key@) == Some(n@),
            None => detail(output@, key@) is None,
        },
{
    let text = chars_of(output);
    let ls = split_lines(text.as_slice());
    let mark = chars_of("pkg=");
    let title_mark = chars_of("android.title=");
    let text_mark = chars_of("android.text=");
    let big_mark = chars_of("android.bigText=");
    let ghost all = crate::text::texts(ls@);
    let mut package: Option<String> = None;
    let mut title: Option<String> = None;
    let mut body: Option<String> = None;
    let mut i: usize = 0;
    proof {
        reveal_strlit("pkg=");
        assert(all.take(0) =~= Seq::empty());
    }
    while i < ls.len()
        invariant
            i <= ls@.len(),
            all == crate::text::texts(ls@),
            mark@ == "pkg="@,
            mark@.len() == 4,
            title_mark@ == "android.title="@,
            text_mark@ == "android.text="@,
            big_mark@ == "android.bigText="@,
            crate::text::string_view(package) == Detail::after(all.take(i as int)).package,
            crate::text::string_view(title) == Detail::after(all.take(i as int)).title,
            crate::text::string_view(body) == Detail::after(all.take(i as int)).body,
        decreases ls@.len() - i,
    {
        proof {
            let t = all.take(i + 1);
            assert(t.drop_last() =~= all.take(i as int));
            assert(t.last() == ls@[i as int]@);
        }
        let line = trim(ls[i].as_slice());
        if package.is_none() {
            package = find_package(line, mark.as_slice());
        }
        if title.is_none() && contains_chars(line, title_mark.as_slice()) {
            title = extract_string_value(line);
        } else if body.is_none() && contains_chars(line, text_mark.as_slice()) {
            body = extract_string_value(line);
        } else if body.is_none() && contains_chars(line, big_mark.as_slice()) {
            body = extract_string_value(line);
        }
        i += 1;
    }
    assert(all.take(i as int) =~= all);
    match package {
        Some(package) => Some(NotifInfo { key: key.to_owned(), package, title, body }),
        None => None,
    }
}

/// The keys of a list that is printed one to a line are read back, whatever white space stands
/// around them; blank lines are none.
pub proof fn law_keys_are_read_back(ls: Seq<Seq<char>>, key: Seq<char>)
    requires
        forall|i: int|
            0 <= i < ls.len() ==> !(#[trigger] ls[i]).contains('\n') && !(ls[i].len() > 0
                && ls[i].last() == '\r'),
    ensures
        keys_in(crate::text::printed(ls)).contains(key) <==> key.len() > 0 && exists|i: int|
            0 <= i < ls.len() && crate::text::trimmed(#[trigger] ls[i]) == key,
{
    crate::text::law_lines_are_read_back(ls);
    assert(crate::text::lines(crate::text::printed(ls)) == ls);
}

/// The application is the word behind the first `pkg=` of a line.
pub proof fn law_application_is_named(a: Seq<char>, name: Seq<char>, rest: Seq<char>)
    requires
        forall|at: int|
            0 <= at < a.len() ==> #[trigger] (a + "pkg="@ + name + " "@ + rest).subrange(
                at,
                at + 4,
            ) != "pkg="@,
        name.len() > 0,
        forall|i: int| 0 <= i < name.len() ==> !crate::text::is_space(#[trigger] name[i]),
    ensures
        package_on(a + "pkg="@ + name + " "@ + rest) == Some(name),
{
    reveal_strlit("pkg=");
    reveal_strlit(" ");
    let line = a + "pkg="@ + name + " "@ + rest;
    let n = a.len() as int;
    assert(line.subrange(n, n + 4) =~= "pkg="@);
    crate::text::law_text_is_found_where_it_first_occurs(line, "pkg="@, n);
    let at = crate::text::find_text(line, "pkg="@)->0 as int;
    if at < n {
        assert(line.subrange(at, at + 4) == "pkg="@);
    }
    let tail = line.skip(n + 4);
    assert(tail =~= name.push(' ') + rest);
    crate::text::law_word_ends_at_white_space(name, ' ', rest);
    assert(tail.take(name.len() as int) =~= name);
}

/// What the lines after the `n`-th say changes nothing that has been read.
proof fn lemma_detail_stays(ls: Seq<Seq<char>>, n: int)
    requires
        0 <= n <= ls.len(),
    ensures
        ({
            let d = Detail::after(ls.take(n));
            let e = Detail::after(ls);
            &&& d.package is Some ==> e.package == d.package
            &&& d.title is Some ==> e.title == d.title
            &&& d.body is Some ==> e.body == d.body
        }),
    decreases ls.len() - n,
{
    if n < ls.len() {
        lemma_detail_stays(ls, n + 1);
        let t = ls.take(n + 1);
        assert(t.drop_last() =~= ls.take(n));
        assert(t.last() == ls[n]);
    } else {
        assert(ls.take(n) =~= ls);
    }
}

proof fn lemma_detail_unread(ls: Seq<Seq<char>>, n: int)
    requires
        0 <= n <= ls.len(),
    ensures
        ({
            let d = Detail::after(ls.take(n));
            &&& (forall|i: int|
                0 <= i < n ==> package_on(crate::text::trimmed(#[trigger] ls[i])) is None)
                ==> d.package is None
            &&& (forall|i: int|
                0 <= i < n ==> crate::text::find_text(crate::text::trimmed(#[trigger] ls[i]), "android.title="@) is None)
                ==> d.title is None
            &&& (forall|i: int|
                0 <= i < n ==> crate::text::find_text(crate::text::trimmed(#[trigger] ls[i]), "android.text="@) is None
                    && crate::text::find_text(crate::text::trimmed(ls[i]), "android.bigText="@) is None) ==> d.body is None
        }),
    decreases n,
{
    if n > 0 {
        lemma_detail_unread(ls, n - 1);
        let t = ls.take(n);
        assert(t.drop_last() =~= ls.take(n - 1));
        assert(t.last() == ls[n - 1]);
    } else {
        assert(ls.take(0) =~= Seq::empty());
    }
}

proof fn lemma_package_is_read(ls: Seq<Seq<char>>, p: int)
    requires
        0 <= p < ls.len(),
        forall|i: int| 0 <= i < p ==> package_on(crate::text::trimmed(#[trigger] ls[i])) is None,
        package_on(crate::text::trimmed(ls[p])) is Some,
    ensures
        Detail::after(ls).package == package_on(crate::text::trimmed(ls[p])),
{
    lemma_detail_unread(ls, p);
    let u = ls.take(p + 1);
    assert(u.drop_last() =~= ls.take(p));
    assert(u.last() == ls[p]);
    lemma_detail_stays(ls, p + 1);
}

proof fn lemma_title_is_read(ls: Seq<Seq<char>>, t: int)
    requires
        0 <= t <= ls.len(),
        forall|i: int|
            0 <= i < t ==> crate::text::find_text(
                crate::text::trimmed(#[trigger] ls[i]),
                "android.title="@,
            ) is None,
        t < ls.len() ==> crate::text::find_text(
            crate::text::trimmed(ls[t]),
            "android.title="@,
        ) is Some && value_of(crate::text::trimmed(ls[t])) is Some,
    ensures
        Detail::after(ls).title == if t < ls.len() {
            value_of(crate::text::trimmed(ls[t]))
        } else {
            None
        },
{
    lemma_detail_unread(ls, t);
    if t < ls.len() {
        let u = ls.take(t + 1);
        assert(u.drop_last() =~= ls.take(t));
        assert(u.last() == ls[t]);
        lemma_detail_stays(ls, t + 1);
    } else {
        assert(ls.take(t) =~= ls);
    }
}

proof fn lemma_body_is_read(ls: Seq<Seq<char>>, b: int)
    requires
        0 <= b <= ls.len(),
        forall|i: int|
            0 <= i < b ==> crate::text::find_text(
                crate::text::trimmed(#[trigger] ls[i]),
                "android.text="@,
            ) is None && crate::text::find_text(
                crate::text::trimmed(ls[i]),
                "android.bigText="@,
            ) is None,
        b < ls.len() ==> crate::text::find_text(
            crate::text::trimmed(ls[b]),
            "android.title="@,
        ) is None && (crate::text::find_text(
            crate::text::trimmed(ls[b]),
            "android.text="@,
        ) is Some || crate::text::find_text(
            crate::text::trimmed(ls[b]),
            "android.bigText="@,
        ) is Some) && value_of(crate::text::trimmed(ls[b])) is Some,
    ensures
        Detail::after(ls).body == if b < ls.len() {
            value_of(crate::text::trimmed(ls[b]))
        } else {
            None
        },
{
    lemma_detail_unread(ls, b);
    if b < ls.len() {
        let u = ls.take(b + 1);
        assert(u.drop_last() =~= ls.take(b));
        assert(u.last() == ls[b]);
        lemma_detail_stays(ls, b + 1);
    } else {
        assert(ls.take(b) =~= ls);
    }
}

/// What a phone prints of a notification says which application sent it and what it reads: the
/// application is named on line `p`, the title stands on line `t`, the body on line `b`, and no
/// line before them speaks of the same. Without a line that names the application there is no
/// notification; without a title or a body it has none.
pub proof fn law_notification_is_read(
    ls: Seq<Seq<char>>,
    key: Seq<char>,
    p: int,
    t: int,
    b: int,
)
    requires
        forall|i: int|
            0 <= i < ls.len() ==> !(#[trigger] ls[i]).contains('\n') && !(ls[i].len() > 0
                && ls[i].last() == '\r'),
        0 <= p < ls.len(),
        0 <= t <= ls.len(),
        0 <= b <= ls.len(),
        forall|i: int| 0 <= i < p ==> package_on(crate::text::trimmed(#[trigger] ls[i])) is None,
        forall|i: int|
            0 <= i < t ==> crate::text::find_text(crate::text::trimmed(#[trigger] ls[i]), "android.title="@) is None,
        forall|i: int|
            0 <= i < b ==> crate::text::find_text(crate::text::trimmed(#[trigger] ls[i]), "android.text="@) is None && crate::text::find_text(
                crate::text::trimmed(ls[i]),
                "android.bigText="@,
            ) is None,
        package_on(crate::text::trimmed(ls[p])) is Some,
        t < ls.len() ==> crate::text::find_text(crate::text::trimmed(ls[t]), "android.title="@) is Some && value_of(
            crate::text::trimmed(ls[t]),
        ) is Some,
        b < ls.len() ==> crate::text::find_text(crate::text::trimmed(ls[b]), "android.title="@) is None && (crate::text::find_text(
            crate::text::trimmed(ls[b]),
            "android.text="@,
        ) is Some || crate::text::find_text(crate::text::trimmed(ls[b]), "android.bigText="@) is Some) && value_of(
            crate::text::trimmed(ls[b]),
        ) is Some,
    ensures
        detail(crate::text::printed(ls), key) == Some(
            crate::notification::Notif {
                key,
                package: package_on(crate::text::trimmed(ls[p]))->0,
                title: if t < ls.len() {
                    value_of(crate::text::trimmed(ls[t]))
                } else {
                    None
                },
                body: if b < ls.len() {
                    value_of(crate::text::trimmed(ls[b]))
                } else {
                    None
                },
            },
        ),
{
    crate::text::law_lines_are_read_back(ls);
    lemma_package_is_read(ls, p);
    lemma_title_is_read(ls, t);
    lemma_body_is_read(ls, b);
}

/// A value without a closing bracket at its end is read as it stands behind the first equals sign;
/// nothing behind it is no value, and neither is a line without an equals sign.
pub proof fn law_plain_value_is_read_back(name: Seq<char>, value: Seq<char>)
    requires
        !name.contains('='),
        crate::text::trimmed(value) == value,
        value.len() > 0 ==> value.last() != ')',
    ensures
        value.len() > 0 ==> value_of(name + seq!['='] + value) == Some(value),
        value.len() == 0 ==> value_of(name + seq!['='] + value) is None,
        value_of(name) is None,
{
    let line = name + seq!['='] + value;
    let n = name.len() as int;
    crate::text::lemma_find(line, '=');
    crate::text::lemma_find(name, '=');
    let eq = crate::text::find(line, '=');
    assert(line[n] == '=');
    if eq < n {
        assert(line[eq as int] == name[eq as int]);
        assert(name.contains('='));
    }
    let k = crate::text::find(name, '=');
    if k < n {
        assert(name[k as int] == '=');
        assert(name.contains('='));
    }
    assert(line.skip(n + 1) =~= value);
}

/// A value that ends in a bracket that was never opened is read as it stands.
pub proof fn law_unopened_bracket_is_kept(name: Seq<char>, value: Seq<char>)
    requires
        !name.contains('='),
        crate::text::trimmed(value) == value,
        value.len() > 0,
        !value.contains('('),
    ensures
        value_of(name + seq!['='] + value) == Some(value),
{
    let line = name + seq!['='] + value;
    let n = name.len() as int;
    crate::text::lemma_find(line, '=');
    let eq = crate::text::find(line, '=');
    assert(line[n] == '=');
    if eq < n {
        assert(line[eq as int] == name[eq as int]);
        assert(name.contains('='));
    }
    assert(line.skip(n + 1) =~= value);
    crate::text::lemma_find(value, '(');
    let k = crate::text::find(value, '(');
    if k < value.len() {
        assert(value.contains(value[k as int]));
    }
}

} // verus!
