//! Text, as sequences of characters: searching, cutting, numbers.
use vstd::prelude::*;
use vstd::string::StringExecFns;

verus! {

/// `std::string::String::push` appends the character.
pub assume_specification[ String::push ](s: &mut String, c: char)
    ensures
        final(s)@ == old(s)@.push(c),
;

/// The characters of `s`.
pub fn chars_of(s: &str) -> (r: Vec<char>)
    ensures
        r@ == s@,
{
    let mut r: Vec<char> = Vec::new();
    for c in it: s.chars()
        invariant
            r@.len() == it.index(),
            it.seq() == s@,
            forall|j: int| 0 <= j < r@.len() ==> #[trigger] r@[j] == s@[j],
    {
        r.push(c);
    }
    assert(r@ =~= s@);
    r
}

/// The text that the characters `v` spell.
pub fn string_of(v: &[char]) -> (r: String)
    ensures
        r@ == v@,
{
    let mut r = String::new();
    let mut i: usize = 0;
    while i < v.len()
        invariant
            i <= v@.len(),
            r@ == v@.take(i as int),
        decreases v@.len() - i,
    {
        r.push(v[i]);
        i += 1;
        assert(r@ =~= v@.take(i as int));
    }
    assert(v@.take(i as int) =~= v@);
    r
}

/// Whether the two texts are the same.
pub fn same(a: &str, b: &str) -> (r: bool)
    ensures
        r == (a@ == b@),
{
    a.to_owned() == b.to_owned()
}

/// `a` followed by `b`.
pub fn cat2(a: &str, b: &str) -> (r: String)
    ensures
        r@ == a@ + b@,
{
    a.to_owned().concat(b)
}

/// `a`, `b` and `c`, one after the other.
pub fn cat3(a: &str, b: &str, c: &str) -> (r: String)
    ensures
        r@ == a@ + b@ + c@,
{
    a.to_owned().concat(b).concat(c)
}

/// The decimal digits of `n`, without leading zeros.
pub open spec fn decimal(n: nat) -> Seq<char>
    decreases n,
{
    if n < 10 {
        seq![digit(n)]
    } else {
        decimal(n / 10).push(digit(n % 10))
    }
}

/// The decimal digit of value `d`.
pub open spec fn digit(d: nat) -> char {
    ('0' as u32 + d) as char
}

fn digit_char(d: u64) -> (c: char)
    requires
        d < 10,
    ensures
        c == digit(d as nat),
{
    (48 + d as u8) as char
}

/// The decimal digits of `n`.
pub fn decimal_text(n: u64) -> (r: String)
    ensures
        r@ == decimal(n as nat),
    decreases n,
{
    if n < 10 {
        let mut r = String::new();
        r.push(digit_char(n));
        assert(r@ =~= decimal(n as nat));
        r
    } else {
        let mut r = decimal_text(n / 10);
        r.push(digit_char(n % 10));
        r
    }
}

/// The decimal digits of `n`, after a minus sign where it is negative.
pub open spec fn signed(n: int) -> Seq<char> {
    if n < 0 {
        "-"@ + decimal((-n) as nat)
    } else {
        decimal(n as nat)
    }
}

/// The decimal digits of `n`, after a minus sign where it is negative.
pub fn signed_text(n: i32) -> (r: String)
    ensures
        r@ == signed(n as int),
{
    if n < 0 {
        cat2("-", decimal_text((-(n as i64)) as u64).as_str())
    } else {
        decimal_text(n as u64)
    }
}

/// The characters with the Unicode property White_Space.
pub open spec fn is_space(c: char) -> bool {
    let u = c as u32;
    ||| 0x09 <= u <= 0x0D
    ||| u == 0x20
    ||| u == 0x85
    ||| u == 0xA0
    ||| u == 0x1680
    ||| 0x2000 <= u <= 0x200A
    ||| u == 0x2028
    ||| u == 0x2029
    ||| u == 0x202F
    ||| u == 0x205F
    ||| u == 0x3000
}

pub fn space(c: char) -> (r: bool)
    ensures
        r == is_space(c),
{
    let u: u32 = c as u32;
    (0x09 <= u && u <= 0x0D) || u == 0x20 || u == 0x85 || u == 0xA0 || u == 0x1680 || (0x2000 <= u
        && u <= 0x200A) || u == 0x2028 || u == 0x2029 || u == 0x202F || u == 0x205F || u == 0x3000
}

/// How many white-space characters `s` starts with.
pub open spec fn leading_spaces(s: Seq<char>) -> nat
    decreases s.len(),
{
    if s.len() > 0 && is_space(s.first()) {
        1 + leading_spaces(s.skip(1))
    } else {
        0
    }
}

/// How many white-space characters `s` ends with.
pub open spec fn trailing_spaces(s: Seq<char>) -> nat
    decreases s.len(),
{
    if s.len() > 0 && is_space(s.last()) {
        1 + trailing_spaces(s.drop_last())
    } else {
        0
    }
}

/// `s` without white space at either end.
pub open spec fn trimmed(s: Seq<char>) -> Seq<char> {
    let t = s.skip(leading_spaces(s) as int);
    t.take(t.len() - trailing_spaces(t))
}

proof fn lemma_spaces_bound(s: Seq<char>)
    ensures
        leading_spaces(s) <= s.len(),
        trailing_spaces(s) <= s.len(),
    decreases s.len(),
{
    if s.len() > 0 {
        lemma_spaces_bound(s.skip(1));
        lemma_spaces_bound(s.drop_last());
    }
}

/// `s` without white space at either end.
pub fn trim(s: &[char]) -> (r: &[char])
    ensures
        r@ == trimmed(s@),
{
    let mut a: usize = 0;
    assert(s@.skip(0) =~= s@);
    while a < s.len() && space(s[a])
        invariant
            a <= s@.len(),
            leading_spaces(s@) == a + leading_spaces(s@.skip(a as int)),
        decreases s@.len() - a,
    {
        assert(s@.skip(a as int).skip(1) =~= s@.skip(a + 1));
        a += 1;
    }
    let mut b: usize = s.len();
    let ghost t = s@.skip(a as int);
    assert(t.take(t.len() as int) =~= t);
    while b > a && space(s[b - 1])
        invariant
            a <= b <= s@.len(),
            t == s@.skip(a as int),
            trailing_spaces(t) == s@.len() - b + trailing_spaces(t.take(b - a)),
        decreases b - a,
    {
        assert(t.take(b - a).drop_last() =~= t.take(b - a - 1));
        assert(t.take(b - a).last() == s@[b - 1]);
        b -= 1;
    }
    proof {
        if b > a {
            assert(t.take(b - a).last() == s@[b - 1]);
        }
        assert(s@.subrange(a as int, b as int) =~= trimmed(s@));
    }
    &s[a..b]
}

/// `s` without white space at its end.
pub open spec fn trimmed_end(s: Seq<char>) -> Seq<char> {
    s.take(s.len() - trailing_spaces(s))
}

/// `s` without white space at its end.
pub fn trim_end(s: &[char]) -> (r: &[char])
    ensures
        r@ == trimmed_end(s@),
{
    let mut b: usize = s.len();
    assert(s@.take(b as int) =~= s@);
    while b > 0 && space(s[b - 1])
        invariant
            b <= s@.len(),
            trailing_spaces(s@) == s@.len() - b + trailing_spaces(s@.take(b as int)),
        decreases b,
    {
        assert(s@.take(b as int).drop_last() =~= s@.take(b - 1));
        assert(s@.take(b as int).last() == s@[b - 1]);
        b -= 1;
    }
    proof {
        if b > 0 {
            assert(s@.take(b as int).last() == s@[b - 1]);
        }
        assert(s@.subrange(0, b as int) =~= trimmed_end(s@));
    }
    &s[0..b]
}

/// The place of the first `c` in `s`; its length where there is none.
pub open spec fn find(s: Seq<char>, c: char) -> nat
    decreases s.len(),
{
    if s.len() == 0 || s.first() == c {
        0
    } else {
        1 + find(s.skip(1), c)
    }
}

pub proof fn lemma_find(s: Seq<char>, c: char)
    ensures
        find(s, c) <= s.len(),
        find(s, c) < s.len() ==> s[find(s, c) as int] == c,
        forall|i: int| 0 <= i < find(s, c) ==> #[trigger] s[i] != c,
    decreases s.len(),
{
    if s.len() > 0 && s.first() != c {
        lemma_find(s.skip(1), c);
        assert forall|i: int| 0 <= i < find(s, c) implies #[trigger] s[i] != c by {
            if i > 0 {
                assert(s.skip(1)[i - 1] == s[i]);
            }
        }
    }
}

/// The place of the first `c` in `s`; its length where there is none.
pub fn find_char(s: &[char], c: char) -> (r: usize)
    ensures
        r == find(s@, c),
        r <= s@.len(),
        r < s@.len() ==> s@[r as int] == c,
{
    let mut i: usize = 0;
    assert(s@.skip(0) =~= s@);
    while i < s.len() && s[i] != c
        invariant
            i <= s@.len(),
            find(s@, c) == i + find(s@.skip(i as int), c),
        decreases s@.len() - i,
    {
        assert(s@.skip(i as int).skip(1) =~= s@.skip(i + 1));
        i += 1;
    }
    i
}

/// One past the place of the last `c` in `s`; 0 where there is none.
pub open spec fn rfind_end(s: Seq<char>, c: char) -> nat
    decreases s.len(),
{
    if s.len() == 0 {
        0
    } else if s.last() == c {
        s.len()
    } else {
        rfind_end(s.drop_last(), c)
    }
}

/// One past the place of the last `c` in `s`; 0 where there is none.
pub fn rfind_char(s: &[char], c: char) -> (r: usize)
    ensures
        r == rfind_end(s@, c),
        r <= s@.len(),
        r > 0 ==> s@[r - 1] == c,
{
    let mut i: usize = s.len();
    assert(s@.take(i as int) =~= s@);
    while i > 0 && s[i - 1] != c
        invariant
            i <= s@.len(),
            rfind_end(s@, c) == rfind_end(s@.take(i as int), c),
        decreases i,
    {
        assert(s@.take(i as int).drop_last() =~= s@.take(i - 1));
        i -= 1;
    }
    i
}

/// `s` begins with `p`.
pub open spec fn has_prefix(s: Seq<char>, p: Seq<char>) -> bool {
    p.len() <= s.len() && s.take(p.len() as int) == p
}

/// `s` begins with `p`.
pub fn starts_with(s: &[char], p: &[char]) -> (r: bool)
    ensures
        r == has_prefix(s@, p@),
{
    if s.len() < p.len() {
        return false;
    }
    let mut i: usize = 0;
    while i < p.len()
        invariant
            i <= p@.len() <= s@.len(),
            forall|j: int| 0 <= j < i ==> s@[j] == p@[j],
        decreases p@.len() - i,
    {
        if s[i] != p[i] {
            assert(s@.take(p@.len() as int)[i as int] != p@[i as int]);
            return false;
        }
        i += 1;
    }
    assert(s@.take(p@.len() as int) =~= p@);
    true
}

/// The two texts are the same.
pub fn same_chars(a: &[char], b: &[char]) -> (r: bool)
    ensures
        r == (a@ == b@),
{
    if a.len() == b.len() && starts_with(a, b) {
        assert(a@.take(b@.len() as int) =~= a@);
        true
    } else {
        proof {
            if a@ == b@ {
                assert(a@.take(b@.len() as int) =~= a@);
            }
        }
        false
    }
}

/// The place of the first occurrence of `p` in `s`.
pub open spec fn find_text(s: Seq<char>, p: Seq<char>) -> Option<nat>
    decreases s.len(),
{
    if has_prefix(s, p) {
        Some(0)
    } else if s.len() == 0 {
        None
    } else {
        match find_text(s.skip(1), p) {
            Some(i) => Some(i + 1),
            None => None,
        }
    }
}

pub proof fn lemma_find_text(s: Seq<char>, p: Seq<char>)
    ensures
        find_text(s, p) matches Some(i) ==> i + p.len() <= s.len() && has_prefix(
            s.skip(i as int),
            p,
        ),
    decreases s.len(),
{
    if has_prefix(s, p) {
        assert(s.skip(0) =~= s);
    } else if s.len() > 0 {
        lemma_find_text(s.skip(1), p);
        if let Some(i) = find_text(s.skip(1), p) {
            assert(s.skip(1).skip(i as int) =~= s.skip((i + 1) as int));
        }
    }
}

/// The place of the first occurrence of `p` in `s`.
pub fn find_chars(s: &[char], p: &[char]) -> (r: Option<usize>)
    ensures
        match r {
            Some(i) => find_text(s@, p@) == Some(i as nat) && i + p@.len() <= s@.len(),
            None => find_text(s@, p@) is None,
        },
{
    let mut i: usize = 0;
    assert(s@.skip(0) =~= s@);
    while i <= s.len()
        invariant
            i <= s@.len() + 1,
            i <= s@.len() ==> find_text(s@, p@) == match find_text(s@.skip(i as int), p@) {
                Some(k) => Some(k + i as nat),
                None => None,
            },
            i == s@.len() + 1 ==> find_text(s@, p@) is None,
        decreases s@.len() + 1 - i,
    {
        let rest = &s[i..s.len()];
        assert(rest@ =~= s@.skip(i as int));
        if starts_with(rest, p) {
            return Some(i);
        }
        if i == s.len() {
            return None;
        }
        assert(s@.skip(i as int).skip(1) =~= s@.skip(i + 1));
        i += 1;
    }
    None
}

/// `p` occurs in `s`.
pub fn contains_chars(s: &[char], p: &[char]) -> (r: bool)
    ensures
        r == (find_text(s@, p@) is Some),
{
    find_chars(s, p).is_some()
}

/// The texts that a list holds.
pub open spec fn texts(v: Seq<Vec<char>>) -> Seq<Seq<char>> {
    v.map_values(|x: Vec<char>| x@)
}

/// A copy of `s`.
pub fn copy_chars(s: &[char]) -> (r: Vec<char>)
    ensures
        r@ == s@,
{
    let mut r: Vec<char> = Vec::new();
    let mut i: usize = 0;
    while i < s.len()
        invariant
            i <= s@.len(),
            r@ == s@.take(i as int),
        decreases s@.len() - i,
    {
        r.push(s[i]);
        i += 1;
        assert(r@ =~= s@.take(i as int));
    }
    assert(s@.take(i as int) =~= s@);
    r
}

/// A line that ended in a line feed, without the carriage return before it.
pub open spec fn without_return(s: Seq<char>) -> Seq<char> {
    if s.len() > 0 && s.last() == '\r' {
        s.drop_last()
    } else {
        s
    }
}

/// The lines of `s`. A line ends in a line feed, before which one carriage return is
/// dropped; the last line need not have one.
pub open spec fn lines(s: Seq<char>) -> Seq<Seq<char>>
    decreases s.len(),
{
    if s.len() == 0 {
        Seq::empty()
    } else {
        let n = find(s, '\n');
        if n < s.len() {
            seq![without_return(s.take(n as int))] + lines(s.skip((n + 1) as int))
        } else {
            seq![s]
        }
    }
}

/// The lines of `s`.
pub fn split_lines(s: &[char]) -> (r: Vec<Vec<char>>)
    ensures
        texts(r@) == lines(s@),
{
    let mut r: Vec<Vec<char>> = Vec::new();
    let mut at: usize = 0;
    assert(s@.skip(0) =~= s@);
    assert(texts(r@) + lines(s@) =~= lines(s@));
    while at < s.len()
        invariant
            at <= s@.len(),
            lines(s@) == texts(r@) + lines(s@.skip(at as int)),
        decreases s@.len() - at,
    {
        let ghost done = r@;
        let rest = &s[at..s.len()];
        assert(rest@ =~= s@.skip(at as int));
        let n: usize = find_char(rest, '\n');
        if n < rest.len() {
            let mut end: usize = n;
            if n > 0 && rest[n - 1] == '\r' {
                end = n - 1;
            }
            let line = copy_chars(&rest[0..end]);
            proof {
                assert(line@ =~= without_return(rest@.take(n as int)));
                assert(rest@.skip(n + 1) =~= s@.skip(at + n + 1));
            }
            r.push(line);
            proof {
                assert(texts(r@) =~= texts(done).push(line@));
                assert(texts(r@) + lines(s@.skip(at + n + 1)) =~= texts(done) + (seq![line@]
                    + lines(s@.skip(at + n + 1))));
            }
            at = at + n + 1;
        } else {
            let line = copy_chars(rest);
            r.push(line);
            proof {
                assert(texts(r@) =~= texts(done).push(line@));
                assert(s@.skip(s@.len() as int) =~= Seq::empty());
                assert(texts(r@) + Seq::<Seq<char>>::empty() =~= texts(done) + seq![line@]);
            }
            at = s.len();
        }
    }
    assert(s@.skip(at as int) =~= Seq::empty());
    assert(texts(r@) + Seq::<Seq<char>>::empty() =~= texts(r@));
    r
}

/// How many characters `s` has before its first white space.
pub open spec fn word_len(s: Seq<char>) -> nat
    decreases s.len(),
{
    if s.len() == 0 || is_space(s.first()) {
        0
    } else {
        1 + word_len(s.skip(1))
    }
}

/// The words of `s`: what stands between white space.
pub open spec fn words(s: Seq<char>) -> Seq<Seq<char>>
    decreases s.len(),
{
    if s.len() == 0 {
        Seq::empty()
    } else if is_space(s.first()) {
        words(s.skip(1))
    } else {
        let n = word_len(s);
        if n > 0 && n <= s.len() {
            seq![s.take(n as int)] + words(s.skip(n as int))
        } else {
            Seq::empty()
        }
    }
}

/// How many characters `s` has before its first white space.
pub fn word_end(s: &[char]) -> (r: usize)
    ensures
        r == word_len(s@),
        r <= s@.len(),
{
    let mut i: usize = 0;
    assert(s@.skip(0) =~= s@);
    while i < s.len() && !space(s[i])
        invariant
            i <= s@.len(),
            word_len(s@) == i + word_len(s@.skip(i as int)),
        decreases s@.len() - i,
    {
        assert(s@.skip(i as int).skip(1) =~= s@.skip(i + 1));
        i += 1;
    }
    i
}

/// The words of `s`.
pub fn split_words(s: &[char]) -> (r: Vec<Vec<char>>)
    ensures
        texts(r@) == words(s@),
{
    let mut r: Vec<Vec<char>> = Vec::new();
    let mut at: usize = 0;
    assert(s@.skip(0) =~= s@);
    assert(texts(r@) + words(s@) =~= words(s@));
    while at < s.len()
        invariant
            at <= s@.len(),
            words(s@) == texts(r@) + words(s@.skip(at as int)),
        decreases s@.len() - at,
    {
        let ghost done = r@;
        let ghost left = s@.skip(at as int);
        if space(s[at]) {
            assert(left.skip(1) =~= s@.skip(at + 1));
            at += 1;
        } else {
            let rest = &s[at..s.len()];
            assert(rest@ =~= left);
            let n: usize = word_end(rest);
            assert(n > 0);
            let word = copy_chars(&rest[0..n]);
            r.push(word);
            proof {
                assert(word@ =~= left.take(n as int));
                assert(left.skip(n as int) =~= s@.skip(at + n));
                assert(texts(r@) =~= texts(done).push(word@));
                assert(texts(r@) + words(s@.skip(at + n)) =~= texts(done) + (seq![word@] + words(
                    s@.skip(at + n),
                )));
            }
            at = at + n;
        }
    }
    assert(s@.skip(at as int) =~= Seq::empty());
    assert(texts(r@) + Seq::<Seq<char>>::empty() =~= texts(r@));
    r
}

pub open spec fn is_digit(c: char) -> bool {
    '0' <= c <= '9'
}

pub open spec fn digit_value(c: char) -> nat {
    (c as u32 - '0' as u32) as nat
}

pub open spec fn all_digits(s: Seq<char>) -> bool {
    forall|i: int| 0 <= i < s.len() ==> is_digit(#[trigger] s[i])
}

/// The number that the decimal digits `s` spell.
pub open spec fn digits_value(s: Seq<char>) -> nat
    decreases s.len(),
{
    if s.len() == 0 {
        0
    } else {
        digits_value(s.drop_last()) * 10 + digit_value(s.last())
    }
}

/// What a number looks like in text: digits, with at most one plus sign before them.
pub open spec fn number_digits(s: Seq<char>) -> Seq<char> {
    if s.len() > 0 && s.first() == '+' {
        s.skip(1)
    } else {
        s
    }
}

/// The number that `s` spells, where it spells one that is at most `max`.
pub open spec fn number(s: Seq<char>, max: nat) -> Option<nat> {
    let d = number_digits(s);
    if d.len() > 0 && all_digits(d) && digits_value(d) <= max {
        Some(digits_value(d))
    } else {
        None
    }
}

proof fn lemma_digits_grow(s: Seq<char>, k: int)
    requires
        0 <= k <= s.len(),
        all_digits(s),
    ensures
        digits_value(s.take(k)) <= digits_value(s),
    decreases s.len() - k,
{
    if k < s.len() {
        lemma_digits_grow(s, k + 1);
        assert(s.take(k + 1).drop_last() =~= s.take(k));
    } else {
        assert(s.take(k) =~= s);
    }
}

/// The number that `s` spells, where it spells one that is at most `max`.
pub fn parse_number(s: &[char], max: u64) -> (r: Option<u64>)
    ensures
        match r {
            Some(n) => number(s@, max as nat) == Some(n as nat),
            None => number(s@, max as nat) is None,
        },
{
    let from: usize = if s.len() > 0 && s[0] == '+' {
        1
    } else {
        0
    };
    let d = &s[from..s.len()];
    assert(d@ =~= number_digits(s@));
    if d.len() == 0 {
        return None;
    }
    let mut n: u64 = 0;
    let mut i: usize = 0;
    while i < d.len()
        invariant
            i <= d@.len(),
            d@ == number_digits(s@),
            d@.len() > 0,
            n <= max,
            forall|j: int| 0 <= j < i ==> is_digit(#[trigger] d@[j]),
            n == digits_value(d@.take(i as int)),
        decreases d@.len() - i,
    {
        let c: char = d[i];
        if c < '0' || c > '9' {
            assert(!is_digit(d@[i as int]));
            return None;
        }
        let v: u64 = c as u64 - 48;
        assert(d@.take(i + 1).drop_last() =~= d@.take(i as int));
        assert(digits_value(d@.take(i + 1)) == n * 10 + v);
        if n > max / 10 || v > max - n * 10 {
            proof {
                if all_digits(d@) {
                    lemma_digits_grow(d@, i + 1);
                }
            }
            return None;
        }
        n = n * 10 + v;
        i += 1;
    }
    assert(d@.take(i as int) =~= d@);
    Some(n)
}

/// A number that was written down is read back.
pub proof fn law_number_of_decimal(n: nat, max: nat)
    requires
        n <= max,
    ensures
        number(decimal(n), max) == Some(n),
{
    lemma_decimal(n);
    let d = decimal(n);
    assert(is_digit(d[0]));
    assert(number_digits(d) == d);
}

proof fn lemma_decimal(n: nat)
    ensures
        decimal(n).len() > 0,
        all_digits(decimal(n)),
        digits_value(decimal(n)) == n,
    decreases n,
{
    let d = decimal(n);
    reveal_with_fuel(digits_value, 2);
    if n >= 10 {
        lemma_decimal(n / 10);
        assert(d.drop_last() =~= decimal(n / 10));
        assert forall|i: int| 0 <= i < d.len() implies is_digit(#[trigger] d[i]) by {
            if i < d.len() - 1 {
                assert(d[i] == decimal(n / 10)[i]);
            }
        }
    } else {
        assert(d.drop_last() =~= Seq::empty());
    }
}

/// The lower-case hexadecimal digit of value `d`.
pub open spec fn hex_digit(d: nat) -> char {
    if d < 10 {
        ('0' as u32 + d) as char
    } else {
        ('a' as u32 + (d - 10)) as char
    }
}

/// The `width` low hexadecimal digits of `n`, in lower case.
pub open spec fn hex(n: nat, width: nat) -> Seq<char>
    decreases width,
{
    if width == 0 {
        Seq::empty()
    } else {
        hex(n / 16, (width - 1) as nat).push(hex_digit(n % 16))
    }
}

/// The `width` low hexadecimal digits of `n`, in lower case.
pub fn hex_text(n: u64, width: usize) -> (r: String)
    ensures
        r@ == hex(n as nat, width as nat),
    decreases width,
{
    if width == 0 {
        String::new()
    } else {
        let mut r = hex_text(n / 16, width - 1);
        let d: u8 = (n % 16) as u8;
        let c: char = if d < 10 {
            (48 + d) as char
        } else {
            (97 + (d - 10)) as char
        };
        r.push(c);
        r
    }
}

pub proof fn lemma_hex_len(n: nat, width: nat)
    ensures
        hex(n, width).len() == width,
    decreases width,
{
    if width > 0 {
        lemma_hex_len(n / 16, (width - 1) as nat);
    }
}

/// 16 to the power of `width`.
pub open spec fn pow16(width: nat) -> nat
    decreases width,
{
    if width == 0 {
        1
    } else {
        16 * pow16((width - 1) as nat)
    }
}

/// Two numbers that fit into `width` digits have different digits.
pub proof fn lemma_hex_injective(a: nat, b: nat, width: nat)
    requires
        a < pow16(width),
        b < pow16(width),
        hex(a, width) == hex(b, width),
    ensures
        a == b,
    decreases width,
{
    if width > 0 {
        let w = (width - 1) as nat;
        let x = hex(a, width);
        let y = hex(b, width);
        assert(x.drop_last() =~= hex(a / 16, w));
        assert(y.drop_last() =~= hex(b / 16, w));
        assert(x.last() == hex_digit(a % 16));
        assert(y.last() == hex_digit(b % 16));
        lemma_hex_injective(a / 16, b / 16, w);
    }
}

/// What bytes are read as where those that are no text are replaced.
pub uninterp spec fn lossy_text(b: Seq<u8>) -> Seq<char>;

/// `std::string::String::from_utf8_lossy`: valid UTF-8 is read as it is, and every
/// sequence that is not valid is replaced by U+FFFD.
#[verifier::external_body]
pub(crate) fn text_lossy(b: &[u8]) -> (r: String)
    ensures
        r@ == lossy_text(b@),
        vstd::utf8::valid_utf8(b@) ==> r@ == vstd::utf8::decode_utf8(b@),
{
    String::from_utf8_lossy(b).into_owned()
}

/// What the error of reading bytes that are no UTF-8 says.
pub uninterp spec fn utf8_fault(b: Seq<u8>) -> Seq<char>;

/// `std::string::String::from_utf8`: the text that the bytes encode, where they are valid
/// UTF-8, and else what its error says.
#[verifier::external_body]
pub(crate) fn text_strict(b: Vec<u8>) -> (r: Result<String, String>)
    ensures
        r is Ok <==> vstd::utf8::valid_utf8(b@),
        r matches Ok(s) ==> s@ == vstd::utf8::decode_utf8(b@),
        r matches Err(e) ==> e@ == utf8_fault(b@),
{
    String::from_utf8(b).map_err(|e| e.to_string())
}

/// The texts of a list of strings.
pub open spec fn string_views(v: Seq<String>) -> Seq<Seq<char>> {
    v.map_values(|s: String| s@)
}

/// The text of a string that need not be there.
pub open spec fn string_view(o: Option<String>) -> Option<Seq<char>> {
    match o {
        Some(s) => Some(s@),
        None => None,
    }
}

/// A copy of `s`.
pub fn copy_text(s: &String) -> (r: String)
    ensures
        r@ == s@,
{
    s.as_str().to_owned()
}

/// A copy of `o`.
pub fn copy_option(o: &Option<String>) -> (r: Option<String>)
    ensures
        string_view(r) == string_view(*o),
{
    match o {
        Some(s) => Some(copy_text(s)),
        None => None,
    }
}

/// `o` holds the text `s`.
pub fn holds(o: &Option<String>, s: &str) -> (r: bool)
    ensures
        r == (string_view(*o) == Some(s@)),
{
    match o {
        Some(t) => same(t.as_str(), s),
        None => false,
    }
}

/// The text that has these lines, each with a line feed at its end.
pub open spec fn printed(ls: Seq<Seq<char>>) -> Seq<char>
    decreases ls.len(),
{
    if ls.len() == 0 {
        Seq::empty()
    } else {
        ls.first().push('\n') + printed(ls.skip(1))
    }
}

/// Lines that are printed are read back, in order, where none of them holds a line feed or ends
/// in a carriage return.
pub proof fn law_lines_are_read_back(ls: Seq<Seq<char>>)
    requires
        forall|i: int|
            0 <= i < ls.len() ==> !(#[trigger] ls[i]).contains('\n') && !(ls[i].len() > 0
                && ls[i].last() == '\r'),
    ensures
        lines(printed(ls)) == ls,
    decreases ls.len(),
{
    if ls.len() > 0 {
        let l = ls[0];
        let rest = ls.skip(1);
        assert forall|i: int| 0 <= i < rest.len() implies !(#[trigger] rest[i]).contains('\n') && !(
        rest[i].len() > 0 && rest[i].last() == '\r') by {
            assert(rest[i] == ls[i + 1]);
        }
        law_lines_are_read_back(rest);
        let s = printed(ls);
        lemma_find(s, '\n');
        let n = find(s, '\n') as int;
        assert(s[l.len() as int] == '\n');
        if n < l.len() {
            assert(s[n] == l[n]);
            assert(l.contains('\n'));
        }
        assert(s.take(n) =~= l);
        assert(s.skip(n + 1) =~= printed(rest));
        assert(seq![l] + rest =~= ls);
    }
}

proof fn lemma_trimmed_from(s: Seq<char>) -> (at: int)
    ensures
        0 <= at,
        at + trimmed(s).len() <= s.len(),
        s.subrange(at, at + trimmed(s).len()) == trimmed(s),
        forall|i: int| 0 <= i < at ==> is_space(#[trigger] s[i]),
        forall|i: int| at + trimmed(s).len() <= i < s.len() ==> is_space(#[trigger] s[i]),
        trimmed(s).len() > 0 ==> !is_space(trimmed(s).first()) && !is_space(trimmed(s).last()),
{
    lemma_spaces_bound(s);
    let a = leading_spaces(s) as int;
    let t = s.skip(a);
    lemma_spaces_bound(t);
    lemma_leading(s);
    lemma_trailing(t);
    let r = trimmed(s);
    assert(s.subrange(a, a + r.len()) =~= r);
    assert forall|i: int| a + r.len() <= i < s.len() implies is_space(#[trigger] s[i]) by {
        assert(t[i - a] == s[i]);
    }
    if r.len() > 0 {
        assert(r.first() == s[a]);
        assert(r.last() == t[r.len() - 1]);
    }
    a
}

proof fn lemma_leading(s: Seq<char>)
    ensures
        leading_spaces(s) <= s.len(),
        forall|i: int| 0 <= i < leading_spaces(s) ==> is_space(#[trigger] s[i]),
        leading_spaces(s) < s.len() ==> !is_space(s[leading_spaces(s) as int]),
    decreases s.len(),
{
    if s.len() > 0 && is_space(s.first()) {
        let t = s.skip(1);
        lemma_leading(t);
        assert forall|i: int| 0 <= i < leading_spaces(s) implies is_space(#[trigger] s[i]) by {
            if i > 0 {
                assert(t[i - 1] == s[i]);
            }
        }
        if leading_spaces(s) < s.len() {
            assert(t[leading_spaces(t) as int] == s[leading_spaces(s) as int]);
        }
    }
}

proof fn lemma_trailing(s: Seq<char>)
    ensures
        trailing_spaces(s) <= s.len(),
        forall|i: int|
            s.len() - trailing_spaces(s) <= i < s.len() ==> is_space(#[trigger] s[i]),
        trailing_spaces(s) < s.len() ==> !is_space(s[s.len() - trailing_spaces(s) - 1]),
    decreases s.len(),
{
    if s.len() > 0 && is_space(s.last()) {
        let t = s.drop_last();
        lemma_trailing(t);
        assert forall|i: int|
            s.len() - trailing_spaces(s) <= i < s.len() implies is_space(#[trigger] s[i]) by {
            if i < s.len() - 1 {
                assert(t[i] == s[i]);
            }
        }
    }
}

/// Trimming takes white space from both ends and nothing else: what is left stands in the text
/// between white space, and neither begins nor ends with any.
pub proof fn law_trimming_takes_white_space(s: Seq<char>)
    ensures
        exists|at: int|
            0 <= at && at + trimmed(s).len() <= s.len() && #[trigger] s.subrange(
                at,
                at + trimmed(s).len(),
            ) == trimmed(s) && (forall|i: int|
                0 <= i < s.len() && !(at <= i < at + trimmed(s).len()) ==> is_space(
                    #[trigger] s[i],
                )),
        trimmed(s).len() > 0 ==> !is_space(trimmed(s).first()) && !is_space(trimmed(s).last()),
        is_space(' ') && is_space('\t') && is_space('\n') && is_space('\r'),
        forall|c: char| #![trigger is_space(c)] '!' <= c <= '~' ==> !is_space(c),
{
    let at = lemma_trimmed_from(s);
    assert(s.subrange(at, at + trimmed(s).len()) == trimmed(s));
}

/// A text that begins and ends with something else than white space comes back when white space
/// is put around it and trimmed.
pub proof fn law_padding_is_trimmed(a: Seq<char>, s: Seq<char>, b: Seq<char>)
    requires
        forall|i: int| 0 <= i < a.len() ==> is_space(#[trigger] a[i]),
        forall|i: int| 0 <= i < b.len() ==> is_space(#[trigger] b[i]),
        s.len() > 0 ==> !is_space(s.first()) && !is_space(s.last()),
    ensures
        trimmed(a + s + b) == s,
{
    let t = a + s + b;
    let at = lemma_trimmed_from(t);
    let r = trimmed(t);
    if s.len() == 0 {
        if r.len() > 0 {
            assert(r.first() == t[at]);
            if at < a.len() {
                assert(t[at] == a[at]);
            } else {
                assert(t[at] == b[at - a.len()]);
            }
        }
        assert(r =~= s);
    } else {
        let x = a.len() as int;
        let y = x + s.len() - 1;
        assert(t[x] == s.first());
        assert(t[y] == s.last());
        assert(at <= x);
        assert(at + r.len() > y);
        assert(r.first() == t[at]);
        assert(r.last() == t[at + r.len() - 1]);
        if at < x {
            assert(t[at] == a[at]);
        }
        if at + r.len() - 1 > y {
            assert(t[at + r.len() - 1] == b[at + r.len() - 2 - y]);
        }
        assert(r =~= s);
    }
}

/// A text is found in another exactly where it occurs, and at its first place.
pub proof fn law_text_is_found_where_it_first_occurs(s: Seq<char>, p: Seq<char>, at: int)
    requires
        0 <= at,
        at + p.len() <= s.len(),
    ensures
        s.subrange(at, at + p.len()) == p ==> (find_text(s, p) matches Some(i) && i <= at),
        find_text(s, p) matches Some(i) ==> i + p.len() <= s.len() && s.subrange(
            i as int,
            i as int + p.len(),
        ) == p,
    decreases s.len(),
{
    lemma_find_text(s, p);
    if let Some(i) = find_text(s, p) {
        assert(s.skip(i as int).take(p.len() as int) =~= s.subrange(i as int, i as int + p.len()));
    }
    if s.subrange(at, at + p.len()) == p {
        if at == 0 {
            assert(s.take(p.len() as int) =~= s.subrange(0, p.len() as int));
        } else if !has_prefix(s, p) {
            law_text_is_found_where_it_first_occurs(s.skip(1), p, at - 1);
            assert(s.skip(1).subrange(at - 1, at - 1 + p.len()) =~= s.subrange(at, at + p.len()));
        }
    }
}

/// Words with one blank between each and the next, and one at the end.
pub open spec fn spaced(ws: Seq<Seq<char>>) -> Seq<char>
    decreases ws.len(),
{
    if ws.len() == 0 {
        Seq::empty()
    } else {
        ws.first().push(' ') + spaced(ws.skip(1))
    }
}

proof fn lemma_word_len(w: Seq<char>, rest: Seq<char>)
    requires
        forall|i: int| 0 <= i < w.len() ==> !is_space(#[trigger] w[i]),
        rest.len() == 0 || is_space(rest.first()),
    ensures
        word_len(w + rest) == w.len(),
    decreases w.len(),
{
    if w.len() == 0 {
        assert(w + rest =~= rest);
    } else {
        assert((w + rest).first() == w[0]);
        assert((w + rest).skip(1) =~= w.skip(1) + rest);
        assert forall|i: int| 0 <= i < w.skip(1).len() implies !is_space(#[trigger] w.skip(1)[i]) by {
            assert(w.skip(1)[i] == w[i + 1]);
        }
        lemma_word_len(w.skip(1), rest);
    }
}

/// A word ends where white space begins.
pub proof fn law_word_ends_at_white_space(w: Seq<char>, c: char, rest: Seq<char>)
    requires
        forall|i: int| 0 <= i < w.len() ==> !is_space(#[trigger] w[i]),
        is_space(c),
    ensures
        word_len(w) == w.len(),
        word_len(w.push(c) + rest) == w.len(),
{
    lemma_word_len(w, Seq::empty());
    assert(w + Seq::<char>::empty() =~= w);
    lemma_word_len(w, seq![c] + rest);
    assert(w + (seq![c] + rest) =~= w.push(c) + rest);
}

/// Words that stand between blanks are read back, in order.
pub proof fn law_words_are_read_back(ws: Seq<Seq<char>>)
    requires
        forall|i: int|
            0 <= i < ws.len() ==> (#[trigger] ws[i]).len() > 0 && forall|j: int|
                0 <= j < ws[i].len() ==> !is_space(#[trigger] ws[i][j]),
    ensures
        words(spaced(ws)) == ws,
    decreases ws.len(),
{
    reveal_with_fuel(words, 2);
    if ws.len() > 0 {
        let w = ws[0];
        let rest = ws.skip(1);
        assert forall|i: int| 0 <= i < rest.len() implies (#[trigger] rest[i]).len() > 0 && forall|
            j: int,
        |
            0 <= j < rest[i].len() ==> !is_space(#[trigger] rest[i][j]) by {
            assert(rest[i] == ws[i + 1]);
        }
        law_words_are_read_back(rest);
        let s = spaced(ws);
        assert(is_space(' '));
        law_word_ends_at_white_space(w, ' ', spaced(rest));
        assert(s.first() == w[0]);
        assert(s.take(w.len() as int) =~= w);
        let t = s.skip(w.len() as int);
        assert(t.first() == ' ');
        assert(t.skip(1) =~= spaced(rest));
        assert(words(t) == words(spaced(rest)));
        assert(seq![w] + rest =~= ws);
    }
}

/// The first word of a text is what stands before its first white space; the words of the rest
/// follow. White space before it makes no difference.
pub proof fn law_first_word_is_read(w: Seq<char>, c: char, rest: Seq<char>)
    requires
        forall|i: int| 0 <= i < w.len() ==> !is_space(#[trigger] w[i]),
        is_space(c),
    ensures
        w.len() > 0 ==> words(w) == seq![w],
        w.len() > 0 ==> words(w.push(c) + rest) == seq![w] + words(rest),
        words(seq![c] + rest) == words(rest),
{
    reveal_with_fuel(words, 3);
    law_word_ends_at_white_space(w, c, rest);
    let s = w.push(c) + rest;
    assert((seq![c] + rest).skip(1) =~= rest);
    if w.len() > 0 {
        assert(w.take(w.len() as int) =~= w);
        assert(w.skip(w.len() as int) =~= Seq::empty());
        assert(words(w) =~= seq![w]);
        assert(s.first() == w[0]);
        assert(s.take(w.len() as int) =~= w);
        let t = s.skip(w.len() as int);
        assert(t =~= seq![c] + rest);
        assert(words(t) == words(rest));
    }
}

/// The end of the last `c` of a text is found: there is none behind it.
pub proof fn lemma_rfind(s: Seq<char>, c: char)
    ensures
        rfind_end(s, c) <= s.len(),
        rfind_end(s, c) > 0 ==> s[rfind_end(s, c) - 1] == c,
        forall|i: int| rfind_end(s, c) <= i < s.len() ==> #[trigger] s[i] != c,
    decreases s.len(),
{
    if s.len() > 0 && s.last() != c {
        let t = s.drop_last();
        lemma_rfind(t, c);
        assert forall|i: int| rfind_end(s, c) <= i < s.len() implies #[trigger] s[i] != c by {
            if i < t.len() {
                assert(t[i] == s[i]);
            }
        }
        if rfind_end(s, c) > 0 {
            assert(t[rfind_end(t, c) - 1] == s[rfind_end(s, c) - 1]);
        }
    }
}

/// A number in decimal digits is made of digits, has no more of them than it needs, and is the
/// only one with those digits.
pub proof fn law_decimal_is_plain(n: nat, m: nat)
    ensures
        decimal(n).len() > 0,
        forall|i: int| 0 <= i < decimal(n).len() ==> '0' <= #[trigger] decimal(n)[i] <= '9',
        n < 10 ==> decimal(n).len() == 1,
        n < 100 ==> decimal(n).len() <= 2,
        n < 1000 ==> decimal(n).len() <= 3,
        n > 0 ==> decimal(n)[0] != '0',
        decimal(n) == decimal(m) ==> n == m,
    decreases n,
{
    lemma_decimal(n);
    lemma_decimal(m);
    assert forall|i: int| 0 <= i < decimal(n).len() implies '0' <= #[trigger] decimal(n)[i]
        <= '9' by {
        assert(is_digit(decimal(n)[i]));
    }
    reveal_with_fuel(decimal, 4);
    if n >= 10 {
        law_decimal_is_plain(n / 10, m);
        assert(decimal(n)[0] == decimal(n / 10)[0]);
    }
}

} // verus!
