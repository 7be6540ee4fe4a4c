//! The command line of the viewer.
//!
//! `--connect <ip:port> --package <pkg> [--label <name>] [--display <WxH/DPI>] [--scale <n>]`,
//! each also as `--key=value`.
use crate::text::{cat2, cat3, chars_of, find, find_char, same, string_of};
use vstd::prelude::*;

verus! {

/// The size and density of the display where none is given.
pub const DEFAULT_DISPLAY: &'static str = "1280x960/160";

/// What a word says where it is read as a scale.
#[derive(Debug, Clone)]
pub enum ScaleWord {
    /// It is no number.
    NotANumber,
    /// A number outside of the accepted range, as it is written.
    OutOfRange(String),
    /// The bits of an accepted number.
    Accepted(u32),
}

/// A value of the command line, with what it says where it is read as an address or as a
/// scale.
#[derive(Debug, Clone)]
pub struct Value {
    pub text: String,
    pub is_address: bool,
    pub scale: ScaleWord,
}

/// A word of the command line: as a whole, and what follows its first `=`, if it holds one.
#[derive(Debug, Clone)]
pub struct Word {
    pub whole: Value,
    pub tail: Option<Value>,
}

#[verifier::ext_equal]
pub enum ScaleWordView {
    NotANumber,
    OutOfRange(Seq<char>),
    Accepted(u32),
}

#[verifier::ext_equal]
pub struct ValueView {
    pub text: Seq<char>,
    pub is_address: bool,
    pub scale: ScaleWordView,
}

#[verifier::ext_equal]
pub struct WordView {
    pub whole: ValueView,
    pub tail: Option<ValueView>,
}

impl View for ScaleWord {
    type V = ScaleWordView;

    open spec fn view(&self) -> ScaleWordView {
        match self {
            ScaleWord::NotANumber => ScaleWordView::NotANumber,
            ScaleWord::OutOfRange(s) => ScaleWordView::OutOfRange(s@),
            ScaleWord::Accepted(b) => ScaleWordView::Accepted(*b),
        }
    }
}

impl View for Value {
    type V = ValueView;

    open spec fn view(&self) -> ValueView {
        ValueView { text: self.text@, is_address: self.is_address, scale: self.scale@ }
    }
}

impl View for Word {
    type V = WordView;

    open spec fn view(&self) -> WordView {
        WordView {
            whole: self.whole@,
            tail: match self.tail {
                Some(v) => Some(v@),
                None => None,
            },
        }
    }
}

pub open spec fn word_views(ws: Seq<Word>) -> Seq<WordView> {
    ws.map_values(|w: Word| w@)
}

impl WordView {
    /// The word has a tail exactly where it holds `=`, and it is what follows the first one.
    pub open spec fn sound(self) -> bool {
        let s = self.whole.text;
        let i = find(s, '=');
        match self.tail {
            Some(v) => i < s.len() && v.text == s.skip(i as int + 1),
            None => i == s.len(),
        }
    }

    /// What stands before the first `=`.
    pub open spec fn key(self) -> Seq<char> {
        self.whole.text.take(find(self.whole.text, '=') as int)
    }
}

/// What the viewer is started with. `scale` is the bits of a 32-bit floating-point number.
#[derive(Debug, Clone)]
pub struct Args {
    /// Where the phone's server listens.
    pub addr: String,
    pub package: String,
    pub label: String,
    pub display: String,
    /// How many pixels of the window there are to one of the display; the bits of a number.
    pub scale: u32,
}

#[verifier::ext_equal]
pub struct ArgsView {
    pub addr: Seq<char>,
    pub package: Seq<char>,
    pub label: Seq<char>,
    pub display: Seq<char>,
    pub scale: u32,
}

impl View for Args {
    type V = ArgsView;

    open spec fn view(&self) -> ArgsView {
        ArgsView {
            addr: self.addr@,
            package: self.package@,
            label: self.label@,
            display: self.display@,
            scale: self.scale,
        }
    }
}

impl Args {
    /// What the window is called: the label, or the package where there is none.
    pub fn window_title(&self) -> (r: String)
        ensures
            r@ == if self.label@.len() == 0 {
                self.package@
            } else {
                self.label@
            },
    {
        if self.label.as_str().unicode_len() == 0 {
            self.package.as_str().to_owned()
        } else {
            self.label.as_str().to_owned()
        }
    }
}

/// The bits of 1, the scale where none is given.
pub const DEFAULT_SCALE: u32 = 0x3F80_0000;

/// What has been read of the command line so far.
#[verifier::ext_equal]
pub struct Given {
    pub addr: Option<Seq<char>>,
    pub package: Option<Seq<char>>,
    pub label: Seq<char>,
    pub display: Seq<char>,
    pub scale: u32,
}

impl Given {
    pub open spec fn nothing() -> Given {
        Given {
            addr: None,
            package: None,
            label: ""@,
            display: DEFAULT_DISPLAY@,
            scale: DEFAULT_SCALE,
        }
    }

    /// After `--key value`; else what is wrong.
    pub open spec fn with(self, key: Seq<char>, v: ValueView) -> Result<Given, Seq<char>> {
        if key == "--connect"@ {
            if v.is_address {
                Ok(Given { addr: Some(v.text), ..self })
            } else {
                Err("非法地址（应为 ip:port）: "@ + v.text)
            }
        } else if key == "--package"@ {
            Ok(Given { package: Some(v.text), ..self })
        } else if key == "--label"@ {
            Ok(Given { label: v.text, ..self })
        } else if key == "--display"@ {
            Ok(Given { display: v.text, ..self })
        } else {
            match v.scale {
                ScaleWordView::NotANumber => Err("非法缩放系数: "@ + v.text),
                ScaleWordView::OutOfRange(s) => Err(
                    "缩放系数 "@ + s + " 超出范围 [0.1, 4]"@,
                ),
                ScaleWordView::Accepted(b) => Ok(Given { scale: b, ..self }),
            }
        }
    }

    /// After the words from `at` on; else what is wrong with the first that is wrong.
    pub open spec fn read(self, words: Seq<WordView>, at: nat) -> Result<Given, Seq<char>>
        decreases words.len() - at,
    {
        if at >= words.len() {
            Ok(self)
        } else {
            let w = words[at as int];
            if !known_key(w.key()) {
                Err("未知参数: "@ + w.key())
            } else {
                match w.tail {
                    Some(v) => match self.with(w.key(), v) {
                        Ok(g) => g.read(words, at + 1),
                        Err(e) => Err(e),
                    },
                    None => if at + 1 >= words.len() {
                        Err("缺少参数值: "@ + w.key())
                    } else {
                        match self.with(w.key(), words[at as int + 1].whole) {
                            Ok(g) => g.read(words, at + 2),
                            Err(e) => Err(e),
                        }
                    },
                }
            }
        }
    }

    /// The arguments, where those that must be there are.
    pub open spec fn finish(self) -> Result<ArgsView, Seq<char>> {
        match (self.addr, self.package) {
            (None, _) => Err("缺少 --connect 参数"@),
            (Some(_), None) => Err("缺少 --package 参数"@),
            (Some(addr), Some(package)) => Ok(
                ArgsView {
                    addr,
                    package,
                    label: self.label,
                    display: self.display,
                    scale: self.scale,
                },
            ),
        }
    }
}

pub open spec fn known_key(key: Seq<char>) -> bool {
    key == "--connect"@ || key == "--package"@ || key == "--label"@ || key == "--display"@ || key
        == "--scale"@
}

/// What the command line says: the arguments, or the first thing that is wrong with it.
pub open spec fn args_of(words: Seq<WordView>) -> Result<ArgsView, Seq<char>> {
    match Given::nothing().read(words, 0) {
        Ok(g) => g.finish(),
        Err(e) => Err(e),
    }
}

/// What has been read of the command line so far.
struct Reading {
    addr: Option<String>,
    package: Option<String>,
    label: String,
    display: String,
    scale: u32,
}

impl Reading {
    spec fn given(self) -> Given {
        Given {
            addr: crate::text::string_view(self.addr),
            package: crate::text::string_view(self.package),
            label: self.label@,
            display: self.display@,
            scale: self.scale,
        }
    }

    /// Takes `--key value` in; else says what is wrong.
    fn take(&mut self, key: &str, v: &Value) -> (r: Option<String>)
        requires
            known_key(key@),
        ensures
            match r {
                None => old(self).given().with(key@, v@) == Ok::<Given, Seq<char>>(
                    final(self).given(),
                ),
                Some(e) => old(self).given().with(key@, v@) == Err::<Given, Seq<char>>(e@),
            },
    {
        if same(key, "--connect") {
            if !v.is_address {
                return Some(cat2("非法地址（应为 ip:port）: ", v.text.as_str()));
            }
            self.addr = Some(v.text.as_str().to_owned());
        } else if same(key, "--package") {
            self.package = Some(v.text.as_str().to_owned());
        } else if same(key, "--label") {
            self.label = v.text.as_str().to_owned();
        } else if same(key, "--display") {
            self.display = v.text.as_str().to_owned();
        } else {
            match &v.scale {
                ScaleWord::NotANumber => {
                    return Some(cat2("非法缩放系数: ", v.text.as_str()));
                },
                ScaleWord::OutOfRange(s) => {
                    return Some(cat3("缩放系数 ", s.as_str(), " 超出范围 [0.1, 4]"));
                },
                ScaleWord::Accepted(b) => {
                    self.scale = *b;
                },
            }
        }
        None
    }
}

/// Whether `key` can be given a value.
fn is_known_key(key: &str) -> (r: bool)
    ensures
        r == known_key(key@),
{
    same(key, "--connect") || same(key, "--package") || same(key, "--label") || same(
        key,
        "--display",
    ) || same(key, "--scale")
}

/// Reads the command line. What is wrong with the first word that is wrong is the error; a
/// later value of a key replaces an earlier one.
pub fn parse_args(words: &[Word]) -> (r: Result<Args, String>)
    requires
        forall|i: int| 0 <= i < words@.len() ==> (#[trigger] words@[i]@).sound(),
    ensures
        match r {
            Ok(a) => args_of(word_views(words@)) == Ok::<ArgsView, Seq<char>>(a@),
            Err(e) => args_of(word_views(words@)) == Err::<ArgsView, Seq<char>>(e@),
        },
{
    let ghost ws = word_views(words@);
    let mut got = Reading {
        addr: None,
        package: None,
        label: String::new(),
        display: DEFAULT_DISPLAY.to_owned(),
        scale: DEFAULT_SCALE,
    };
    proof {
        reveal_strlit("");
        assert(got.label@ =~= ""@);
    }
    let mut at: usize = 0;
    while at < words.len()
        invariant
            at <= words@.len(),
            ws == word_views(words@),
            got.given().read(ws, at as nat) == Given::nothing().read(ws, 0),
        decreases words@.len() - at,
    {
        let w: &Word = &words[at];
        assert(ws[at as int] == w@);
        let text = chars_of(w.whole.text.as_str());
        let cut: usize = find_char(text.as_slice(), '=');
        let key = string_of(&text.as_slice()[0..cut]);
        assert(key@ =~= w@.key());
        if !is_known_key(key.as_str()) {
            return Err(cat2("未知参数: ", key.as_str()));
        }
        match &w.tail {
            Some(v) => {
                if let Some(e) = got.take(key.as_str(), v) {
                    return Err(e);
                }
                at += 1;
            },
            None => {
                if words.len() - at < 2 {
                    return Err(cat2("缺少参数值: ", key.as_str()));
                }
                assert(ws[at + 1] == words@[at + 1]@);
                if let Some(e) = got.take(key.as_str(), &words[at + 1].whole) {
                    return Err(e);
                }
                at += 2;
            },
        }
    }
    match got.addr {
        None => Err("缺少 --connect 参数".to_owned()),
        Some(addr) => match got.package {
            None => Err("缺少 --package 参数".to_owned()),
            Some(package) => Ok(
                Args { addr, package, label: got.label, display: got.display, scale: got.scale },
            ),
        },
    }
}

/// Reading on from a place is reading what stands from there on.
proof fn lemma_read_from(g: Given, words: Seq<WordView>, k: nat, at: nat)
    requires
        k <= words.len(),
    ensures
        g.read(words, k + at) == g.read(words.skip(k as int), at),
    decreases words.len() - k - at,
{
    let rest = words.skip(k as int);
    if k + at < words.len() {
        let w = words[k as int + at];
        assert(rest[at as int] == w);
        match w.tail {
            Some(v) => {
                if let Ok(h) = g.with(w.key(), v) {
                    lemma_read_from(h, words, k, at + 1);
                }
            },
            None => {
                if k + at + 1 < words.len() {
                    assert(rest[at as int + 1] == words[k as int + at + 1]);
                    if let Ok(h) = g.with(w.key(), words[k as int + at + 1].whole) {
                        lemma_read_from(h, words, k, at + 2);
                    }
                }
            },
        }
    }
}

/// `--key=value` says the same as `--key value`, whatever follows.
pub proof fn law_both_forms_say_the_same(
    g: Given,
    joined: WordView,
    key: WordView,
    value: WordView,
    rest: Seq<WordView>,
)
    requires
        joined.sound(),
        key.sound(),
        joined.tail == Some(value.whole),
        key.tail is None,
        key.whole.text == joined.key(),
    ensures
        g.read(seq![joined] + rest, 0) == g.read(seq![key, value] + rest, 0),
{
    let a = seq![joined] + rest;
    let b = seq![key, value] + rest;
    assert(key.key() =~= joined.key());
    assert(a[0] == joined && b[0] == key && b[1] == value);
    if known_key(joined.key()) {
        if let Ok(h) = g.with(joined.key(), value.whole) {
            lemma_read_from(h, a, 1, 0);
            lemma_read_from(h, b, 2, 0);
            assert(a.skip(1) =~= rest);
            assert(b.skip(2) =~= rest);
        }
    }
}

/// An option sets the argument that it names and no other. An address that is none is refused, and so
/// is a scale that is no number or out of range.
pub proof fn law_option_sets_its_argument(g: Given, v: ValueView)
    ensures
        v.is_address ==> g.with("--connect"@, v) == Ok::<Given, Seq<char>>(
            Given { addr: Some(v.text), ..g },
        ),
        !v.is_address ==> g.with("--connect"@, v) is Err,
        g.with("--package"@, v) == Ok::<Given, Seq<char>>(Given { package: Some(v.text), ..g }),
        g.with("--label"@, v) == Ok::<Given, Seq<char>>(Given { label: v.text, ..g }),
        g.with("--display"@, v) == Ok::<Given, Seq<char>>(Given { display: v.text, ..g }),
        v.scale matches ScaleWordView::Accepted(b) ==> g.with("--scale"@, v) == Ok::<
            Given,
            Seq<char>,
        >(Given { scale: b, ..g }),
        !(v.scale is Accepted) ==> g.with("--scale"@, v) is Err,
{
    lemma_options_differ();
}

/// Options that differ are told apart.
proof fn lemma_options_differ()
    ensures
        "--connect"@.len() == 9 && "--connect"@[2] == 'c',
        "--package"@.len() == 9 && "--package"@[2] == 'p',
        "--label"@.len() == 7 && "--label"@[2] == 'l',
        "--display"@.len() == 9 && "--display"@[2] == 'd',
        "--scale"@.len() == 7 && "--scale"@[2] == 's',
{
    reveal_strlit("--connect");
    reveal_strlit("--package");
    reveal_strlit("--label");
    reveal_strlit("--display");
    reveal_strlit("--scale");
}

/// Options are read in their order, each with the word that follows it. The first that is not known,
/// has no value or has one that is refused ends the reading.
pub proof fn law_options_are_read_in_order(
    g: Given,
    key: WordView,
    value: WordView,
    rest: Seq<WordView>,
)
    requires
        key.sound(),
        key.tail is None,
    ensures
        ({
            let k = key.whole.text;
            if k == "--connect"@ || k == "--package"@ || k == "--label"@ || k == "--display"@ || k
                == "--scale"@ {
                &&& g.read(seq![key, value] + rest, 0) == match g.with(k, value.whole) {
                    Ok(h) => h.read(rest, 0),
                    Err(e) => Err(e),
                }
                &&& g.read(seq![key], 0) is Err
            } else {
                g.read(seq![key, value] + rest, 0) is Err && g.read(seq![key], 0) is Err
            }
        }),
        g.read(Seq::empty(), 0) == Ok::<Given, Seq<char>>(g),
{
    let b = seq![key, value] + rest;
    assert(key.key() =~= key.whole.text);
    assert(b[0] == key && b[1] == value);
    assert(seq![key][0] == key);
    if let Ok(h) = g.with(key.key(), value.whole) {
        lemma_read_from(h, b, 2, 0);
        assert(b.skip(2) =~= rest);
    }
}

/// The viewer needs to be told where to connect and what to show. It has no label then, a display of
/// the usual size and a scale of 1, unless it is told of others.
pub proof fn law_address_and_package_are_needed(g: Given)
    ensures
        g.finish() is Ok <==> g.addr is Some && g.package is Some,
        g.addr is Some && g.package is Some ==> g.finish() == Ok::<ArgsView, Seq<char>>(
            ArgsView {
                addr: g.addr->0,
                package: g.package->0,
                label: g.label,
                display: g.display,
                scale: g.scale,
            },
        ),
        ({
            let n = Given::nothing();
            &&& n.addr is None && n.package is None && n.label.len() == 0
            &&& n.scale == 0x3F80_0000 && n.display == "1280x960/160"@
        }),
{
    reveal_strlit("");
}

} // verus!
