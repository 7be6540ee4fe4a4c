//! Keys of the keyboard and the Android keys that they stand for.
//!
//! Characters that can be printed are passed on as text; only navigation, editing and
//! function keys are passed on as keys.
use super::control::keycode;
use vstd::prelude::*;

verus! {

/// A key of the keyboard. `Other` is any key that is not passed on as a key.
#[derive(Debug, Clone, Copy, PartialEq, Eq, Structural)]
pub enum Key {
    Escape,
    Home,
    Backspace,
    Enter,
    Tab,
    Space,
    Delete,
    PageUp,
    PageDown,
    ArrowUp,
    ArrowDown,
    ArrowLeft,
    ArrowRight,
    F1,
    F2,
    F3,
    F4,
    F5,
    F6,
    F7,
    F8,
    F9,
    F10,
    F11,
    F12,
    Other,
}

/// The Android key of `key`, where it has one.
pub open spec fn android_key(key: Key) -> Option<u32> {
    match key {
        Key::Escape => Some(keycode::BACK),
        Key::Home => Some(keycode::HOME),
        Key::Backspace => Some(keycode::DEL),
        Key::Enter => Some(keycode::ENTER),
        Key::Tab => Some(keycode::TAB),
        Key::Space => Some(keycode::SPACE),
        Key::Delete => Some(112),
        Key::PageUp => Some(92),
        Key::PageDown => Some(93),
        Key::ArrowUp => Some(keycode::DPAD_UP),
        Key::ArrowDown => Some(keycode::DPAD_DOWN),
        Key::ArrowLeft => Some(keycode::DPAD_LEFT),
        Key::ArrowRight => Some(keycode::DPAD_RIGHT),
        Key::F1 => Some(131),
        Key::F2 => Some(132),
        Key::F3 => Some(133),
        Key::F4 => Some(134),
        Key::F5 => Some(135),
        Key::F6 => Some(136),
        Key::F7 => Some(137),
        Key::F8 => Some(138),
        Key::F9 => Some(139),
        Key::F10 => Some(140),
        Key::F11 => Some(141),
        Key::F12 => Some(142),
        Key::Other => None,
    }
}

/// The Android key that `key` stands for; `None` where it is not passed on as a key. Escape
/// is the phone's back key.
pub fn to_android_keycode(key: Key) -> (r: Option<u32>)
    ensures
        r == android_key(key),
{
    match key {
        Key::Escape => Some(keycode::BACK),
        Key::Home => Some(keycode::HOME),
        Key::Backspace => Some(keycode::DEL),
        Key::Enter => Some(keycode::ENTER),
        Key::Tab => Some(keycode::TAB),
        Key::Space => Some(keycode::SPACE),
        Key::Delete => Some(112),
        Key::PageUp => Some(92),
        Key::PageDown => Some(93),
        Key::ArrowUp => Some(keycode::DPAD_UP),
        Key::ArrowDown => Some(keycode::DPAD_DOWN),
        Key::ArrowLeft => Some(keycode::DPAD_LEFT),
        Key::ArrowRight => Some(keycode::DPAD_RIGHT),
        Key::F1 => Some(131),
        Key::F2 => Some(132),
        Key::F3 => Some(133),
        Key::F4 => Some(134),
        Key::F5 => Some(135),
        Key::F6 => Some(136),
        Key::F7 => Some(137),
        Key::F8 => Some(138),
        Key::F9 => Some(139),
        Key::F10 => Some(140),
        Key::F11 => Some(141),
        Key::F12 => Some(142),
        Key::Other => None,
    }
}

/// The keys that are passed on as keys.
pub open spec fn mapped() -> Seq<Key> {
    seq![
        Key::Escape,
        Key::Home,
        Key::Backspace,
        Key::Enter,
        Key::Tab,
        Key::Space,
        Key::Delete,
        Key::PageUp,
        Key::PageDown,
        Key::ArrowUp,
        Key::ArrowDown,
        Key::ArrowLeft,
        Key::ArrowRight,
        Key::F1,
        Key::F2,
        Key::F3,
        Key::F4,
        Key::F5,
        Key::F6,
        Key::F7,
        Key::F8,
        Key::F9,
        Key::F10,
        Key::F11,
        Key::F12,
    ]
}

/// The keys that are passed on as keys, in the order in which they are looked at.
pub fn mapped_keys() -> (r: Vec<Key>)
    ensures
        r@ == mapped(),
{
    let r: Vec<Key> = vec![
        Key::Escape,
        Key::Home,
        Key::Backspace,
        Key::Enter,
        Key::Tab,
        Key::Space,
        Key::Delete,
        Key::PageUp,
        Key::PageDown,
        Key::ArrowUp,
        Key::ArrowDown,
        Key::ArrowLeft,
        Key::ArrowRight,
        Key::F1,
        Key::F2,
        Key::F3,
        Key::F4,
        Key::F5,
        Key::F6,
        Key::F7,
        Key::F8,
        Key::F9,
        Key::F10,
        Key::F11,
        Key::F12,
    ];
    assert(r@ =~= mapped());
    r
}

/// The keys that are looked at are exactly those that stand for an Android key, each is
/// looked at once, and no two of them stand for the same one.
pub proof fn law_mapped_keys_have_codes(a: Key, b: Key)
    ensures
        mapped().contains(a) <==> android_key(a) is Some,
        mapped().no_duplicates(),
        android_key(a) is Some && android_key(a) == android_key(b) ==> a == b,
{
    let m = mapped();
    assert(m[0] == Key::Escape);
    assert(m[1] == Key::Home);
    assert(m[2] == Key::Backspace);
    assert(m[3] == Key::Enter);
    assert(m[4] == Key::Tab);
    assert(m[5] == Key::Space);
    assert(m[6] == Key::Delete);
    assert(m[7] == Key::PageUp);
    assert(m[8] == Key::PageDown);
    assert(m[9] == Key::ArrowUp);
    assert(m[10] == Key::ArrowDown);
    assert(m[11] == Key::ArrowLeft);
    assert(m[12] == Key::ArrowRight);
    assert(m[13] == Key::F1);
    assert(m[14] == Key::F2);
    assert(m[15] == Key::F3);
    assert(m[16] == Key::F4);
    assert(m[17] == Key::F5);
    assert(m[18] == Key::F6);
    assert(m[19] == Key::F7);
    assert(m[20] == Key::F8);
    assert(m[21] == Key::F9);
    assert(m[22] == Key::F10);
    assert(m[23] == Key::F11);
    assert(m[24] == Key::F12);
}

/// A set of keys.
#[derive(Debug, Clone)]
pub struct KeySet {
    keys: Vec<Key>,
}

impl View for KeySet {
    type V = Set<Key>;

    closed spec fn view(&self) -> Set<Key> {
        Set::new(|k: Key| self.keys@.contains(k))
    }
}

impl KeySet {
    pub fn new() -> (r: Self)
        ensures
            r@ == Set::<Key>::empty(),
    {
        let r = KeySet { keys: Vec::new() };
        assert(r@ =~= Set::empty());
        r
    }

    pub fn contains(&self, key: Key) -> (r: bool)
        ensures
            r == self@.contains(key),
    {
        let mut i: usize = 0;
        while i < self.keys.len()
            invariant
                i <= self.keys@.len(),
                forall|j: int| 0 <= j < i ==> #[trigger] self.keys@[j] != key,
            decreases self.keys@.len() - i,
        {
            if self.keys[i] == key {
                return true;
            }
            i += 1;
        }
        false
    }

    pub fn insert(&mut self, key: Key)
        ensures
            final(self)@ == old(self)@.insert(key),
    {
        if !self.contains(key) {
            let ghost before = self.keys@;
            self.keys.push(key);
            proof {
                assert(self.keys@[before.len() as int] == key);
                assert forall|k: Key| #[trigger]
                    self.keys@.contains(k) <==> before.contains(k) || k == key by {
                    if before.contains(k) {
                        let j = choose|j: int| 0 <= j < before.len() && before[j] == k;
                        assert(self.keys@[j] == k);
                    }
                }
            }
        }
        assert(self@ =~= old(self)@.insert(key));
    }

    pub fn remove(&mut self, key: Key)
        ensures
            final(self)@ == old(self)@.remove(key),
    {
        let mut kept: Vec<Key> = Vec::new();
        let mut i: usize = 0;
        while i < self.keys.len()
            invariant
                i <= self.keys@.len(),
                self.keys@ == old(self).keys@,
                forall|k: Key| #[trigger]
                    kept@.contains(k) <==> k != key && self.keys@.take(i as int).contains(k),
            decreases self.keys@.len() - i,
        {
            let k: Key = self.keys[i];
            let ghost before = kept@;
            proof {
                crate::seqs::lemma_take_contains(self.keys@, i as int);
            }
            if k != key {
                kept.push(k);
                proof {
                    assert(kept@.take(before.len() as int) =~= before);
                    assert(kept@.take(before.len() as int + 1) =~= kept@);
                    crate::seqs::lemma_take_contains(kept@, before.len() as int);
                }
            }
            i += 1;
        }
        assert(self.keys@.take(i as int) =~= self.keys@);
        self.keys = kept;
        assert(self@ =~= old(self)@.remove(key));
    }
}

} // verus!
