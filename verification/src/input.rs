//! Keyboard input as the platform reports it.

use vstd::prelude::*;

verus! {

/// A symbolic key.
#[derive(Debug, Clone, Copy, PartialEq, Eq, Structural)]
pub enum Key {
    Tab,
    Return,
    Space,
    NumpadEnter,
    Escape,
    Backspace,
    Delete,
    Left,
    Right,
    Up,
    Down,
    Home,
    End,
    /// Any other key, by the platform's own code.
    Other(u32),
}

impl Key {
    /// Whether the key presses a button that has the focus.
    pub open spec fn activating(self) -> bool {
        self == Key::Return || self == Key::Space || self == Key::NumpadEnter
    }

    pub fn activates(&self) -> (yes: bool)
        ensures
            yes == self.activating(),
    {
        match self {
            Key::Return => true,
            Key::Space => true,
            Key::NumpadEnter => true,
            _ => false,
        }
    }

    pub fn is_tab(&self) -> (yes: bool)
        ensures
            yes == (*self == Key::Tab),
    {
        match self {
            Key::Tab => true,
            _ => false,
        }
    }
}

/// The keys that are down, in the order they went down. The windowing system
/// reports a key without saying whether it went down or up; the first report
/// of a key that is not held means down, the next one up.
pub struct HeldKeys {
    keys: Vec<Key>,
}

/// The test for being another key than `key`.
pub open spec fn other_than(key: Key) -> spec_fn(Key) -> bool {
    |k: Key| k != key
}

/// `keys` without every `key`.
pub open spec fn released(keys: Seq<Key>, key: Key) -> Seq<Key> {
    keys.filter(other_than(key))
}

impl HeldKeys {
    pub closed spec fn held(&self) -> Seq<Key> {
        self.keys@
    }

    pub fn new() -> (keys: HeldKeys)
        ensures
            keys.held() == Seq::<Key>::empty(),
    {
        HeldKeys { keys: Vec::new() }
    }

    pub fn is_held(&self, key: Key) -> (held: bool)
        ensures
            held == self.held().contains(key),
    {
        let mut i: usize = 0;
        while i < self.keys.len()
            invariant
                i <= self.keys@.len(),
                forall|k: int| 0 <= k < i ==> self.keys@[k] != key,
            decreases self.keys@.len() - i,
        {
            if self.keys[i] == key {
                return true;
            }
            i += 1;
        }
        false
    }

    /// Takes a report of `key`: a key that is held goes up and is held no
    /// longer; any other key goes down and is held from now on. The answer says
    /// whether the key went down.
    pub fn toggle(&mut self, key: Key) -> (down: bool)
        ensures
            down == !old(self).held().contains(key),
            down ==> final(self).held() == old(self).held().push(key),
            !down ==> final(self).held() == released(old(self).held(), key),
    {
        if !self.is_held(key) {
            self.keys.push(key);
            return true;
        }
        let ghost given = self.keys@;
        let mut kept: Vec<Key> = Vec::new();
        let mut i: usize = 0;
        while i < self.keys.len()
            invariant
                i <= self.keys@.len(),
                self.keys@ == given,
                kept@ == released(given.take(i as int), key),
            decreases self.keys@.len() - i,
        {
            let entry = self.keys[i];
            proof {
                given.take(i as int).lemma_filter_push(entry, other_than(key));
                assert(given.take(i as int).push(entry) =~= given.take(i as int + 1));
            }
            if entry != key {
                kept.push(entry);
            }
            i += 1;
        }
        assert(given.take(given.len() as int) =~= given);
        assert(kept@ == released(given, key));
        self.keys = kept;
        false
    }
}

/// The modifier keys held while a key event happened.
#[derive(Debug, Clone, Copy, PartialEq, Eq, Structural)]
pub struct Modifiers {
    pub shift: bool,
    pub control: bool,
    pub alt: bool,
    pub logo: bool,
}

impl Modifiers {
    pub fn none() -> (m: Modifiers)
        ensures
            m == (Modifiers { shift: false, control: false, alt: false, logo: false }),
    {
        Modifiers { shift: false, control: false, alt: false, logo: false }
    }
}

/// A key going down or up.
#[derive(Debug, Clone, Copy, PartialEq, Eq, Structural)]
pub struct KeyEvent {
    pub key: Key,
    pub modifiers: Modifiers,
}

impl KeyEvent {
    /// The event of `key` with no modifier held.
    pub fn plain(key: Key) -> (event: KeyEvent)
        ensures
            event.key == key,
            event.modifiers == (Modifiers { shift: false, control: false, alt: false, logo: false }),
    {
        KeyEvent { key, modifiers: Modifiers::none() }
    }
}

} // verus!
