use vstd::prelude::*;
use crate::keyboard::{lemma_remove_to_set, Key};

verus! {

/// Failures of switching the page to full screen.
#[derive(Debug, Clone)]
pub enum FullscreenError {
    NoWindow,
    NoDocument,
    NoBody,
    FailedToEnter(String),
}

/// Marks the lifetime of a named value.
#[derive(Debug)]
pub struct DropMonitor {
    name: String,
}

impl DropMonitor {
    pub closed spec fn name_view(&self) -> Seq<char> {
        self.name@
    }

    pub fn new(name: String) -> (r: DropMonitor)
        ensures
            r.name_view() == name@,
    {
        DropMonitor { name }
    }

    pub fn name(&self) -> (r: &str)
        ensures
            r@ == self.name_view(),
    {
        self.name.as_str()
    }
}

/// Whether a key of the on-screen keyboard is held.
#[derive(Debug, Clone, Copy, PartialEq, Eq, Structural)]
pub enum KeyState {
    Released,
    Pressed,
}

/// Typefaces of the interface.
#[derive(Debug, Clone, Copy, PartialEq, Eq, Structural)]
pub enum Font {
    Default,
    Title,
}

impl Default for Font {
    fn default() -> (r: Font)
        ensures
            r is Default,
    {
        Font::Default
    }
}

impl Font {
    /// Name of the font family; the default font is the sans-serif family
    /// of the platform and has none.
    pub fn family_name(&self) -> (r: Option<&'static str>)
        ensures
            *self is Default ==> r is None,
            *self is Title ==> r is Some && r->Some_0@ == "Stigmature"@,
    {
        match self {
            Font::Default => None,
            Font::Title => Some("Stigmature"),
        }
    }
}

/// The keys held down on the on-screen keyboard.
#[derive(Debug, Clone)]
pub struct PressedKeys {
    keys: Vec<Key>,
}

impl PressedKeys {
    pub closed spec fn view_set(&self) -> Set<Key> {
        self.keys@.to_set()
    }

    pub closed spec fn wf(&self) -> bool {
        self.keys@.no_duplicates()
    }

    pub fn new() -> (r: PressedKeys)
        ensures
            r.wf(),
            r.view_set() == Set::<Key>::empty(),
    {
        let r = PressedKeys { keys: Vec::new() };
        assert(r.keys@.to_set() =~= Set::<Key>::empty());
        r
    }

    fn position(&self, key: Key) -> (r: Option<usize>)
        ensures
            r matches Some(i) ==> i < self.keys@.len() && self.keys@[i as int] == key,
            r is None ==> !self.keys@.contains(key),
    {
        for i in 0..self.keys.len()
            invariant
                forall|j: int| 0 <= j < i ==> self.keys@[j] != key,
        {
            if self.keys[i] == key {
                return Some(i);
            }
        }
        None
    }

    /// Marks `key` as held or released.
    pub fn set_key_state(&mut self, key: Key, state: KeyState)
        requires
            old(self).wf(),
        ensures
            final(self).wf(),
            final(self).view_set() == match state {
                KeyState::Pressed => old(self).view_set().insert(key),
                KeyState::Released => old(self).view_set().remove(key),
            },
    {
        match (self.position(key), state) {
            (Some(_), KeyState::Pressed) => {
                assert(self.keys@.to_set().insert(key) =~= self.keys@.to_set());
            },
            (None, KeyState::Pressed) => {
                proof {
                    self.keys@.lemma_push_to_set_commute(key);
                }
                self.keys.push(key);
            },
            (Some(i), KeyState::Released) => {
                proof {
                    lemma_remove_to_set(self.keys@, i as int);
                }
                self.keys.remove(i);
            },
            (None, KeyState::Released) => {
                assert(self.keys@.to_set().remove(key) =~= self.keys@.to_set());
            },
        }
    }

    pub fn is_pressed(&self, key: Key) -> (r: bool)
        ensures
            r == self.view_set().contains(key),
    {
        self.position(key).is_some()
    }
}

} // verus!
