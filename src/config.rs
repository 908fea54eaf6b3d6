use vstd::prelude::*;
use crate::input::Device;
use crate::keyboard::{filter_keys, key_code, keep_keys, keys_between, range, Key, KeyPos};

verus! {

/// How many octaves a clef offers.
#[derive(Debug, Clone, Copy, PartialEq, Eq, Structural)]
pub enum OctaveRange {
    Off,
    Fixed(u8),
    All,
}

impl OctaveRange {
    pub fn is_none(&self) -> (r: bool)
        ensures
            r == (*self is Off),
    {
        match self {
            OctaveRange::Off => true,
            _ => false,
        }
    }
}

impl Default for OctaveRange {
    fn default() -> (r: OctaveRange)
        ensures
            r is Off,
    {
        OctaveRange::Off
    }
}

#[derive(Debug, Clone, Copy, PartialEq, Eq, Structural)]
pub enum Clef {
    Treble,
    Bass,
}

/// What one clef of a round offers.
#[derive(Debug, Clone, Copy)]
pub struct ClefConfig {
    pub clef: Clef,
    pub range: OctaveRange,
    pub sharp_keys: bool,
}

/// The first and last key that a clef offers, or `None` where it is off.
pub open spec fn clef_bounds(clef: Clef, range: OctaveRange) -> Option<(Key, Key)> {
    match range {
        OctaveRange::Fixed(n) => if n > 3 {
            None
        } else if clef is Treble {
            Some((Key { pos: KeyPos::C, oct: 4 }, Key { pos: KeyPos::B, oct: (3 + n) as u8 }))
        } else {
            Some((Key { pos: KeyPos::C, oct: (4 - n) as u8 }, Key { pos: KeyPos::B, oct: 3 }))
        },
        OctaveRange::All => if clef is Treble {
            Some((Key { pos: KeyPos::A, oct: 0 }, Key { pos: KeyPos::B, oct: 3 }))
        } else {
            Some((Key { pos: KeyPos::C, oct: 4 }, Key { pos: KeyPos::C, oct: 8 }))
        },
        OctaveRange::Off => None,
    }
}

/// The keys that a clef offers, ascending, or `None` where it is off.
pub open spec fn clef_keys(c: ClefConfig) -> Option<Seq<Key>> {
    match clef_bounds(c.clef, c.range) {
        Some(b) => Some(keep_keys(keys_between(key_code(b.0), key_code(b.1)), c.sharp_keys)),
        None => None,
    }
}

impl ClefConfig {
    /// The keys this clef offers, ascending by device code: naturals only
    /// unless sharps are asked for; `None` where the clef is off.
    pub fn to_key_range(&self) -> (r: Option<Vec<Key>>)
        ensures
            r is Some <==> clef_keys(*self) is Some,
            r is Some ==> r->Some_0@ == clef_keys(*self)->Some_0,
    {
        let (start, end) = match (self.clef, self.range) {
            (Clef::Treble, OctaveRange::Fixed(num)) => {
                if num > 3 {
                    return None;
                }
                (KeyPos::C.oct(4), KeyPos::B.oct(3 + num))
            },
            (Clef::Treble, OctaveRange::All) => (KeyPos::A.oct(0), KeyPos::B.oct(3)),
            (Clef::Bass, OctaveRange::Fixed(num)) => {
                if num > 3 {
                    return None;
                }
                (KeyPos::C.oct(4 - num), KeyPos::B.oct(3))
            },
            (Clef::Bass, OctaveRange::All) => (KeyPos::C.oct(4), KeyPos::C.oct(8)),
            (_, OctaveRange::Off) => return None,
        };
        let keys = range(&start, &end);
        Some(filter_keys(&keys, self.sharp_keys))
    }
}

/// Settings of a game.
#[derive(Debug, Clone)]
pub struct Config {
    pub input_device: Device,
    pub treble: ClefConfig,
    pub bass: ClefConfig,
}

impl Default for Config {
    fn default() -> (r: Config)
        ensures
            r.input_device is Virtual,
            r.treble == (ClefConfig { clef: Clef::Treble, range: OctaveRange::Fixed(2), sharp_keys: false }),
            r.bass == (ClefConfig { clef: Clef::Bass, range: OctaveRange::Fixed(2), sharp_keys: false }),
    {
        Config {
            input_device: Device::Virtual,
            treble: ClefConfig { clef: Clef::Treble, range: OctaveRange::Fixed(2), sharp_keys: false },
            bass: ClefConfig { clef: Clef::Bass, range: OctaveRange::Fixed(2), sharp_keys: false },
        }
    }
}

/// What a finished game hands on.
#[derive(Debug, Clone)]
pub struct GameResults {
    pub settings: Config,
}

/// The screens a game moves between.
#[derive(Debug, Clone)]
pub enum StateTransition {
    MainMenu,
    GameActive(Config),
    GameFinished(GameResults),
}

/// Settings of the play screen that stay on this machine.
#[derive(Debug, Clone, Copy)]
pub struct LocalConfig {
    pub virtual_keyboard: bool,
}

impl Default for LocalConfig {
    fn default() -> (r: LocalConfig)
        ensures
            r.virtual_keyboard,
    {
        LocalConfig { virtual_keyboard: true }
    }
}

} // verus!
