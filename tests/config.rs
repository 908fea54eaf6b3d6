use clef_rush::config::{Clef, ClefConfig, Config, LocalConfig, OctaveRange};
use clef_rush::keyboard::KeyPos;
use clef_rush::util::{DropMonitor, Font, KeyState, PressedKeys};

#[test]
fn treble_two_octaves_of_naturals() {
    let cfg = ClefConfig { clef: Clef::Treble, range: OctaveRange::Fixed(2), sharp_keys: false };
    let keys = cfg.to_key_range().unwrap();
    assert_eq!(keys.len(), 14);
    assert_eq!(keys[0], KeyPos::C.oct(4));
    assert_eq!(keys[13], KeyPos::B.oct(5));
    assert!(keys.iter().all(|k| k.is_natural()));
}

#[test]
fn treble_naturals_up_to_b6() {
    let cfg = ClefConfig { clef: Clef::Treble, range: OctaveRange::Fixed(3), sharp_keys: false };
    let keys = cfg.to_key_range().unwrap();
    assert_eq!(keys.len(), 21);
    assert_eq!(keys[0], KeyPos::C.oct(4));
    assert_eq!(keys[20], KeyPos::B.oct(6));
    assert!(keys.iter().all(|k| k.is_natural()));
}

#[test]
fn bass_all_chromatic() {
    let cfg = ClefConfig { clef: Clef::Bass, range: OctaveRange::All, sharp_keys: true };
    let keys = cfg.to_key_range().unwrap();
    assert_eq!(keys.len(), 49);
    assert_eq!(keys[0], KeyPos::C.oct(4));
    assert_eq!(keys[48], KeyPos::C.oct(8));
}

#[test]
fn treble_all_and_bass_fixed() {
    let treble = ClefConfig { clef: Clef::Treble, range: OctaveRange::All, sharp_keys: true };
    let keys = treble.to_key_range().unwrap();
    assert_eq!(keys.first(), Some(&KeyPos::A.oct(0)));
    assert_eq!(keys.last(), Some(&KeyPos::B.oct(3)));
    assert_eq!(keys.len(), 39);

    let bass = ClefConfig { clef: Clef::Bass, range: OctaveRange::Fixed(1), sharp_keys: false };
    let keys = bass.to_key_range().unwrap();
    assert_eq!(keys.len(), 7);
    assert_eq!(keys[0], KeyPos::C.oct(3));
    assert_eq!(keys[6], KeyPos::B.oct(3));

    let bass3 = ClefConfig { clef: Clef::Bass, range: OctaveRange::Fixed(3), sharp_keys: true };
    let keys = bass3.to_key_range().unwrap();
    assert_eq!(keys.len(), 36);
    assert_eq!(keys[0], KeyPos::C.oct(1));
}

#[test]
fn disabled_clefs_have_no_range() {
    for clef in [Clef::Treble, Clef::Bass] {
        for range in [OctaveRange::Off, OctaveRange::Fixed(4), OctaveRange::Fixed(255)] {
            let cfg = ClefConfig { clef, range, sharp_keys: true };
            assert!(cfg.to_key_range().is_none());
        }
    }
    let empty = ClefConfig { clef: Clef::Treble, range: OctaveRange::Fixed(0), sharp_keys: true };
    assert_eq!(empty.to_key_range(), Some(vec![]));
    assert!(OctaveRange::Off.is_none());
    assert!(!OctaveRange::All.is_none());
    assert!(!OctaveRange::Fixed(1).is_none());
}

#[test]
fn default_settings() {
    let cfg = Config::default();
    assert_eq!(cfg.treble.range, OctaveRange::Fixed(2));
    assert_eq!(cfg.bass.clef, Clef::Bass);
    assert!(!cfg.bass.sharp_keys);
    assert!(LocalConfig::default().virtual_keyboard);
    assert_eq!(OctaveRange::default(), OctaveRange::Off);
}

#[test]
fn interface_fonts() {
    assert_eq!(Font::default(), Font::Default);
    assert_eq!(Font::Default.family_name(), None);
    assert_eq!(Font::Title.family_name(), Some("Stigmature"));
    assert_eq!(DropMonitor::new("screen".to_string()).name(), "screen");
}

#[test]
fn pressed_keys_follow_presses() {
    let mut keys = PressedKeys::new();
    let c4 = KeyPos::C.oct(4);
    let d4 = KeyPos::D.oct(4);
    assert!(!keys.is_pressed(c4));
    keys.set_key_state(c4, KeyState::Pressed);
    keys.set_key_state(c4, KeyState::Pressed);
    keys.set_key_state(d4, KeyState::Pressed);
    assert!(keys.is_pressed(c4) && keys.is_pressed(d4));
    keys.set_key_state(c4, KeyState::Released);
    assert!(!keys.is_pressed(c4));
    assert!(keys.is_pressed(d4));
    keys.set_key_state(c4, KeyState::Released);
    assert!(!keys.is_pressed(c4));
}
