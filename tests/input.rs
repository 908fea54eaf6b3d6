use clef_rush::input::{normalize, process_event, translate_key_note, NoteEvent, RawMessage};
use clef_rush::keyboard::KeyPos;

#[test]
fn note_on_is_kept() {
    assert_eq!(process_event(&[0x90, 60, 100]), Some(NoteEvent::NoteOn { key: KeyPos::C.oct(4), vel: 100 }));
    assert_eq!(process_event(&[0x95, 61, 1]), Some(NoteEvent::NoteOn { key: KeyPos::CSharp.oct(4), vel: 1 }));
}

#[test]
fn zero_velocity_note_on_is_note_off() {
    assert_eq!(process_event(&[0x90, 60, 0]), Some(NoteEvent::NoteOff { key: KeyPos::C.oct(4), vel: 0 }));
    assert_eq!(process_event(&[0x80, 21, 64]), Some(NoteEvent::NoteOff { key: KeyPos::A.oct(0), vel: 64 }));
}

#[test]
fn other_messages_are_dropped() {
    assert_eq!(process_event(&[0xB0, 7, 100]), None);
    assert_eq!(process_event(&[0x90, 60]), None);
    assert_eq!(process_event(&[]), None);
    assert_eq!(process_event(&[0xF8]), None);
    assert_eq!(process_event(&[0x90, 20, 100]), None);
    assert_eq!(process_event(&[0x90, 109, 100]), None);
    assert_eq!(process_event(&[0x90, 60, 0x80]), None);
}

#[test]
fn normalize_parsed_messages() {
    assert_eq!(normalize(RawMessage::NoteOn { key: 108, vel: 0 }), Some(NoteEvent::NoteOff { key: KeyPos::C.oct(8), vel: 0 }));
    assert_eq!(normalize(RawMessage::NoteOff { key: 5, vel: 3 }), None);
    assert_eq!(normalize(RawMessage::Other), None);
}

#[test]
fn computer_keyboard_letters() {
    assert_eq!(translate_key_note('a'), Some(47));
    assert_eq!(translate_key_note('n'), Some(60));
    assert_eq!(translate_key_note('z'), Some(72));
    assert_eq!(translate_key_note('A'), None);
    assert_eq!(translate_key_note('1'), None);
}
