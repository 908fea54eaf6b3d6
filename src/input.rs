use vstd::prelude::*;
use crate::keyboard::{code_in_88, key_of_code, Key, KeyPos};
use midly::{live::LiveEvent, MidiMessage};

verus! {

/// Failures of connecting an input device.
#[derive(Debug, Clone)]
pub enum Error {
    InitFailed,
    PortNotAvailable,
    PortConnectionFailed(String),
    WorkerNotAvailable,
}

/// Identity and display name of an input port.
#[derive(Debug, Clone)]
pub struct PortDescriptor {
    id: String,
    name: String,
}

impl PortDescriptor {
    pub fn new(id: String, name: String) -> (r: PortDescriptor)
        ensures
            r.id_view() == id@,
            r.name_view() == name@,
    {
        PortDescriptor { id, name }
    }

    pub closed spec fn id_view(&self) -> Seq<char> {
        self.id@
    }

    pub closed spec fn name_view(&self) -> Seq<char> {
        self.name@
    }

    pub fn id(&self) -> (r: &str)
        ensures
            r@ == self.id_view(),
    {
        self.id.as_str()
    }

    pub fn name(&self) -> (r: &str)
        ensures
            r@ == self.name_view(),
    {
        self.name.as_str()
    }
}

/// Where note events come from.
#[derive(Debug, Clone)]
pub enum Device {
    Virtual,
    Midi(PortDescriptor),
}

impl Default for Device {
    fn default() -> (r: Device)
        ensures
            r is Virtual,
    {
        Device::Virtual
    }
}

/// A raw device message, as far as note handling reads it.
#[derive(Debug, Clone, Copy, PartialEq, Eq, Structural)]
pub enum RawMessage {
    NoteOn { key: u8, vel: u8 },
    NoteOff { key: u8, vel: u8 },
    Other,
}

/// What a complete raw message means for note handling: a status byte
/// `0x9n` (note on) or `0x8n` (note off) followed by two data bytes below `0x80`.
pub open spec fn raw_message_of(b: Seq<u8>) -> RawMessage {
    if b.len() >= 3 && b[1] < 0x80 && b[2] < 0x80 && 0x90 <= b[0] <= 0x9f {
        RawMessage::NoteOn { key: b[1], vel: b[2] }
    } else if b.len() >= 3 && b[1] < 0x80 && b[2] < 0x80 && 0x80 <= b[0] <= 0x8f {
        RawMessage::NoteOff { key: b[1], vel: b[2] }
    } else {
        RawMessage::Other
    }
}

/// Relies on midly::live::LiveEvent::parse: the status byte selects the message
/// kind, the data bytes are the prefix of the rest below `0x80`, and a note
/// message needs two of them; everything else is some other event or an error.
#[verifier::external_body]
fn parse_live(raw: &[u8]) -> (r: RawMessage)
    ensures
        r == raw_message_of(raw@),
{
    match LiveEvent::parse(raw) {
        Ok(LiveEvent::Midi { message: MidiMessage::NoteOn { key, vel }, .. }) => {
            RawMessage::NoteOn { key: key.as_int(), vel: vel.as_int() }
        },
        Ok(LiveEvent::Midi { message: MidiMessage::NoteOff { key, vel }, .. }) => {
            RawMessage::NoteOff { key: key.as_int(), vel: vel.as_int() }
        },
        _ => RawMessage::Other,
    }
}

/// A canonical note event on a key of the 88-key window.
#[derive(Debug, Clone, Copy, PartialEq, Eq, Structural)]
pub enum NoteEvent {
    NoteOn { key: Key, vel: u8 },
    NoteOff { key: Key, vel: u8 },
}

/// The canonical event of a raw message: a note-on with velocity zero is a
/// note-off, and keys outside the 88-key window are dropped.
pub open spec fn note_event_of(m: RawMessage) -> Option<NoteEvent> {
    match m {
        RawMessage::NoteOn { key, vel } => if !code_in_88(key as int) {
            None
        } else if vel == 0 {
            Some(NoteEvent::NoteOff { key: key_of_code(key as int), vel })
        } else {
            Some(NoteEvent::NoteOn { key: key_of_code(key as int), vel })
        },
        RawMessage::NoteOff { key, vel } => if !code_in_88(key as int) {
            None
        } else {
            Some(NoteEvent::NoteOff { key: key_of_code(key as int), vel })
        },
        RawMessage::Other => None,
    }
}

/// Turns a parsed message into its canonical note event, if it has one.
pub fn normalize(m: RawMessage) -> (r: Option<NoteEvent>)
    ensures
        r == note_event_of(m),
{
    match m {
        RawMessage::NoteOn { key, vel } => match Key::try_from_midi(key) {
            Ok(k) => if vel == 0 {
                Some(NoteEvent::NoteOff { key: k, vel })
            } else {
                Some(NoteEvent::NoteOn { key: k, vel })
            },
            Err(_) => None,
        },
        RawMessage::NoteOff { key, vel } => match Key::try_from_midi(key) {
            Ok(k) => Some(NoteEvent::NoteOff { key: k, vel }),
            Err(_) => None,
        },
        RawMessage::Other => None,
    }
}

/// The canonical note event of a raw device message, if it has one.
pub fn process_event(message: &[u8]) -> (r: Option<NoteEvent>)
    ensures
        r == note_event_of(raw_message_of(message@)),
{
    normalize(parse_live(message))
}

/// Device code that the letter `c` plays on the computer keyboard: `a` is
/// thirteen semitones below `C4`, each next letter one semitone higher.
pub open spec fn letter_code(c: char) -> Option<u8> {
    if 'a' <= c <= 'z' {
        Some((c as int - 'a' as int + 47) as u8)
    } else {
        None
    }
}

/// The device code that a letter of the computer keyboard stands for.
pub fn translate_key_note(c: char) -> (r: Option<u8>)
    ensures
        r == letter_code(c),
{
    let base_offset: u8 = KeyPos::C.oct(4).to_midi() - 13;
    if 'a' <= c && c <= 'z' {
        Some((c as u32 - 'a' as u32) as u8 + base_offset)
    } else {
        None
    }
}

} // verus!
