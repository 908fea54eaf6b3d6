use clef_rush::challenge::{ChallengeGenerator, Mode, Reaction, RenderRequests, Validator};
use clef_rush::config::{Clef, ClefConfig, Config, OctaveRange};
use clef_rush::keyboard::{Key, KeyPos};
use clef_rush::sheet::{Id, IdGenerator, Note, Style};

fn key(pos: KeyPos, oct: u8) -> Key {
    pos.oct(oct)
}

#[test]
fn validator_walkthrough() {
    let first = key(KeyPos::C, 4);
    let second = key(KeyPos::G, 2);
    let other = key(KeyPos::A, 5);
    let notes = [Note::new(first, Style::Default, Id(1)), Note::new(second, Style::Default, Id(2))];
    let mut v = Validator::new(&notes);
    assert!(v.required(first) && v.required(second) && !v.required(other));
    assert!(v.validate(first));
    assert!(!v.finished());
    assert!(v.validate(second));
    assert!(v.finished());
    assert!(v.validate(first));
    assert!(!v.validate(other));
    assert!(v.finished());
    assert!(v.required(first));
}

#[test]
fn validator_without_keys_is_finished() {
    let v = Validator::new(&[]);
    assert!(v.finished());
}

#[test]
fn no_key_twice_in_a_row() {
    let range = vec![key(KeyPos::C, 4), key(KeyPos::D, 4)];
    let mut generator = ChallengeGenerator::with_ranges(Some(range.clone()), None, false, IdGenerator::new(0));
    generator.advance();
    let mut last = None;
    for _ in 0..200 {
        let c = generator.current_challenge().unwrap();
        let drawn: Vec<Key> = range.iter().copied().filter(|k| c.validator.required(*k)).collect();
        assert_eq!(drawn.len(), 1);
        assert_ne!(Some(drawn[0]), last);
        last = Some(drawn[0]);
        generator.advance();
    }
}

#[test]
fn single_key_range_repeats() {
    let k = key(KeyPos::E, 4);
    let mut generator = ChallengeGenerator::with_ranges(Some(vec![k]), None, false, IdGenerator::new(0));
    for _ in 0..5 {
        generator.advance();
        assert!(generator.current_challenge().unwrap().validator.required(k));
    }
}

#[test]
fn empty_range_gives_no_key() {
    let mut generator = ChallengeGenerator::with_ranges(Some(vec![]), Some(vec![key(KeyPos::C, 3)]), false, IdGenerator::new(0));
    generator.advance();
    let c = generator.current_challenge().unwrap();
    assert_eq!(c.sheet.notes().len(), 1);
    assert_eq!(c.mode, Mode::Bass);
}

#[test]
fn split_follows_active_clefs() {
    let both = ChallengeGenerator::new(&Config::default(), false, IdGenerator::new(0));
    assert_eq!(both.clef_split(), key(KeyPos::C, 4));
    let mut cfg = Config::default();
    cfg.bass = ClefConfig { clef: Clef::Bass, range: OctaveRange::Off, sharp_keys: false };
    let treble_only = ChallengeGenerator::new(&cfg, false, IdGenerator::new(0));
    assert_eq!(treble_only.clef_split(), key(KeyPos::A, 0));
    let bass_only = ChallengeGenerator::with_ranges(None, Some(vec![key(KeyPos::C, 8)]), false, IdGenerator::new(0));
    assert_eq!(bass_only.clef_split(), key(KeyPos::CSharp, 8));
}

#[test]
fn bass_only_notes_stay_on_bass_staff() {
    let mut generator = ChallengeGenerator::with_ranges(None, Some(vec![key(KeyPos::C, 8)]), false, IdGenerator::new(0));
    generator.advance();
    let c = generator.current_challenge().unwrap();
    assert_eq!(c.mode, Mode::Bass);
    assert_eq!(c.sheet.bass_iter().len(), 1);
}

#[test]
fn default_config_draws_one_key_per_clef() {
    let mut generator = ChallengeGenerator::new(&Config::default(), false, IdGenerator::new(0));
    generator.advance();
    let c = generator.current_challenge().unwrap();
    assert_eq!(c.mode, Mode::Combined);
    assert_eq!(c.sheet.treble_iter().len(), 1);
    assert_eq!(c.sheet.bass_iter().len(), 1);
    assert!(c.sheet.treble_iter()[0].key.is_natural());
}

#[test]
fn playing_a_challenge() {
    let treble = key(KeyPos::C, 5);
    let bass = key(KeyPos::F, 3);
    let wrong = key(KeyPos::A, 4);
    let mut g = ChallengeGenerator::with_ranges(Some(vec![treble]), Some(vec![bass]), false, IdGenerator::new(0));
    assert_eq!(g.note_on(treble), Reaction::Nothing);
    assert!(g.render_hint().is_none());
    g.advance();

    assert_eq!(g.note_on(wrong), Reaction::Redraw);
    let c = g.current_challenge().unwrap();
    assert_eq!(c.sheet.notes().len(), 3);
    assert_eq!(c.sheet.notes()[2].style, Style::Incorrect);
    let (_, styles) = g.render_hint().unwrap();
    assert!(styles.contains("#d7263d"));

    assert_eq!(g.note_off(wrong), Reaction::Redraw);
    assert_eq!(g.current_challenge().unwrap().sheet.notes().len(), 2);

    assert_eq!(g.note_on(treble), Reaction::Redraw);
    assert_eq!(g.current_challenge().unwrap().sheet.notes()[0].style, Style::Correct);
    assert_eq!(g.note_off(treble), Reaction::Nothing);
    assert_eq!(g.note_on(treble), Reaction::Redraw);

    assert_eq!(g.note_on(bass), Reaction::Finished);
    assert!(g.current_challenge().is_none());
    assert!(g.previous_challenge().unwrap().validator.finished());
    let (mei, styles) = g.render_hint().unwrap();
    assert!(mei.contains("pname=\"f\" oct=\"3\""));
    assert!(styles.contains("#2e9c48"));
    assert_eq!(g.note_on(bass), Reaction::Nothing);
    assert_eq!(g.note_off(wrong), Reaction::Nothing);

    g.advance();
    assert!(g.current_challenge().is_some());
    assert!(g.previous_challenge().unwrap().validator.finished());
}

#[test]
fn skipping_retires_the_current_challenge() {
    let a = key(KeyPos::C, 4);
    let mut g = ChallengeGenerator::with_ranges(Some(vec![a]), None, false, IdGenerator::new(0));
    g.advance();
    g.advance();
    let prev = g.previous_challenge().unwrap();
    assert!(prev.validator.required(a));
    assert!(!prev.validator.finished());
}

#[test]
fn delayed_advance_only_for_its_round() {
    let a = key(KeyPos::C, 4);
    let mut g = ChallengeGenerator::with_ranges(Some(vec![a]), None, false, IdGenerator::new(0));
    g.advance();
    assert_eq!(g.round(), 1);
    assert_eq!(g.note_on(a), Reaction::Finished);
    let finished_round = g.round();
    g.advance();
    assert_eq!(g.round(), 2);
    assert!(!g.advance_after_delay(finished_round));
    assert_eq!(g.round(), 2);
    assert_eq!(g.note_on(a), Reaction::Finished);
    assert!(g.advance_after_delay(2));
    assert_eq!(g.round(), 3);
    assert!(!g.advance_after_delay(3));
}

#[test]
fn latest_render_request_wins() {
    let mut requests = RenderRequests::new();
    let first = requests.issue();
    assert!(requests.is_latest(first));
    let second = requests.issue();
    assert_ne!(first, second);
    assert!(!requests.is_latest(first));
    assert!(requests.is_latest(second));
}
