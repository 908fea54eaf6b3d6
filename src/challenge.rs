use vstd::prelude::*;
use crate::config::{clef_keys, Config};
use crate::keyboard::{key_code, lemma_remove_to_set, Key, KeyPos, Keyboard};
use crate::sheet::{following, IdGenerator, Note, Sheet, Style};
use rand::seq::IndexedRandom;

verus! {

/// Keys of the notes of `s`.
pub open spec fn note_keys(s: Seq<Note>) -> Set<Key> {
    s.map_values(|n: Note| n.key).to_set()
}

/// Position of `key` in `v`.
fn index_in(v: &Vec<Key>, key: Key) -> (r: Option<usize>)
    ensures
        r matches Some(i) ==> i < v@.len() && v@[i as int] == key,
        r is None ==> !v@.contains(key),
{
    for i in 0..v.len()
        invariant
            forall|j: int| 0 <= j < i ==> v@[j] != key,
    {
        if v[i] == key {
            return Some(i);
        }
    }
    None
}

/// Which keys of a challenge are still owed and which were played.
#[derive(Debug, Clone)]
pub struct Validator {
    expected: Vec<Key>,
    validated: Vec<Key>,
}

impl Validator {
    /// Keys not yet played.
    pub closed spec fn expected_set(&self) -> Set<Key> {
        self.expected@.to_set()
    }

    /// Keys played and held.
    pub closed spec fn validated_set(&self) -> Set<Key> {
        self.validated@.to_set()
    }

    /// Keys that belong to the challenge.
    pub open spec fn required_set(&self) -> Set<Key> {
        self.expected_set() + self.validated_set()
    }

    pub closed spec fn wf(&self) -> bool {
        &&& self.expected@.no_duplicates()
        &&& self.validated@.no_duplicates()
        &&& self.expected_set().disjoint(self.validated_set())
    }

    /// A validator that owes the keys of `notes`.
    pub fn new(notes: &[Note]) -> (r: Validator)
        ensures
            r.wf(),
            r.expected_set() == note_keys(notes@),
            r.validated_set() == Set::<Key>::empty(),
    {
        let mut expected: Vec<Key> = Vec::new();
        for i in 0..notes.len()
            invariant
                expected@.no_duplicates(),
                expected@.to_set() == note_keys(notes@.subrange(0, i as int)),
        {
            let k = notes[i].key;
            proof {
                let pre = notes@.subrange(0, i as int);
                assert(notes@.subrange(0, i + 1) =~= pre.push(notes@[i as int]));
                assert(pre.push(notes@[i as int]).map_values(|n: Note| n.key) =~= pre.map_values(
                    |n: Note| n.key,
                ).push(k));
                pre.map_values(|n: Note| n.key).lemma_push_to_set_commute(k);
                expected@.lemma_push_to_set_commute(k);
            }
            if index_in(&expected, k).is_none() {
                expected.push(k);
            } else {
                assert(expected@.to_set().insert(k) =~= expected@.to_set());
            }
        }
        assert(notes@.subrange(0, notes@.len() as int) =~= notes@);
        let validated: Vec<Key> = Vec::new();
        assert(validated@.to_set() =~= Set::<Key>::empty());
        Validator { expected, validated }
    }

    /// Takes in a played key: an owed key becomes played, and the answer is
    /// whether the key belongs to the challenge.
    pub fn validate(&mut self, key: Key) -> (r: bool)
        requires
            old(self).wf(),
        ensures
            final(self).wf(),
            (final(self).expected_set(), final(self).validated_set(), r) == validate_step(
                old(self).expected_set(),
                old(self).validated_set(),
                key,
            ),
    {
        match index_in(&self.expected, key) {
            Some(i) => {
                proof {
                    lemma_remove_to_set(self.expected@, i as int);
                    assert(self.expected@.contains(key));
                    assert(self.expected_set().contains(key));
                    assert(!self.validated_set().contains(key));
                    self.validated@.lemma_push_to_set_commute(key);
                }
                self.expected.remove(i);
                self.validated.push(key);
                true
            },
            None => {
                assert(self.expected@.to_set().remove(key) =~= self.expected@.to_set());
                index_in(&self.validated, key).is_some()
            },
        }
    }

    /// Whether every owed key has been played.
    pub fn finished(&self) -> (r: bool)
        ensures
            r == (self.expected_set() == Set::<Key>::empty()),
    {
        if self.expected.len() == 0 {
            assert(self.expected@.to_set() =~= Set::<Key>::empty());
            true
        } else {
            assert(self.expected@.to_set().contains(self.expected@[0]));
            false
        }
    }

    /// Whether `key` belongs to the challenge, owed or played.
    pub fn required(&self, key: Key) -> (r: bool)
        ensures
            r == self.required_set().contains(key),
    {
        index_in(&self.expected, key).is_some() || index_in(&self.validated, key).is_some()
    }
}

/// Owed keys, played keys and the verdict after `key` is played: an owed key
/// becomes played; the verdict is whether the key belongs to the challenge.
pub open spec fn validate_step(expected: Set<Key>, validated: Set<Key>, key: Key) -> (
    Set<Key>,
    Set<Key>,
    bool,
) {
    (
        expected.remove(key),
        if expected.contains(key) {
            validated.insert(key)
        } else {
            validated
        },
        expected.contains(key) || validated.contains(key),
    )
}

/// Two owed keys played in turn are both right and finish the challenge;
/// playing the first again is still right, and an unrelated key is wrong and
/// leaves the challenge finished.
pub proof fn lemma_validator_walkthrough(first: Key, second: Key, other: Key)
    requires
        first != second,
        other != first,
        other != second,
    ensures
        ({
            let s1 = validate_step(set![first, second], Set::empty(), first);
            let s2 = validate_step(s1.0, s1.1, second);
            let s3 = validate_step(s2.0, s2.1, first);
            let s4 = validate_step(s3.0, s3.1, other);
            &&& s1.2 && s1.0 != Set::<Key>::empty()
            &&& s2.2 && s2.0 == Set::<Key>::empty()
            &&& s3.2 && s3.0 == Set::<Key>::empty()
            &&& !s4.2 && s4.0 == Set::<Key>::empty()
        }),
{
    let s1 = validate_step(set![first, second], Set::empty(), first);
    assert(s1.0.contains(second));
    let s2 = validate_step(s1.0, s1.1, second);
    assert(s2.0 =~= Set::<Key>::empty());
}

/// No key is both owed and played.
pub proof fn lemma_validator_disjoint(v: &Validator)
    requires
        v.wf(),
    ensures
        v.expected_set().disjoint(v.validated_set()),
{
}

/// Which staves a challenge uses.
#[derive(Debug, Clone, Copy, PartialEq, Eq, Structural)]
pub enum Mode {
    Treble,
    Bass,
    Combined,
}

/// The staves that the notes of `s` need, split at `split`.
pub open spec fn staff_mode(s: Seq<Note>, split: Key) -> Mode {
    let treble = exists|i: int| 0 <= i < s.len() && key_code(s[i].key) >= key_code(split);
    let bass = exists|i: int| 0 <= i < s.len() && key_code(s[i].key) < key_code(split);
    if treble && !bass {
        Mode::Treble
    } else if bass && !treble {
        Mode::Bass
    } else {
        Mode::Combined
    }
}

/// One round: the keys to play and the sheet that shows them.
#[derive(Debug, Clone)]
pub struct Challenge {
    pub validator: Validator,
    pub sheet: Sheet,
    pub mode: Mode,
}

impl Challenge {
    pub open spec fn wf(&self) -> bool {
        self.validator.wf() && self.sheet.wf()
    }

    pub fn new(notes: &[Note], clef_split: Key, enable_landmarks: bool, ids: IdGenerator) -> (r: Challenge)
        ensures
            r.wf(),
            r.validator.expected_set() == note_keys(notes@),
            r.validator.validated_set() == Set::<Key>::empty(),
            r.sheet.notes_view() == crate::sheet::from_notes(notes@),
            r.sheet.split_view() == clef_split,
            r.sheet.landmarks_view() == enable_landmarks,
            r.sheet.next_id_view() == ids.next,
            r.mode == staff_mode(notes@, clef_split),
    {
        let split = clef_split.code();
        let mut treble_notes = false;
        let mut bass_notes = false;
        for i in 0..notes.len()
            invariant
                split == key_code(clef_split),
                treble_notes == exists|j: int| 0 <= j < i && key_code(notes@[j].key) >= split,
                bass_notes == exists|j: int| 0 <= j < i && key_code(notes@[j].key) < split,
        {
            if notes[i].key.code() >= split {
                treble_notes = true;
            } else {
                bass_notes = true;
            }
        }
        let mode = if treble_notes && !bass_notes {
            Mode::Treble
        } else if bass_notes && !treble_notes {
            Mode::Bass
        } else {
            Mode::Combined
        };
        Challenge {
            validator: Validator::new(notes),
            sheet: Sheet::new(enable_landmarks, notes, clef_split, ids),
            mode,
        }
    }
}

/// Keys of `range` that `prev` does not require, or all of `range` where
/// none is left.
pub open spec fn candidates(range: Seq<Key>, prev: Set<Key>) -> Seq<Key> {
    let fresh = range.filter(fresh_pred(prev));
    if fresh.len() > 0 {
        fresh
    } else {
        range
    }
}

pub open spec fn fresh_pred(prev: Set<Key>) -> spec_fn(Key) -> bool {
    |k: Key| !prev.contains(k)
}

/// Where a previous challenge required some key of a range, a key drawn from
/// the candidates is none of the keys it required, as long as the range
/// offers one that it did not require.
pub proof fn lemma_no_repeat(range: Seq<Key>, prev: Set<Key>, drawn: Key)
    requires
        candidates(range, prev).contains(drawn),
        exists|i: int| 0 <= i < range.len() && !prev.contains(range[i]),
    ensures
        !prev.contains(drawn),
{
    let i = choose|i: int| 0 <= i < range.len() && !prev.contains(range[i]);
    range.lemma_filter_contains_rev(fresh_pred(prev), range[i]);
    let fresh = range.filter(fresh_pred(prev));
    assert(fresh.contains(range[i]));
    assert(fresh.len() > 0);
    assert(candidates(range, prev) == fresh);
    assert(fresh.contains(drawn));
    let j = choose|j: int| 0 <= j < fresh.len() && fresh[j] == drawn;
    range.lemma_filter_pred(fresh_pred(prev), j);
}

/// Two rounds in a row on a range of two or more keys: the key drawn for the
/// second differs from the single key of the first.
pub proof fn lemma_no_repeat_single(range: Seq<Key>, first: Key, drawn: Key)
    requires
        range.contains(first),
        exists|i: int| 0 <= i < range.len() && range[i] != first,
        candidates(range, set![first]).contains(drawn),
    ensures
        drawn != first,
{
    lemma_no_repeat(range, set![first], drawn);
}

/// The candidates that `prev` leaves of `range`.
pub fn fresh_candidates(range: &Vec<Key>, prev: Option<&Validator>) -> (r: Vec<Key>)
    ensures
        r@ == candidates(
            range@,
            match prev {
                Some(v) => v.required_set(),
                None => Set::<Key>::empty(),
            },
        ),
{
    let ghost req = match prev {
        Some(v) => v.required_set(),
        None => Set::<Key>::empty(),
    };
    let mut out: Vec<Key> = Vec::new();
    for i in 0..range.len()
        invariant
            req == match prev {
                Some(v) => v.required_set(),
                None => Set::<Key>::empty(),
            },
            out@ == range@.subrange(0, i as int).filter(fresh_pred(req)),
    {
        let k = range[i];
        proof {
            assert(range@.subrange(0, i + 1) =~= range@.subrange(0, i as int).push(k));
            range@.subrange(0, i as int).lemma_filter_push(k, fresh_pred(req));
        }
        let repeated = match prev {
            Some(v) => v.required(k),
            None => false,
        };
        if !repeated {
            out.push(k);
        }
    }
    assert(range@.subrange(0, range@.len() as int) =~= range@);
    if out.len() > 0 {
        out
    } else {
        range.clone()
    }
}

/// Relies on rand's `IndexedRandom::choose`: on a non-empty slice it returns
/// one of its elements, drawn with the thread-local generator.
#[verifier::external_body]
fn choose_key(keys: &Vec<Key>) -> (r: Key)
    requires
        keys@.len() > 0,
    ensures
        keys@.contains(r),
{
    *keys.as_slice().choose(&mut rand::rng()).unwrap()
}

/// What the caller does after an input event.
#[derive(Debug, Clone, Copy, PartialEq, Eq, Structural)]
pub enum Reaction {
    /// Nothing changed that is shown.
    Nothing,
    /// The current sheet changed: render it again.
    Redraw,
    /// The challenge is done: render the finished sheet and advance shortly.
    Finished,
}

/// Picks challenges and judges the keys played on them.
#[derive(Debug, Clone)]
pub struct ChallengeGenerator {
    range_treble: Option<Vec<Key>>,
    range_bass: Option<Vec<Key>>,
    enable_landmarks: bool,
    ids: IdGenerator,
    curr_challenge: Option<Challenge>,
    prev_challenge: Option<Challenge>,
    round: u64,
}

/// The staff split: the far end of the keyboard where only one clef is on,
/// so that every note lands on that clef's staff; `C4` otherwise.
pub open spec fn split_for(treble_on: bool, bass_on: bool) -> Key {
    if !treble_on && bass_on {
        Key { pos: KeyPos::CSharp, oct: 8 }
    } else if treble_on && !bass_on {
        Key { pos: KeyPos::A, oct: 0 }
    } else {
        Key { pos: KeyPos::C, oct: 4 }
    }
}

pub open spec fn opt_view(r: Option<Vec<Key>>) -> Option<Seq<Key>> {
    match r {
        Some(v) => Some(v@),
        None => None,
    }
}

pub open spec fn prev_required(p: Option<Challenge>) -> Set<Key> {
    match p {
        Some(c) => c.validator.required_set(),
        None => Set::<Key>::empty(),
    }
}

impl ChallengeGenerator {
    pub closed spec fn treble_range(&self) -> Option<Seq<Key>> {
        opt_view(self.range_treble)
    }

    pub closed spec fn bass_range(&self) -> Option<Seq<Key>> {
        opt_view(self.range_bass)
    }

    pub closed spec fn current(&self) -> Option<Challenge> {
        self.curr_challenge
    }

    pub closed spec fn previous(&self) -> Option<Challenge> {
        self.prev_challenge
    }

    pub closed spec fn landmarks(&self) -> bool {
        self.enable_landmarks
    }

    pub closed spec fn next_id(&self) -> u64 {
        self.ids.next
    }

    /// Counts the challenges started, wrapping around.
    pub closed spec fn round_view(&self) -> u64 {
        self.round
    }

    pub open spec fn wf(&self) -> bool {
        &&& (self.current() matches Some(c) ==> c.wf())
        &&& (self.previous() matches Some(c) ==> c.wf())
    }

    pub fn new(config: &Config, enable_landmarks: bool, ids: IdGenerator) -> (r: ChallengeGenerator)
        ensures
            r.wf(),
            r.treble_range() == clef_keys(config.treble),
            r.bass_range() == clef_keys(config.bass),
            r.current() is None,
            r.previous() is None,
            r.landmarks() == enable_landmarks,
            r.next_id() == ids.next,
            r.round_view() == 0,
    {
        let range_treble = config.treble.to_key_range();
        let range_bass = config.bass.to_key_range();
        Self::with_ranges(range_treble, range_bass, enable_landmarks, ids)
    }

    /// A generator over given key ranges; `None` turns a clef off.
    pub fn with_ranges(
        range_treble: Option<Vec<Key>>,
        range_bass: Option<Vec<Key>>,
        enable_landmarks: bool,
        ids: IdGenerator,
    ) -> (r: ChallengeGenerator)
        ensures
            r.wf(),
            r.treble_range() == opt_view(range_treble),
            r.bass_range() == opt_view(range_bass),
            r.current() is None,
            r.previous() is None,
            r.landmarks() == enable_landmarks,
            r.next_id() == ids.next,
            r.round_view() == 0,
    {
        ChallengeGenerator {
            range_treble,
            range_bass,
            enable_landmarks,
            ids,
            curr_challenge: None,
            prev_challenge: None,
            round: 0,
        }
    }

    /// The challenge being played, if any.
    pub fn current_challenge(&self) -> (r: Option<&Challenge>)
        ensures
            r == match self.current() {
                Some(c) => Some(&c),
                None => None::<&Challenge>,
            },
    {
        self.curr_challenge.as_ref()
    }

    /// The challenge played last, if any.
    pub fn previous_challenge(&self) -> (r: Option<&Challenge>)
        ensures
            r == match self.previous() {
                Some(c) => Some(&c),
                None => None::<&Challenge>,
            },
    {
        self.prev_challenge.as_ref()
    }

    /// The key that parts the treble staff from the bass staff.
    pub fn clef_split(&self) -> (r: Key)
        ensures
            r == split_for(self.treble_range() is Some, self.bass_range() is Some),
    {
        match (&self.range_treble, &self.range_bass) {
            (None, Some(_)) => KeyPos::CSharp.oct(8),
            (Some(_), None) => Keyboard::standard_88_key().first(),
            _ => KeyPos::C.oct(4),
        }
    }
}


/// The notes that a new challenge starts with: the treble key first, each
/// with the next identity, drawn in the default style.
pub open spec fn drawn_notes(treble: Option<Key>, bass: Option<Key>, next: u64) -> Seq<Note> {
    let t = match treble {
        Some(k) => seq![Note { id: crate::sheet::Id(next), key: k, style: Style::Default }],
        None => Seq::empty(),
    };
    let after = if treble is Some {
        following(next)
    } else {
        next
    };
    let b = match bass {
        Some(k) => seq![Note { id: crate::sheet::Id(after), key: k, style: Style::Default }],
        None => Seq::empty(),
    };
    t + b
}

/// The identity that follows the notes of a new challenge.
pub open spec fn drawn_next(treble: Option<Key>, bass: Option<Key>, next: u64) -> u64 {
    let after = if treble is Some {
        following(next)
    } else {
        next
    };
    if bass is Some {
        following(after)
    } else {
        after
    }
}

/// What stays the same over every step of a generator.
pub open spec fn same_setup(a: ChallengeGenerator, b: ChallengeGenerator) -> bool {
    &&& b.treble_range() == a.treble_range()
    &&& b.bass_range() == a.bass_range()
    &&& b.landmarks() == a.landmarks()
}

/// The previous challenge after a new one starts: the current one, if any.
pub open spec fn retired(g: ChallengeGenerator) -> Option<Challenge> {
    if g.current() is Some {
        g.current()
    } else {
        g.previous()
    }
}

/// `b` is `a` after a challenge on the keys `treble` and `bass` started.
pub open spec fn started(a: ChallengeGenerator, b: ChallengeGenerator, treble: Option<Key>, bass: Option<Key>) -> bool {
    let notes = drawn_notes(treble, bass, a.next_id());
    let split = split_for(a.treble_range() is Some, a.bass_range() is Some);
    &&& same_setup(a, b)
    &&& b.previous() == retired(a)
    &&& b.round_view() == following(a.round_view())
    &&& b.next_id() == drawn_next(treble, bass, a.next_id())
    &&& b.current() matches Some(c) && {
        &&& c.validator.expected_set() == note_keys(notes)
        &&& c.validator.validated_set() == Set::<Key>::empty()
        &&& c.sheet.notes_view() == crate::sheet::from_notes(notes)
        &&& c.sheet.split_view() == split
        &&& c.sheet.landmarks_view() == a.landmarks()
        &&& c.sheet.next_id_view() == b.next_id()
        &&& c.mode == staff_mode(notes, split)
    }
}

/// A key drawn from `range` is one of the candidates, and there is one exactly
/// where the range is there and not empty.
pub open spec fn drawn_ok(range: Option<Seq<Key>>, prev: Set<Key>, d: Option<Key>) -> bool {
    match range {
        Some(r) => if r.len() > 0 {
            d matches Some(k) && candidates(r, prev).contains(k)
        } else {
            d is None
        },
        None => d is None,
    }
}

/// `n` is challenge `c` after `key` was played on it.
pub open spec fn judged(c: Challenge, n: Challenge, key: Key) -> bool {
    let v = c.validator;
    &&& n.validator.wf()
    &&& n.sheet.wf()
    &&& n.validator.expected_set() == v.expected_set().remove(key)
    &&& n.validator.validated_set() == if v.expected_set().contains(key) {
        v.validated_set().insert(key)
    } else {
        v.validated_set()
    }
    &&& n.mode == c.mode
    &&& n.sheet.split_view() == c.sheet.split_view()
    &&& n.sheet.landmarks_view() == c.sheet.landmarks_view()
    &&& if v.required_set().contains(key) {
        &&& n.sheet.notes_view() == crate::sheet::restyled(c.sheet.notes_view(), key, Style::Correct)
        &&& n.sheet.next_id_view() == c.sheet.next_id_view()
    } else {
        &&& n.sheet.notes_view() == crate::sheet::upsert(
            c.sheet.notes_view(),
            Note { id: crate::sheet::Id(c.sheet.next_id_view()), key, style: Style::Incorrect },
        )
        &&& n.sheet.next_id_view() == following(c.sheet.next_id_view())
    }
}

/// `n` is challenge `c` after `key` was released on it.
pub open spec fn released(c: Challenge, n: Challenge, key: Key) -> bool {
    &&& n.validator == c.validator
    &&& n.sheet.wf()
    &&& n.mode == c.mode
    &&& n.sheet.split_view() == c.sheet.split_view()
    &&& n.sheet.landmarks_view() == c.sheet.landmarks_view()
    &&& n.sheet.next_id_view() == c.sheet.next_id_view()
    &&& n.sheet.notes_view() == crate::sheet::without_key(c.sheet.notes_view(), key)
}

impl ChallengeGenerator {
    /// Starts a challenge on the keys drawn for each clef; the current one
    /// becomes the previous one.
    pub fn start_challenge(&mut self, treble: Option<Key>, bass: Option<Key>)
        requires
            old(self).wf(),
        ensures
            final(self).wf(),
            started(*old(self), *final(self), treble, bass),
    {
        let split = self.clef_split();
        let mut notes: Vec<Note> = Vec::new();
        match treble {
            Some(k) => {
                let id = self.ids.generate();
                notes.push(Note::new(k, Style::Default, id));
            },
            None => {},
        }
        match bass {
            Some(k) => {
                let id = self.ids.generate();
                notes.push(Note::new(k, Style::Default, id));
            },
            None => {},
        }
        assert(notes@ =~= drawn_notes(treble, bass, old(self).ids.next));
        let challenge = Challenge::new(notes.as_slice(), split, self.enable_landmarks, self.ids);
        let finished = self.curr_challenge.take();
        match finished {
            Some(c) => {
                self.prev_challenge = Some(c);
            },
            None => {},
        }
        self.curr_challenge = Some(challenge);
        self.round = if self.round == u64::MAX {
            0
        } else {
            self.round + 1
        };
    }

    /// A key for a clef with keys `range`, one that the previous challenge did
    /// not require where the range has one.
    fn choose_note(range: &Vec<Key>, prev: Option<&Validator>) -> (r: Key)
        requires
            range@.len() > 0,
        ensures
            candidates(
                range@,
                match prev {
                    Some(v) => v.required_set(),
                    None => Set::<Key>::empty(),
                },
            ).contains(r),
    {
        let cands = fresh_candidates(range, prev);
        choose_key(&cands)
    }

    /// Draws a key at random for each clef that is on and starts a challenge on them.
    pub fn advance(&mut self)
        requires
            old(self).wf(),
        ensures
            final(self).wf(),
            exists|t: Option<Key>, b: Option<Key>|
                drawn_ok(old(self).treble_range(), prev_required(retired(*old(self))), t)
                    && drawn_ok(old(self).bass_range(), prev_required(retired(*old(self))), b)
                    && started(*old(self), *final(self), t, b),
    {
        let ghost req = prev_required(retired(*self));
        let prev: Option<&Validator> = match &self.curr_challenge {
            Some(c) => Some(&c.validator),
            None => match &self.prev_challenge {
                Some(c) => Some(&c.validator),
                None => None,
            },
        };
        assert(req == match prev {
            Some(v) => v.required_set(),
            None => Set::<Key>::empty(),
        });
        let treble = match &self.range_treble {
            Some(r) => if r.len() > 0 {
                Some(Self::choose_note(r, prev))
            } else {
                None
            },
            None => None,
        };
        let bass = match &self.range_bass {
            Some(r) => if r.len() > 0 {
                Some(Self::choose_note(r, prev))
            } else {
                None
            },
            None => None,
        };
        assert(drawn_ok(self.treble_range(), req, treble));
        assert(drawn_ok(self.bass_range(), req, bass));
        self.start_challenge(treble, bass);
    }

    /// The number of the challenge that started last.
    pub fn round(&self) -> (r: u64)
        ensures
            r == self.round_view(),
    {
        self.round
    }

    /// Advances when the pause after a finished challenge of round `round`
    /// ends; nothing happens where a challenge started since.
    pub fn advance_after_delay(&mut self, round: u64) -> (r: bool)
        requires
            old(self).wf(),
        ensures
            final(self).wf(),
            r == (round == old(self).round_view() && old(self).current() is None),
            !r ==> *final(self) == *old(self),
            r ==> exists|t: Option<Key>, b: Option<Key>|
                drawn_ok(old(self).treble_range(), prev_required(retired(*old(self))), t)
                    && drawn_ok(old(self).bass_range(), prev_required(retired(*old(self))), b)
                    && started(*old(self), *final(self), t, b),
    {
        if round == self.round && self.curr_challenge.is_none() {
            self.advance();
            true
        } else {
            false
        }
    }

    /// Judges a pressed key against the current challenge.
    pub fn note_on(&mut self, key: Key) -> (r: Reaction)
        requires
            old(self).wf(),
        ensures
            final(self).wf(),
            same_setup(*old(self), *final(self)),
            final(self).next_id() == old(self).next_id(),
            final(self).round_view() == old(self).round_view(),
            old(self).current() is None ==> r == Reaction::Nothing && final(self).current() is None
                && final(self).previous() == old(self).previous(),
            old(self).current() matches Some(c) ==> {
                let v = c.validator;
                let done = v.required_set().contains(key) && v.expected_set().remove(key)
                    == Set::<Key>::empty();
                &&& (r == Reaction::Finished) == done
                &&& done ==> final(self).current() is None && final(self).previous() is Some
                    && judged(c, final(self).previous()->Some_0, key)
                &&& !done ==> r == Reaction::Redraw && final(self).previous() == old(self).previous()
                    && final(self).current() is Some && judged(c, final(self).current()->Some_0, key)
            },
    {
        let cur = self.curr_challenge.take();
        match cur {
            None => Reaction::Nothing,
            Some(c) => {
                let mut c = c;
                if c.validator.validate(key) {
                    c.sheet.set_note_style(key, Style::Correct);
                    if c.validator.finished() {
                        self.prev_challenge = Some(c);
                        Reaction::Finished
                    } else {
                        self.curr_challenge = Some(c);
                        Reaction::Redraw
                    }
                } else {
                    c.sheet.add_note(key, Style::Incorrect);
                    self.curr_challenge = Some(c);
                    Reaction::Redraw
                }
            },
        }
    }

    /// Handles a released key: a wrong key's note leaves the sheet.
    pub fn note_off(&mut self, key: Key) -> (r: Reaction)
        requires
            old(self).wf(),
        ensures
            final(self).wf(),
            same_setup(*old(self), *final(self)),
            final(self).next_id() == old(self).next_id(),
            final(self).round_view() == old(self).round_view(),
            final(self).previous() == old(self).previous(),
            old(self).current() is None ==> r == Reaction::Nothing && final(self).current() is None,
            old(self).current() matches Some(c) ==> if c.validator.required_set().contains(key) {
                r == Reaction::Nothing && final(self).current() == old(self).current()
            } else {
                r == Reaction::Redraw && final(self).current() is Some && released(
                    c,
                    final(self).current()->Some_0,
                    key,
                )
            },
    {
        let cur = self.curr_challenge.take();
        match cur {
            None => Reaction::Nothing,
            Some(c) => {
                let mut c = c;
                if c.validator.required(key) {
                    self.curr_challenge = Some(c);
                    Reaction::Nothing
                } else {
                    c.sheet.remove_note(key);
                    self.curr_challenge = Some(c);
                    Reaction::Redraw
                }
            },
        }
    }

    /// Renders the current challenge, or the one just finished where none is
    /// current: the score and the style rules.
    pub fn render_hint(&mut self) -> (r: Option<(String, String)>)
        requires
            old(self).wf(),
        ensures
            final(self).wf(),
            same_setup(*old(self), *final(self)),
            final(self).next_id() == old(self).next_id(),
            final(self).round_view() == old(self).round_view(),
            old(self).current() is None && old(self).previous() is None ==> r is None,
            r matches Some(m) ==> {
                let c = if old(self).current() is Some {
                    old(self).current()->Some_0
                } else {
                    old(self).previous()->Some_0
                };
                let n = if old(self).current() is Some {
                    final(self).current()->Some_0
                } else {
                    final(self).previous()->Some_0
                };
                &&& (m.0@, m.1@, n.sheet.next_id_view()) == crate::sheet::hint_markup(
                    c.sheet.landmarks_view(),
                    c.sheet.notes_view(),
                    c.sheet.split_view(),
                    c.sheet.next_id_view(),
                )
                &&& n.sheet.notes_view() == c.sheet.notes_view()
                &&& n.validator == c.validator
            },
            (old(self).current() is Some || old(self).previous() is Some) ==> r is Some,
    {
        let cur = self.curr_challenge.take();
        match cur {
            Some(c) => {
                let mut c = c;
                let m = c.sheet.render_hint();
                self.curr_challenge = Some(c);
                Some(m)
            },
            None => {
                let prev = self.prev_challenge.take();
                match prev {
                    Some(c) => {
                        let mut c = c;
                        let m = c.sheet.render_hint();
                        self.prev_challenge = Some(c);
                        Some(m)
                    },
                    None => None,
                }
            },
        }
    }
}

/// Two challenges in a row on the treble clef alone, over a range that holds
/// two different keys: the key of the second is not the key of the first.
pub proof fn lemma_advance_twice(
    g0: ChallengeGenerator,
    g1: ChallengeGenerator,
    t1: Key,
    t2: Key,
)
    requires
        g0.bass_range() is None,
        g0.treble_range() is Some,
        exists|i: int, j: int|
            0 <= i < g0.treble_range()->Some_0.len() && 0 <= j < g0.treble_range()->Some_0.len()
                && g0.treble_range()->Some_0[i] != g0.treble_range()->Some_0[j],
        started(g0, g1, Some(t1), None),
        drawn_ok(g1.treble_range(), prev_required(retired(g1)), Some(t2)),
    ensures
        t2 != t1,
{
    let range = g0.treble_range()->Some_0;
    let notes = drawn_notes(Some(t1), None, g0.next_id());
    assert(notes.map_values(|n: Note| n.key) =~= seq![t1]);
    assert forall|x: Key| seq![t1].contains(x) <==> x == t1 by {
        if x == t1 {
            assert(seq![t1][0] == t1);
        }
    }
    assert(note_keys(notes) =~= set![t1]);
    let c = g1.current()->Some_0;
    assert(prev_required(retired(g1)) =~= set![t1]);
    let (i, j) = choose|i: int, j: int|
        0 <= i < range.len() && 0 <= j < range.len() && range[i] != range[j];
    if range[i] != t1 {
        lemma_no_repeat(range, set![t1], t2);
    } else {
        assert(!set![t1].contains(range[j]));
        lemma_no_repeat(range, set![t1], t2);
    }
}

/// Numbers render requests, so that only the answer to the latest one is used.
#[derive(Debug, Clone, Copy)]
pub struct RenderRequests {
    latest: u64,
}

impl RenderRequests {
    pub closed spec fn latest_view(&self) -> u64 {
        self.latest
    }

    pub fn new() -> (r: RenderRequests)
        ensures
            r.latest_view() == 0,
    {
        RenderRequests { latest: 0 }
    }

    /// The ticket of a new request, which makes every earlier one stale.
    pub fn issue(&mut self) -> (r: u64)
        ensures
            r == following(old(self).latest_view()),
            final(self).latest_view() == r,
    {
        self.latest = if self.latest == u64::MAX {
            0
        } else {
            self.latest + 1
        };
        self.latest
    }

    /// Whether the answer to request `ticket` is to be used.
    pub fn is_latest(&self, ticket: u64) -> (r: bool)
        ensures
            r == (ticket == self.latest_view()),
    {
        ticket == self.latest
    }
}

/// Once a request is issued, the answer to the one before is stale.
pub proof fn lemma_last_request_wins(latest: u64)
    ensures
        following(latest) != latest,
        following(following(latest)) != following(latest),
{
}

} // verus!
