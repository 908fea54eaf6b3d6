use vstd::prelude::*;
use crate::keyboard::{key_code, pos_is_sharp, pos_letter, Key};
use crate::text::{
    decimal_digits, find_from, hex_digits, lemma_find_from, occurs_at, push_decimal, push_hex,
    replace_first, replace_first_exec,
};

verus! {

/// Score with a treble and a bass staff; each placeholder stands once.
pub const TEMPLATE: &'static str = "<mei xmlns=\"http://www.music-encoding.org/ns/mei\" meiversion=\"5.0\"><music><body><mdiv><score><scoreDef><staffGrp symbol=\"brace\" bar.thru=\"true\"><staffDef n=\"1\" lines=\"5\" clef.shape=\"G\" clef.line=\"2\"/><staffDef n=\"2\" lines=\"5\" clef.shape=\"F\" clef.line=\"4\"/></staffGrp></scoreDef><section><measure n=\"1\"><staff n=\"1\"><layer n=\"1\">{{treble_notes}}</layer></staff><staff n=\"2\"><layer n=\"1\">{{bass_notes}}</layer></staff></measure></section></score></mdiv></body></music></mei>";

/// The same score with the landmark notes of each staff named beside it.
pub const TEMPLATE_LANDMARKS: &'static str = "<mei xmlns=\"http://www.music-encoding.org/ns/mei\" meiversion=\"5.0\"><music><body><mdiv><score><scoreDef><staffGrp symbol=\"brace\" bar.thru=\"true\"><staffDef n=\"1\" lines=\"5\" clef.shape=\"G\" clef.line=\"2\" label=\"G4 C5 C6\"/><staffDef n=\"2\" lines=\"5\" clef.shape=\"F\" clef.line=\"4\" label=\"C2 C3 F3\"/></staffGrp></scoreDef><section><measure n=\"1\"><staff n=\"1\"><layer n=\"1\">{{treble_notes}}</layer></staff><staff n=\"2\"><layer n=\"1\">{{bass_notes}}</layer></staff></measure></section></score></mdiv></body></music></mei>";

pub const TREBLE_NOTES_PAT: &'static str = "{{treble_notes}}";

pub const BASS_NOTES_PAT: &'static str = "{{bass_notes}}";

/// Closing marker of the style block of a rendered image.
pub const STYLE_END: &'static str = "</style>";

pub const STYLE_CORRECT_RULE: &'static str = " path, use { fill: #2e9c48; stroke: #2e9c48; }";

pub const STYLE_INCORRECT_RULE: &'static str = " path, use { fill: #d7263d; stroke: #d7263d; }";

/// Identity of an element of a rendered score.
#[derive(Debug, Clone, Copy, PartialEq, Eq, Structural)]
pub struct Id(pub u64);

/// Text of an identity: `id` and sixteen lower-case hexadecimal digits.
pub open spec fn id_text(v: u64) -> Seq<char> {
    seq!['i', 'd'] + hex_digits(v as nat, 16)
}

/// Relies on rand::random: some `u64`, of which nothing is known.
#[verifier::external_body]
fn random_u64() -> (r: u64) {
    rand::random::<u64>()
}

impl Id {
    /// A random identity.
    pub fn generate() -> (r: Id) {
        Id(random_u64())
    }

    pub fn to_string(&self) -> (r: String)
        ensures
            r@ == id_text(self.0),
    {
        proof {
            reveal_strlit("id");
        }
        let mut s = String::from_str("id");
        push_hex(&mut s, self.0, 16);
        s
    }
}

/// The identity handed out after `x`.
pub open spec fn following(x: u64) -> u64 {
    if x == u64::MAX {
        0
    } else {
        (x + 1) as u64
    }
}

/// Hands out identities one after the other; none repeats before all
/// 2^64 values have been handed out.
#[derive(Debug, Clone, Copy, PartialEq, Eq, Structural)]
pub struct IdGenerator {
    pub next: u64,
}

impl IdGenerator {
    pub fn new(seed: u64) -> (r: IdGenerator)
        ensures
            r.next == seed,
    {
        IdGenerator { next: seed }
    }

    /// A generator that starts at a random identity.
    pub fn random() -> (r: IdGenerator) {
        IdGenerator { next: Id::generate().0 }
    }

    pub fn generate(&mut self) -> (r: Id)
        ensures
            r == Id(old(self).next),
            final(self).next == following(old(self).next),
    {
        let id = Id(self.next);
        if self.next == u64::MAX {
            self.next = 0;
        } else {
            self.next = self.next + 1;
        }
        id
    }
}

/// How a note is drawn.
#[derive(Debug, Clone, Copy, PartialEq, Eq, Structural)]
pub enum Style {
    Default,
    Correct,
    Incorrect,
}

impl Default for Style {
    fn default() -> (r: Style)
        ensures
            r is Default,
    {
        Style::Default
    }
}

/// A note of a sheet.
#[derive(Debug, Clone, Copy, PartialEq, Eq, Structural)]
pub struct Note {
    pub id: Id,
    pub key: Key,
    pub style: Style,
}

/// Style rule that draws note `n` in its style; nothing for the default style.
pub open spec fn style_fragment(n: Note) -> Seq<char> {
    match n.style {
        Style::Default => Seq::empty(),
        Style::Correct => seq!['#'] + id_text(n.id.0) + STYLE_CORRECT_RULE@,
        Style::Incorrect => seq!['#'] + id_text(n.id.0) + STYLE_INCORRECT_RULE@,
    }
}

impl Note {
    pub fn new(key: Key, style: Style, id: Id) -> (r: Note)
        ensures
            r == (Note { id, key, style }),
    {
        Note { id, key, style }
    }

    pub fn render_style(&self) -> (r: String)
        ensures
            r@ == style_fragment(*self),
    {
        match self.style {
            Style::Default => String::new(),
            Style::Correct => {
                proof {
                    reveal_strlit("#");
                }
                let mut s = String::from_str("#");
                s.append(self.id.to_string().as_str());
                s.append(STYLE_CORRECT_RULE);
                s
            },
            Style::Incorrect => {
                proof {
                    reveal_strlit("#");
                }
                let mut s = String::from_str("#");
                s.append(self.id.to_string().as_str());
                s.append(STYLE_INCORRECT_RULE);
                s
            },
        }
    }
}

/// Markup of a sharp sign.
pub open spec fn accid_mei(id: u64) -> Seq<char> {
    "<accid xml:id=\""@ + id_text(id) + "\" accid=\"s\"/>"@
}

/// Markup of a whole-measure rest.
pub open spec fn rest_mei(id: u64) -> Seq<char> {
    "<mRest xml:id=\""@ + id_text(id) + "\" />"@
}

/// Markup of one note, and the next free identity; a sharp takes one identity.
pub open spec fn note_mei(n: Note, next: u64) -> (Seq<char>, u64) {
    let sharp = pos_is_sharp(n.key.pos);
    (
        "<note xml:id=\""@ + id_text(n.id.0) + "\" dur=\"1\" pname=\""@ + seq![pos_letter(n.key.pos)]
            + "\" oct=\""@ + decimal_digits(n.key.oct as nat) + "\">"@ + (if sharp {
            accid_mei(next)
        } else {
            Seq::empty()
        }) + "</note>"@,
        if sharp {
            following(next)
        } else {
            next
        },
    )
}

/// Markup of notes one after the other, and the next free identity.
pub open spec fn notes_seq_mei(s: Seq<Note>, next: u64) -> (Seq<char>, u64)
    decreases s.len(),
{
    if s.len() == 0 {
        (Seq::empty(), next)
    } else {
        let p = notes_seq_mei(s.drop_last(), next);
        let m = note_mei(s.last(), p.1);
        (p.0 + m.0, m.1)
    }
}

/// Markup of a single note, or of a chord that holds several.
pub open spec fn notes_mei(s: Seq<Note>, next: u64) -> (Seq<char>, u64) {
    if s.len() == 1 {
        note_mei(s[0], next)
    } else {
        let inner = notes_seq_mei(s, following(next));
        ("<chord xml:id=\""@ + id_text(next) + "\" dur=\"1\">"@ + inner.0 + "</chord>"@, inner.1)
    }
}

/// Markup of one staff: a rest where it holds no note.
pub open spec fn side_mei(s: Seq<Note>, next: u64) -> (Seq<char>, u64) {
    if s.len() == 0 {
        (rest_mei(next), following(next))
    } else {
        notes_mei(s, next)
    }
}

/// Style rules of the notes of `s`, in their order.
pub open spec fn styles_of(s: Seq<Note>) -> Seq<char>
    decreases s.len(),
{
    if s.len() == 0 {
        Seq::empty()
    } else {
        styles_of(s.drop_last()) + style_fragment(s.last())
    }
}

/// Whether a note belongs on the treble staff.
pub open spec fn treble_pred(split: Key) -> spec_fn(Note) -> bool {
    |n: Note| key_code(n.key) >= key_code(split)
}

/// Whether a note belongs on the bass staff.
pub open spec fn bass_pred(split: Key) -> spec_fn(Note) -> bool {
    |n: Note| key_code(n.key) < key_code(split)
}

pub open spec fn treble_of(s: Seq<Note>, split: Key) -> Seq<Note> {
    s.filter(treble_pred(split))
}

pub open spec fn bass_of(s: Seq<Note>, split: Key) -> Seq<Note> {
    s.filter(bass_pred(split))
}

/// The score, the style rules and the next free identity of a sheet.
pub open spec fn hint_markup(landmarks: bool, notes: Seq<Note>, split: Key, next: u64) -> (
    Seq<char>,
    Seq<char>,
    u64,
) {
    let treble = treble_of(notes, split);
    let bass = bass_of(notes, split);
    let t = side_mei(treble, next);
    let b = side_mei(bass, t.1);
    let template = if landmarks {
        TEMPLATE_LANDMARKS@
    } else {
        TEMPLATE@
    };
    (
        replace_first(replace_first(template, TREBLE_NOTES_PAT@, t.0), BASS_NOTES_PAT@, b.0),
        styles_of(treble) + styles_of(bass),
        b.1,
    )
}

/// No two notes share a key.
pub open spec fn keys_unique(s: Seq<Note>) -> bool {
    forall|i: int, j: int| 0 <= i < j < s.len() ==> s[i].key != s[j].key
}

/// Whether some note of `s` is on key `k`.
pub open spec fn has_key(s: Seq<Note>, k: Key) -> bool {
    exists|i: int| 0 <= i < s.len() && s[i].key == k
}

/// Position of the note on key `k`.
pub open spec fn key_index(s: Seq<Note>, k: Key) -> int {
    choose|i: int| 0 <= i < s.len() && s[i].key == k
}

/// `s` with `n` in place of the note on its key, or `n` added last.
pub open spec fn upsert(s: Seq<Note>, n: Note) -> Seq<Note> {
    if has_key(s, n.key) {
        s.update(key_index(s, n.key), n)
    } else {
        s.push(n)
    }
}

/// Notes of `s` inserted in order, a later note replacing an earlier one on its key.
pub open spec fn from_notes(s: Seq<Note>) -> Seq<Note>
    decreases s.len(),
{
    if s.len() == 0 {
        Seq::empty()
    } else {
        upsert(from_notes(s.drop_last()), s.last())
    }
}

/// `s` without the note on key `k`.
pub open spec fn without_key(s: Seq<Note>, k: Key) -> Seq<Note> {
    if has_key(s, k) {
        s.remove(key_index(s, k))
    } else {
        s
    }
}

/// `s` with the note on key `k` drawn in `style`.
pub open spec fn restyled(s: Seq<Note>, k: Key, style: Style) -> Seq<Note> {
    if has_key(s, k) {
        s.update(key_index(s, k), Note { style, ..s[key_index(s, k)] })
    } else {
        s
    }
}

proof fn lemma_key_index(s: Seq<Note>, i: int)
    requires
        keys_unique(s),
        0 <= i < s.len(),
    ensures
        has_key(s, s[i].key),
        key_index(s, s[i].key) == i,
{
    assert(has_key(s, s[i].key));
}

proof fn lemma_upsert_unique(s: Seq<Note>, n: Note)
    requires
        keys_unique(s),
    ensures
        keys_unique(upsert(s, n)),
{
    if has_key(s, n.key) {
        let k = key_index(s, n.key);
        assert(s[k].key == n.key);
    }
}

/// A sheet of notes, at most one per key, drawn on two staves split at `clef_split`.
#[derive(Debug, Clone)]
pub struct Sheet {
    enable_landmarks: bool,
    clef_split: Key,
    notes: Vec<Note>,
    ids: IdGenerator,
}

impl Sheet {
    pub closed spec fn notes_view(&self) -> Seq<Note> {
        self.notes@
    }

    pub closed spec fn split_view(&self) -> Key {
        self.clef_split
    }

    pub closed spec fn landmarks_view(&self) -> bool {
        self.enable_landmarks
    }

    /// The identity that the next rendered element takes.
    pub closed spec fn next_id_view(&self) -> u64 {
        self.ids.next
    }

    pub open spec fn wf(&self) -> bool {
        keys_unique(self.notes_view())
    }

    /// A sheet of `notes`; of two notes on one key the later stays.
    pub fn new(enable_landmarks: bool, notes: &[Note], clef_split: Key, ids: IdGenerator) -> (r: Sheet)
        ensures
            r.wf(),
            r.notes_view() == from_notes(notes@),
            r.split_view() == clef_split,
            r.landmarks_view() == enable_landmarks,
            r.next_id_view() == ids.next,
    {
        let mut sheet = Sheet { enable_landmarks, clef_split, notes: Vec::new(), ids };
        assert(sheet.notes@ =~= from_notes(notes@.subrange(0, 0)));
        for i in 0..notes.len()
            invariant
                sheet.wf(),
                sheet.notes@ == from_notes(notes@.subrange(0, i as int)),
                sheet.clef_split == clef_split,
                sheet.enable_landmarks == enable_landmarks,
                sheet.ids == ids,
        {
            assert(notes@.subrange(0, i + 1).drop_last() =~= notes@.subrange(0, i as int));
            sheet.put_note(notes[i]);
        }
        assert(notes@.subrange(0, notes@.len() as int) =~= notes@);
        sheet
    }

    /// The notes, in the order they were first put on the sheet.
    pub fn notes(&self) -> (r: &[Note])
        ensures
            r@ == self.notes_view(),
    {
        self.notes.as_slice()
    }

    /// Position of the note on `key`.
    fn find(&self, key: Key) -> (r: Option<usize>)
        requires
            self.wf(),
        ensures
            r matches Some(i) ==> has_key(self.notes@, key) && i == key_index(self.notes@, key) && i
                < self.notes@.len(),
            r is None ==> !has_key(self.notes@, key),
    {
        for i in 0..self.notes.len()
            invariant
                self.wf(),
                forall|j: int| 0 <= j < i ==> self.notes@[j].key != key,
        {
            if self.notes[i].key == key {
                proof {
                    lemma_key_index(self.notes@, i as int);
                }
                return Some(i);
            }
        }
        None
    }

    fn put_note(&mut self, note: Note)
        requires
            old(self).wf(),
        ensures
            final(self).wf(),
            final(self).notes@ == upsert(old(self).notes@, note),
            final(self).clef_split == old(self).clef_split,
            final(self).enable_landmarks == old(self).enable_landmarks,
            final(self).ids == old(self).ids,
    {
        proof {
            lemma_upsert_unique(self.notes@, note);
        }
        match self.find(note.key) {
            Some(i) => {
                self.notes.set(i, note);
            },
            None => {
                self.notes.push(note);
            },
        }
    }

    /// Puts a note on `key` in `style`, replacing the one there; it takes the
    /// next identity.
    pub fn add_note(&mut self, key: Key, style: Style)
        requires
            old(self).wf(),
        ensures
            final(self).wf(),
            final(self).notes_view() == upsert(
                old(self).notes_view(),
                Note { id: Id(old(self).next_id_view()), key, style },
            ),
            final(self).next_id_view() == following(old(self).next_id_view()),
            final(self).split_view() == old(self).split_view(),
            final(self).landmarks_view() == old(self).landmarks_view(),
    {
        let id = self.ids.generate();
        let note = Note::new(key, style, id);
        self.put_note(note);
    }

    /// Takes the note on `key` away, if there is one.
    pub fn remove_note(&mut self, key: Key)
        requires
            old(self).wf(),
        ensures
            final(self).wf(),
            final(self).notes_view() == without_key(old(self).notes_view(), key),
            final(self).next_id_view() == old(self).next_id_view(),
            final(self).split_view() == old(self).split_view(),
            final(self).landmarks_view() == old(self).landmarks_view(),
    {
        match self.find(key) {
            Some(i) => {
                self.notes.remove(i);
            },
            None => {},
        }
    }

    /// Draws the note on `key` in `style`; nothing happens where there is none.
    pub fn set_note_style(&mut self, key: Key, style: Style)
        requires
            old(self).wf(),
        ensures
            final(self).wf(),
            final(self).notes_view() == restyled(old(self).notes_view(), key, style),
            final(self).next_id_view() == old(self).next_id_view(),
            final(self).split_view() == old(self).split_view(),
            final(self).landmarks_view() == old(self).landmarks_view(),
    {
        match self.find(key) {
            Some(i) => {
                let old_note = self.notes[i];
                self.notes.set(i, Note { style, ..old_note });
            },
            None => {},
        }
    }

    /// Notes on the treble staff, in sheet order.
    pub fn treble_iter(&self) -> (r: Vec<Note>)
        ensures
            r@ == treble_of(self.notes_view(), self.split_view()),
    {
        let split = self.clef_split.code();
        let mut out: Vec<Note> = Vec::new();
        for i in 0..self.notes.len()
            invariant
                split == key_code(self.clef_split),
                out@ == treble_of(self.notes@.subrange(0, i as int), self.clef_split),
        {
            let n = self.notes[i];
            proof {
                assert(self.notes@.subrange(0, i + 1) =~= self.notes@.subrange(0, i as int).push(n));
                self.notes@.subrange(0, i as int).lemma_filter_push(n, treble_pred(self.clef_split));
            }
            if n.key.code() >= split {
                out.push(n);
            }
        }
        assert(self.notes@.subrange(0, self.notes@.len() as int) =~= self.notes@);
        out
    }

    /// Notes on the bass staff, in sheet order.
    pub fn bass_iter(&self) -> (r: Vec<Note>)
        ensures
            r@ == bass_of(self.notes_view(), self.split_view()),
    {
        let split = self.clef_split.code();
        let mut out: Vec<Note> = Vec::new();
        for i in 0..self.notes.len()
            invariant
                split == key_code(self.clef_split),
                out@ == bass_of(self.notes@.subrange(0, i as int), self.clef_split),
        {
            let n = self.notes[i];
            proof {
                assert(self.notes@.subrange(0, i + 1) =~= self.notes@.subrange(0, i as int).push(n));
                self.notes@.subrange(0, i as int).lemma_filter_push(n, bass_pred(self.clef_split));
            }
            if n.key.code() < split {
                out.push(n);
            }
        }
        assert(self.notes@.subrange(0, self.notes@.len() as int) =~= self.notes@);
        out
    }

    /// The score to render and the style rules to splice into the image.
    pub fn render_hint(&mut self) -> (r: (String, String))
        requires
            old(self).wf(),
        ensures
            final(self).wf(),
            (r.0@, r.1@, final(self).next_id_view()) == hint_markup(
                old(self).landmarks_view(),
                old(self).notes_view(),
                old(self).split_view(),
                old(self).next_id_view(),
            ),
            final(self).notes_view() == old(self).notes_view(),
            final(self).split_view() == old(self).split_view(),
            final(self).landmarks_view() == old(self).landmarks_view(),
    {
        let treble_notes = self.treble_iter();
        let treble = render_side(&treble_notes, &mut self.ids);
        let treble_styles = render_note_styles(&treble_notes);
        let bass_notes = self.bass_iter();
        let bass = render_side(&bass_notes, &mut self.ids);
        let bass_styles = render_note_styles(&bass_notes);
        let template = if self.enable_landmarks {
            TEMPLATE_LANDMARKS
        } else {
            TEMPLATE
        };
        let with_treble = replace_first_exec(template, TREBLE_NOTES_PAT, treble.as_str());
        let mei = replace_first_exec(with_treble.as_str(), BASS_NOTES_PAT, bass.as_str());
        let mut styles = treble_styles;
        styles.append(bass_styles.as_str());
        (mei, styles)
    }
}

pub fn generate_accid_sharp(ids: &mut IdGenerator) -> (r: String)
    ensures
        r@ == accid_mei(old(ids).next),
        final(ids).next == following(old(ids).next),
{
    let id = ids.generate();
    let mut s = String::from_str("<accid xml:id=\"");
    s.append(id.to_string().as_str());
    s.append("\" accid=\"s\"/>");
    s
}

pub fn generate_rest(ids: &mut IdGenerator) -> (r: String)
    ensures
        r@ == rest_mei(old(ids).next),
        final(ids).next == following(old(ids).next),
{
    let id = ids.generate();
    let mut s = String::from_str("<mRest xml:id=\"");
    s.append(id.to_string().as_str());
    s.append("\" />");
    s
}

pub fn render_note_mei(note: &Note, ids: &mut IdGenerator) -> (r: String)
    ensures
        (r@, final(ids).next) == note_mei(*note, old(ids).next),
{
    let mut s = String::from_str("<note xml:id=\"");
    s.append(note.id.to_string().as_str());
    s.append("\" dur=\"1\" pname=\"");
    s.append(note.key.pos.pitch_name());
    s.append("\" oct=\"");
    push_decimal(&mut s, note.key.oct);
    s.append("\">");
    if note.key.pos.is_sharp() {
        let accid = generate_accid_sharp(ids);
        s.append(accid.as_str());
    }
    s.append("</note>");
    s
}

/// Markup of the notes one after the other.
fn render_notes_seq(notes: &Vec<Note>, ids: &mut IdGenerator) -> (r: String)
    ensures
        (r@, final(ids).next) == notes_seq_mei(notes@, old(ids).next),
{
    let mut s = String::new();
    assert(notes@.subrange(0, 0) =~= Seq::<Note>::empty());
    for i in 0..notes.len()
        invariant
            (s@, ids.next) == notes_seq_mei(notes@.subrange(0, i as int), old(ids).next),
    {
        assert(notes@.subrange(0, i + 1).drop_last() =~= notes@.subrange(0, i as int));
        let m = render_note_mei(&notes[i], ids);
        s.append(m.as_str());
    }
    assert(notes@.subrange(0, notes@.len() as int) =~= notes@);
    s
}

pub fn render_notes_mei(notes: &Vec<Note>, ids: &mut IdGenerator) -> (r: String)
    requires
        notes@.len() > 0,
    ensures
        (r@, final(ids).next) == notes_mei(notes@, old(ids).next),
{
    if notes.len() == 1 {
        render_note_mei(&notes[0], ids)
    } else {
        let id = ids.generate();
        let mut chord = String::from_str("<chord xml:id=\"");
        chord.append(id.to_string().as_str());
        chord.append("\" dur=\"1\">");
        let inner = render_notes_seq(notes, ids);
        chord.append(inner.as_str());
        chord.append("</chord>");
        chord
    }
}

/// Markup of one staff.
fn render_side(notes: &Vec<Note>, ids: &mut IdGenerator) -> (r: String)
    ensures
        (r@, final(ids).next) == side_mei(notes@, old(ids).next),
{
    if notes.len() == 0 {
        generate_rest(ids)
    } else {
        render_notes_mei(notes, ids)
    }
}

pub fn render_note_styles(notes: &Vec<Note>) -> (r: String)
    ensures
        r@ == styles_of(notes@),
{
    let mut s = String::new();
    assert(notes@.subrange(0, 0) =~= Seq::<Note>::empty());
    for i in 0..notes.len()
        invariant
            s@ == styles_of(notes@.subrange(0, i as int)),
    {
        assert(notes@.subrange(0, i + 1).drop_last() =~= notes@.subrange(0, i as int));
        let f = notes[i].render_style();
        s.append(f.as_str());
    }
    assert(notes@.subrange(0, notes@.len() as int) =~= notes@);
    s
}

/// The image with `styles` placed right before its first closing style marker.
pub fn inject_styles(svg: &str, styles: &str) -> (r: String)
    ensures
        r@ == replace_first(svg@, STYLE_END@, styles@ + STYLE_END@),
{
    let mut with = String::from_str(styles);
    with.append(STYLE_END);
    replace_first_exec(svg, STYLE_END, with.as_str())
}


proof fn lemma_filter_none(s: Seq<Note>, p: spec_fn(Note) -> bool)
    requires
        forall|i: int| 0 <= i < s.len() ==> !p(s[i]),
    ensures
        s.filter(p).len() == 0,
    decreases s.len(),
{
    reveal(Seq::filter);
    if s.len() > 0 {
        lemma_filter_none(s.drop_last(), p);
    }
}

/// A staff without notes is drawn as a rest; a staff with notes is drawn
/// with them and never as a rest.
pub proof fn lemma_side_fragment(notes: Seq<Note>, next: u64)
    ensures
        notes.len() == 0 ==> side_mei(notes, next).0 == rest_mei(next),
        notes.len() > 0 ==> forall|k: u64| side_mei(notes, next).0 != rest_mei(k),
{
    reveal_strlit("<note xml:id=\"");
    reveal_strlit("<chord xml:id=\"");
    reveal_strlit("<mRest xml:id=\"");
    if notes.len() > 0 {
        let m = side_mei(notes, next).0;
        assert(m[1] != 'm');
        assert forall|k: u64| m != rest_mei(k) by {
            assert(rest_mei(k)[1] == 'm');
        }
    }
}

/// A sheet with a note on each side of the split draws both staves with
/// notes; a side without notes is drawn as a rest.
pub proof fn lemma_two_staves(notes: Seq<Note>, split: Key, next: u64)
    ensures
        (exists|i: int| 0 <= i < notes.len() && key_code(notes[i].key) >= key_code(split))
            ==> forall|n: u64, k: u64| side_mei(treble_of(notes, split), n).0 != rest_mei(k),
        (exists|i: int| 0 <= i < notes.len() && key_code(notes[i].key) < key_code(split))
            ==> forall|n: u64, k: u64| side_mei(bass_of(notes, split), n).0 != rest_mei(k),
        (forall|i: int| 0 <= i < notes.len() ==> key_code(notes[i].key) < key_code(split))
            ==> side_mei(treble_of(notes, split), next).0 == rest_mei(next),
        (forall|i: int| 0 <= i < notes.len() ==> key_code(notes[i].key) >= key_code(split))
            ==> side_mei(bass_of(notes, split), next).0 == rest_mei(next),
{
    let t = treble_of(notes, split);
    let b = bass_of(notes, split);
    if exists|i: int| 0 <= i < notes.len() && key_code(notes[i].key) >= key_code(split) {
        let i = choose|i: int| 0 <= i < notes.len() && key_code(notes[i].key) >= key_code(split);
        notes.lemma_filter_contains_rev(treble_pred(split), notes[i]);
        assert(t.contains(notes[i]));
        assert(t.len() > 0);
        assert forall|n: u64, k: u64| side_mei(t, n).0 != rest_mei(k) by {
            lemma_side_fragment(t, n);
        }
    }
    if exists|i: int| 0 <= i < notes.len() && key_code(notes[i].key) < key_code(split) {
        let i = choose|i: int| 0 <= i < notes.len() && key_code(notes[i].key) < key_code(split);
        notes.lemma_filter_contains_rev(bass_pred(split), notes[i]);
        assert(b.contains(notes[i]));
        assert(b.len() > 0);
        assert forall|n: u64, k: u64| side_mei(b, n).0 != rest_mei(k) by {
            lemma_side_fragment(b, n);
        }
    }
    if forall|i: int| 0 <= i < notes.len() ==> key_code(notes[i].key) < key_code(split) {
        lemma_filter_none(notes, treble_pred(split));
        lemma_side_fragment(t, next);
    }
    if forall|i: int| 0 <= i < notes.len() ==> key_code(notes[i].key) >= key_code(split) {
        lemma_filter_none(notes, bass_pred(split));
        lemma_side_fragment(b, next);
    }
}

/// Splicing style rules into an image with one closing style marker puts them
/// right before that marker and leaves every other character as it was.
pub proof fn lemma_style_splice(svg: Seq<char>, styles: Seq<char>, i: int)
    requires
        occurs_at(svg, STYLE_END@, i),
        forall|j: int| occurs_at(svg, STYLE_END@, j) ==> j == i,
    ensures
        replace_first(svg, STYLE_END@, styles + STYLE_END@) == svg.subrange(0, i) + styles
            + svg.subrange(i, svg.len() as int),
        replace_first(svg, STYLE_END@, styles + STYLE_END@).subrange(i, i + styles.len())
            == styles,
        occurs_at(replace_first(svg, STYLE_END@, styles + STYLE_END@), STYLE_END@, i + styles.len()),
{
    lemma_find_from(svg, STYLE_END@, 0);
    let m = STYLE_END@;
    let r = replace_first(svg, m, styles + m);
    assert(find_from(svg, m, 0) == Some(i));
    assert(svg.subrange(i, i + m.len()) == m);
    assert(r =~= svg.subrange(0, i) + styles + svg.subrange(i, svg.len() as int));
    assert(r.subrange(i, i + styles.len()) =~= styles);
    assert(r.subrange(i + styles.len(), i + styles.len() + m.len()) =~= m);
}
} // verus!
