use vstd::prelude::*;

verus! {

/// Lowest device code of a standard 88-key piano (`A0`).
pub const FIRST_KEY_CODE: u8 = 21;

/// Highest device code of a standard 88-key piano (`C8`).
pub const LAST_KEY_CODE: u8 = 108;

/// Device code of `C0`: octaves below zero are not modelled.
pub const OCTAVE_ZERO_CODE: u8 = 12;

#[derive(Debug, Clone, Copy, PartialEq, Eq)]
pub enum Error {
    KeyOutOfRange,
}

/// One of the twelve pitch classes of an octave, in ascending order.
#[derive(Debug, Clone, Copy, Hash, PartialEq, Eq, Structural, PartialOrd, Ord)]
pub enum KeyPos {
    C,
    CSharp,
    D,
    DSharp,
    E,
    F,
    FSharp,
    G,
    GSharp,
    A,
    ASharp,
    B,
}

/// Ordinal of a pitch class within its octave (`C` is 0, `B` is 11).
pub open spec fn pos_index(p: KeyPos) -> nat {
    match p {
        KeyPos::C => 0,
        KeyPos::CSharp => 1,
        KeyPos::D => 2,
        KeyPos::DSharp => 3,
        KeyPos::E => 4,
        KeyPos::F => 5,
        KeyPos::FSharp => 6,
        KeyPos::G => 7,
        KeyPos::GSharp => 8,
        KeyPos::A => 9,
        KeyPos::ASharp => 10,
        KeyPos::B => 11,
    }
}

/// The pitch class with the given ordinal.
pub open spec fn pos_of_index(i: int) -> KeyPos {
    if i == 0 {
        KeyPos::C
    } else if i == 1 {
        KeyPos::CSharp
    } else if i == 2 {
        KeyPos::D
    } else if i == 3 {
        KeyPos::DSharp
    } else if i == 4 {
        KeyPos::E
    } else if i == 5 {
        KeyPos::F
    } else if i == 6 {
        KeyPos::FSharp
    } else if i == 7 {
        KeyPos::G
    } else if i == 8 {
        KeyPos::GSharp
    } else if i == 9 {
        KeyPos::A
    } else if i == 10 {
        KeyPos::ASharp
    } else {
        KeyPos::B
    }
}

pub open spec fn pos_is_sharp(p: KeyPos) -> bool {
    p is CSharp || p is DSharp || p is FSharp || p is GSharp || p is ASharp
}

/// Display name of a pitch class (`C`, `C#`, ...).
pub open spec fn pos_name(p: KeyPos) -> Seq<char> {
    match p {
        KeyPos::C => seq!['C'],
        KeyPos::CSharp => seq!['C', '#'],
        KeyPos::D => seq!['D'],
        KeyPos::DSharp => seq!['D', '#'],
        KeyPos::E => seq!['E'],
        KeyPos::F => seq!['F'],
        KeyPos::FSharp => seq!['F', '#'],
        KeyPos::G => seq!['G'],
        KeyPos::GSharp => seq!['G', '#'],
        KeyPos::A => seq!['A'],
        KeyPos::ASharp => seq!['A', '#'],
        KeyPos::B => seq!['B'],
    }
}

/// Lower-case pitch letter used in notation markup; a sharp shares the
/// letter of the natural below it.
pub open spec fn pos_letter(p: KeyPos) -> char {
    match p {
        KeyPos::C | KeyPos::CSharp => 'c',
        KeyPos::D | KeyPos::DSharp => 'd',
        KeyPos::E => 'e',
        KeyPos::F | KeyPos::FSharp => 'f',
        KeyPos::G | KeyPos::GSharp => 'g',
        KeyPos::A | KeyPos::ASharp => 'a',
        KeyPos::B => 'b',
    }
}

/// Position of a natural among the seven naturals of an octave.
pub open spec fn pos_natural_index(p: KeyPos) -> Option<usize> {
    match p {
        KeyPos::C => Some(0),
        KeyPos::D => Some(1),
        KeyPos::E => Some(2),
        KeyPos::F => Some(3),
        KeyPos::G => Some(4),
        KeyPos::A => Some(5),
        KeyPos::B => Some(6),
        _ => None,
    }
}

impl KeyPos {
    pub fn oct(self, oct: u8) -> (r: Key)
        ensures
            r == (Key { pos: self, oct }),
    {
        Key::new(self, oct)
    }

    pub fn as_str(&self) -> (r: &'static str)
        ensures
            r@ == pos_name(*self),
    {
        match self {
            KeyPos::C => {
                proof {
                    reveal_strlit("C");
                }
                "C"
            },
            KeyPos::CSharp => {
                proof {
                    reveal_strlit("C#");
                }
                "C#"
            },
            KeyPos::D => {
                proof {
                    reveal_strlit("D");
                }
                "D"
            },
            KeyPos::DSharp => {
                proof {
                    reveal_strlit("D#");
                }
                "D#"
            },
            KeyPos::E => {
                proof {
                    reveal_strlit("E");
                }
                "E"
            },
            KeyPos::F => {
                proof {
                    reveal_strlit("F");
                }
                "F"
            },
            KeyPos::FSharp => {
                proof {
                    reveal_strlit("F#");
                }
                "F#"
            },
            KeyPos::G => {
                proof {
                    reveal_strlit("G");
                }
                "G"
            },
            KeyPos::GSharp => {
                proof {
                    reveal_strlit("G#");
                }
                "G#"
            },
            KeyPos::A => {
                proof {
                    reveal_strlit("A");
                }
                "A"
            },
            KeyPos::ASharp => {
                proof {
                    reveal_strlit("A#");
                }
                "A#"
            },
            KeyPos::B => {
                proof {
                    reveal_strlit("B");
                }
                "B"
            },
        }
    }

    pub fn natural_idx(&self) -> (r: Option<usize>)
        ensures
            r == pos_natural_index(*self),
    {
        match self {
            KeyPos::C => Some(0),
            KeyPos::D => Some(1),
            KeyPos::E => Some(2),
            KeyPos::F => Some(3),
            KeyPos::G => Some(4),
            KeyPos::A => Some(5),
            KeyPos::B => Some(6),
            _ => None,
        }
    }

    pub fn scale_idx(&self) -> (r: usize)
        ensures
            r == pos_index(*self),
    {
        match self {
            KeyPos::C => 0,
            KeyPos::CSharp => 1,
            KeyPos::D => 2,
            KeyPos::DSharp => 3,
            KeyPos::E => 4,
            KeyPos::F => 5,
            KeyPos::FSharp => 6,
            KeyPos::G => 7,
            KeyPos::GSharp => 8,
            KeyPos::A => 9,
            KeyPos::ASharp => 10,
            KeyPos::B => 11,
        }
    }

    pub fn is_natural(&self) -> (r: bool)
        ensures
            r == !pos_is_sharp(*self),
    {
        !self.is_sharp()
    }

    pub fn is_sharp(&self) -> (r: bool)
        ensures
            r == pos_is_sharp(*self),
    {
        match self {
            KeyPos::CSharp | KeyPos::DSharp | KeyPos::FSharp | KeyPos::GSharp | KeyPos::ASharp => true,
            _ => false,
        }
    }

    pub fn pitch_name(&self) -> (r: &'static str)
        ensures
            r@ == seq![pos_letter(*self)],
    {
        match self {
            KeyPos::C | KeyPos::CSharp => {
                proof {
                    reveal_strlit("c");
                }
                "c"
            },
            KeyPos::D | KeyPos::DSharp => {
                proof {
                    reveal_strlit("d");
                }
                "d"
            },
            KeyPos::E => {
                proof {
                    reveal_strlit("e");
                }
                "e"
            },
            KeyPos::F | KeyPos::FSharp => {
                proof {
                    reveal_strlit("f");
                }
                "f"
            },
            KeyPos::G | KeyPos::GSharp => {
                proof {
                    reveal_strlit("g");
                }
                "g"
            },
            KeyPos::A | KeyPos::ASharp => {
                proof {
                    reveal_strlit("a");
                }
                "a"
            },
            KeyPos::B => {
                proof {
                    reveal_strlit("b");
                }
                "b"
            },
        }
    }

    /// The pitch class with ordinal `val`.
    pub fn from_u8(val: u8) -> (r: KeyPos)
        requires
            val < 12,
        ensures
            r == pos_of_index(val as int),
            pos_index(r) == val,
    {
        match val {
            0 => KeyPos::C,
            1 => KeyPos::CSharp,
            2 => KeyPos::D,
            3 => KeyPos::DSharp,
            4 => KeyPos::E,
            5 => KeyPos::F,
            6 => KeyPos::FSharp,
            7 => KeyPos::G,
            8 => KeyPos::GSharp,
            9 => KeyPos::A,
            10 => KeyPos::ASharp,
            _ => KeyPos::B,
        }
    }
}

/// An absolute key: a pitch class in an octave. Keys are ordered by device
/// code, which is the order of octave first and pitch class second.
#[derive(Debug, Clone, Copy, Hash, PartialEq, Eq, Structural, Ord)]
pub struct Key {
    pub oct: u8,
    pub pos: KeyPos,
}

/// How two keys compare by device code.
pub open spec fn code_order(a: Key, b: Key) -> core::cmp::Ordering {
    if key_code(a) < key_code(b) {
        core::cmp::Ordering::Less
    } else if key_code(a) > key_code(b) {
        core::cmp::Ordering::Greater
    } else {
        core::cmp::Ordering::Equal
    }
}

impl PartialOrd for Key {
    fn partial_cmp(&self, other: &Key) -> (r: Option<core::cmp::Ordering>) {
        let a = self.code();
        let b = other.code();
        if a < b {
            Some(core::cmp::Ordering::Less)
        } else if a > b {
            Some(core::cmp::Ordering::Greater)
        } else {
            Some(core::cmp::Ordering::Equal)
        }
    }
}

impl vstd::std_specs::cmp::PartialOrdSpecImpl for Key {
    open spec fn obeys_partial_cmp_spec() -> bool {
        true
    }

    open spec fn partial_cmp_spec(&self, other: &Key) -> Option<core::cmp::Ordering> {
        Some(code_order(*self, *other))
    }
}

/// Keys with equal device codes are the same key.
pub proof fn lemma_code_injective(a: Key, b: Key)
    ensures
        key_code(a) == key_code(b) ==> a == b,
{
    lemma_key_round_trip(a);
    lemma_key_round_trip(b);
}

/// Device code of a key: `C0` is 12, one step per semitone.
pub open spec fn key_code(k: Key) -> int {
    k.oct * 12 + pos_index(k.pos) + OCTAVE_ZERO_CODE
}

/// A key whose device code fits a 7-bit note number.
pub open spec fn key_fits(k: Key) -> bool {
    key_code(k) <= 127
}

/// The key that a device code of at least 12 stands for.
pub open spec fn key_of_code(code: int) -> Key {
    Key { pos: pos_of_index((code - 12) % 12), oct: ((code - 12) / 12) as u8 }
}

/// Device codes of a standard 88-key piano.
pub open spec fn code_in_88(code: int) -> bool {
    FIRST_KEY_CODE <= code <= LAST_KEY_CODE
}

/// Keys for the codes `start..=end`, in ascending order.
pub open spec fn keys_between(start: int, end: int) -> Seq<Key> {
    Seq::new(if end >= start { (end - start + 1) as nat } else { 0 }, |i: int| key_of_code(start + i))
}

/// `pos_of_index` inverts `pos_index`, and the other way round on `0..12`.
pub proof fn lemma_pos_index(p: KeyPos, i: int)
    ensures
        pos_of_index(pos_index(p) as int) == p,
        0 <= i < 12 ==> pos_index(pos_of_index(i)) == i,
{
}

/// Decoding a code of at least 12 and encoding the key gives the code back.
pub proof fn lemma_code_round_trip(code: int)
    requires
        12 <= code <= 3071,
    ensures
        key_code(key_of_code(code)) == code,
{
    lemma_pos_index(KeyPos::C, (code - 12) % 12);
}

/// Encoding a key and decoding the code gives the key back.
pub proof fn lemma_key_round_trip(k: Key)
    ensures
        key_of_code(key_code(k)) == k,
{
    lemma_pos_index(k.pos, 0);
    assert((k.oct * 12 + pos_index(k.pos)) % 12 == pos_index(k.pos)) by (nonlinear_arith)
        requires pos_index(k.pos) < 12;
    assert((k.oct * 12 + pos_index(k.pos)) / 12 == k.oct) by (nonlinear_arith)
        requires pos_index(k.pos) < 12;
}

/// Each device code of the 88-key window decodes to a key that encodes back to it,
/// and no other code decodes at all.
pub proof fn lemma_midi_round_trip(code: u8)
    ensures
        code_in_88(code as int) ==> key_code(key_of_code(code as int)) == code,
        code_in_88(code as int) ==> key_fits(key_of_code(code as int)),
{
    if code_in_88(code as int) {
        lemma_code_round_trip(code as int);
    }
}

/// `range` yields `end - start + 1` keys for `start <= end`, strictly
/// ascending by device code, one for each code in between.
pub proof fn lemma_range_ascending(start: int, end: int)
    requires
        12 <= start <= end <= 127,
    ensures
        keys_between(start, end).len() == end - start + 1,
        forall|i: int| 0 <= i < keys_between(start, end).len() ==> key_code(
            #[trigger] keys_between(start, end)[i],
        ) == start + i,
        forall|i: int, j: int|
            0 <= i < j < keys_between(start, end).len() ==> key_code(
                #[trigger] keys_between(start, end)[i],
            ) < key_code(#[trigger] keys_between(start, end)[j]),
{
    let ks = keys_between(start, end);
    assert forall|i: int| 0 <= i < ks.len() implies key_code(#[trigger] ks[i]) == start + i by {
        lemma_code_round_trip(start + i);
    }
}

impl Key {
    pub fn new(pos: KeyPos, oct: u8) -> (r: Key)
        ensures
            r == (Key { pos, oct }),
    {
        Key { pos, oct }
    }

    pub fn is_natural(&self) -> (r: bool)
        ensures
            r == !pos_is_sharp(self.pos),
    {
        self.pos.is_natural()
    }

    pub fn is_sharp(&self) -> (r: bool)
        ensures
            r == pos_is_sharp(self.pos),
    {
        self.pos.is_sharp()
    }

    /// The key of a device code; only the codes of an 88-key piano have one.
    pub fn try_from_midi(key: u8) -> (r: Result<Key, Error>)
        ensures
            r is Ok <==> code_in_88(key as int),
            r is Ok ==> r->Ok_0 == key_of_code(key as int) && key_code(r->Ok_0) == key,
            r is Err ==> r->Err_0 == Error::KeyOutOfRange,
    {
        if is_valid_key(key) {
            let key = key - OCTAVE_ZERO_CODE;
            proof {
                lemma_code_round_trip(key + 12);
            }
            Ok(Key { pos: KeyPos::from_u8(key % 12), oct: key / 12 })
        } else {
            Err(Error::KeyOutOfRange)
        }
    }

    /// Device code of the key, for any octave.
    pub fn code(&self) -> (r: u32)
        ensures
            r == key_code(*self),
    {
        self.oct as u32 * 12 + self.pos.scale_idx() as u32 + OCTAVE_ZERO_CODE as u32
    }

    /// Device code of the key.
    pub fn to_midi(&self) -> (r: u8)
        requires
            key_fits(*self),
        ensures
            r == key_code(*self),
    {
        self.oct * 12 + self.pos.scale_idx() as u8 + OCTAVE_ZERO_CODE
    }
}

/// Whether a device code belongs to a standard 88-key piano (`21..=108`).
pub fn is_valid_key(key: u8) -> (r: bool)
    ensures
        r == code_in_88(key as int),
{
    FIRST_KEY_CODE <= key && key <= LAST_KEY_CODE
}

/// Keys from `start` to `end` inclusive, ascending by device code.
pub fn range(start: &Key, end: &Key) -> (r: Vec<Key>)
    requires
        key_fits(*start),
        key_fits(*end),
        key_code(*start) <= key_code(*end) ==> code_in_88(key_code(*start)) && code_in_88(
            key_code(*end),
        ),
    ensures
        r@ == keys_between(key_code(*start), key_code(*end)),
{
    let first = start.to_midi();
    let last = end.to_midi();
    let mut out: Vec<Key> = Vec::new();
    if first > last {
        assert(out@ =~= keys_between(first as int, last as int));
        return out;
    }
    let mut code: u8 = first;
    while code <= last
        invariant
            first <= code <= last + 1,
            code_in_88(first as int),
            code_in_88(last as int),
            out@ =~= keys_between(first as int, code as int - 1),
        decreases last + 1 - code,
    {
        let off = code - OCTAVE_ZERO_CODE;
        let k = Key { pos: KeyPos::from_u8(off % 12), oct: off / 12 };
        assert(k == key_of_code(code as int));
        out.push(k);
        code = code + 1;
    }
    out
}

/// Whether a key is kept: naturals always, sharps when `accidentals` is set.
pub open spec fn keep_pred(accidentals: bool) -> spec_fn(Key) -> bool {
    |k: Key| accidentals || !pos_is_sharp(k.pos)
}

/// Whether a key is a sharp.
pub open spec fn sharp_pred() -> spec_fn(Key) -> bool {
    |k: Key| pos_is_sharp(k.pos)
}

/// The keys of `s` that stay when only naturals are kept, unless `accidentals` is set.
pub open spec fn keep_keys(s: Seq<Key>, accidentals: bool) -> Seq<Key> {
    s.filter(keep_pred(accidentals))
}

/// Keys of `s` whose pitch class is natural.
pub open spec fn naturals_of(s: Seq<Key>) -> Seq<Key> {
    keep_keys(s, false)
}

/// Keys of `s` whose pitch class is sharp.
pub open spec fn sharps_of(s: Seq<Key>) -> Seq<Key> {
    s.filter(sharp_pred())
}

/// A contiguous window of device codes.
#[derive(Debug, Clone, Copy)]
pub struct Keyboard {
    start: u8,
    end: u8,
}

impl Keyboard {
    pub closed spec fn first_code(&self) -> int {
        self.start as int
    }

    pub closed spec fn last_code(&self) -> int {
        self.end as int
    }

    /// The window lies within the 88 keys and is not empty.
    pub open spec fn wf(&self) -> bool {
        code_in_88(self.first_code()) && code_in_88(self.last_code()) && self.first_code()
            <= self.last_code()
    }

    /// All keys of the window, ascending.
    pub open spec fn keys(&self) -> Seq<Key> {
        keys_between(self.first_code(), self.last_code())
    }

    fn new(start: u8, end: u8) -> (r: Keyboard)
        ensures
            r.first_code() == start,
            r.last_code() == end,
    {
        Keyboard { start, end }
    }

    pub fn standard_88_key() -> (r: Keyboard)
        ensures
            r.wf(),
            r.first_code() == FIRST_KEY_CODE,
            r.last_code() == LAST_KEY_CODE,
    {
        Keyboard::new(FIRST_KEY_CODE, LAST_KEY_CODE)
    }

    pub fn first(&self) -> (r: Key)
        requires
            self.wf(),
        ensures
            r == key_of_code(self.first_code()),
            key_code(r) == self.first_code(),
    {
        match Key::try_from_midi(self.start) {
            Ok(k) => k,
            Err(_) => Key { pos: KeyPos::A, oct: 0 },
        }
    }

    pub fn last(&self) -> (r: Key)
        requires
            self.wf(),
        ensures
            r == key_of_code(self.last_code()),
            key_code(r) == self.last_code(),
    {
        match Key::try_from_midi(self.end) {
            Ok(k) => k,
            Err(_) => Key { pos: KeyPos::C, oct: 8 },
        }
    }

    pub fn num_keys(&self) -> (r: usize)
        requires
            self.wf(),
        ensures
            r == self.keys().len(),
            r == self.last_code() - self.first_code() + 1,
    {
        (self.end - self.start) as usize + 1
    }

    pub fn num_natural_keys(&self) -> (r: usize)
        requires
            self.wf(),
        ensures
            r == naturals_of(self.keys()).len(),
    {
        self.iter_natural_keys().len()
    }

    pub fn num_sharp_keys(&self) -> (r: usize)
        requires
            self.wf(),
        ensures
            r == sharps_of(self.keys()).len(),
    {
        self.iter_sharp_keys().len()
    }

    pub fn iter_keys(&self) -> (r: Vec<Key>)
        requires
            self.wf(),
        ensures
            r@ == self.keys(),
    {
        let first = self.first();
        let last = self.last();
        proof {
            lemma_midi_round_trip(self.start);
            lemma_midi_round_trip(self.end);
        }
        range(&first, &last)
    }

    pub fn iter_natural_keys(&self) -> (r: Vec<Key>)
        requires
            self.wf(),
        ensures
            r@ == naturals_of(self.keys()),
    {
        let keys = self.iter_keys();
        filter_keys(&keys, false)
    }

    pub fn iter_sharp_keys(&self) -> (r: Vec<Key>)
        requires
            self.wf(),
        ensures
            r@ == sharps_of(self.keys()),
    {
        let keys = self.iter_keys();
        let mut out: Vec<Key> = Vec::new();
        for i in 0..keys.len()
            invariant
                out@ == sharps_of(keys@.subrange(0, i as int)),
        {
            let k = keys[i];
            proof {
                assert(keys@.subrange(0, i + 1) =~= keys@.subrange(0, i as int).push(k));
                keys@.subrange(0, i as int).lemma_filter_push(k, sharp_pred());
            }
            if k.is_sharp() {
                out.push(k);
            }
        }
        assert(keys@.subrange(0, keys@.len() as int) =~= keys@);
        out
    }
}

/// The keys of `keys` that are natural, or all of them when `accidentals` is set,
/// in their order.
pub fn filter_keys(keys: &Vec<Key>, accidentals: bool) -> (r: Vec<Key>)
    ensures
        r@ == keep_keys(keys@, accidentals),
{
    let mut out: Vec<Key> = Vec::new();
    for i in 0..keys.len()
        invariant
            out@ == keep_keys(keys@.subrange(0, i as int), accidentals),
    {
        let k = keys[i];
        proof {
            assert(keys@.subrange(0, i + 1) =~= keys@.subrange(0, i as int).push(k));
            keys@.subrange(0, i as int).lemma_filter_push(k, keep_pred(accidentals));
        }
        if accidentals || k.is_natural() {
            out.push(k);
        }
    }
    assert(keys@.subrange(0, keys@.len() as int) =~= keys@);
    out
}

/// Taking an element out of a sequence without duplicates takes it out of
/// its set, and leaves no duplicates.
pub proof fn lemma_remove_to_set(s: Seq<Key>, i: int)
    requires
        s.no_duplicates(),
        0 <= i < s.len(),
    ensures
        s.remove(i).to_set() == s.to_set().remove(s[i]),
        s.remove(i).no_duplicates(),
{
    let r = s.remove(i);
    assert forall|x: Key| r.contains(x) <==> s.to_set().remove(s[i]).contains(x) by {
        if r.contains(x) {
            let j = choose|j: int| 0 <= j < r.len() && r[j] == x;
            if j < i {
                assert(s[j] == x);
            } else {
                assert(s[j + 1] == x);
            }
        }
        if s.to_set().remove(s[i]).contains(x) {
            let j = choose|j: int| 0 <= j < s.len() && s[j] == x;
            if j < i {
                assert(r[j] == x);
            } else {
                assert(r[j - 1] == x);
            }
        }
    }
    assert(r.to_set() =~= s.to_set().remove(s[i]));
}

} // verus!
