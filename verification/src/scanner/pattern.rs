//! A small language for bit patterns with capture groups.
//!
//! A pattern is written bit by bit: `0` and `1` stand for a bit that must have
//! that value, `.` for a bit that may have any value. Eight such symbols in a
//! row make one byte of the pattern, most significant bit first. Bytes may be
//! separated by blanks, and a run of whole bytes may be put between `[` and `]`
//! to have the bytes matched there handed back to the caller.

use vstd::prelude::*;

verus! {

/// One byte of a pattern: the bits that are fixed (`mask`) and the value they
/// must have (`value`).
#[derive(Clone, Copy, Debug, PartialEq, Eq)]
pub struct ByteTemplate {
    pub value: u8,
    pub mask: u8,
}

impl ByteTemplate {
    /// Whether `byte` agrees with the template on every fixed bit.
    pub open spec fn admits(self, byte: u8) -> bool {
        byte & self.mask == self.value
    }

    /// Tests one byte against the template.
    pub fn matches(&self, byte: u8) -> (agrees: bool)
        ensures
            agrees == self.admits(byte),
    {
        byte & self.mask == self.value
    }
}

/// A run of pattern bytes, `start` included and `end` excluded, whose matched
/// bytes are reported.
#[derive(Clone, Copy, Debug, PartialEq, Eq)]
pub struct CaptureGroup {
    pub start: usize,
    pub end: usize,
}

/// Why a pattern text was refused. A position is the index of the offending
/// character in the text.
#[derive(Clone, Copy, Debug, PartialEq, Eq)]
pub enum PatternError {
    /// A character that the language does not have.
    UnexpectedCharacter { position: usize },
    /// A byte was cut short by a blank, a bracket or the end of the text
    /// (then the position is the length of the text).
    IncompleteByte { position: usize },
    /// `[` inside a capture group.
    NestedCapture { position: usize },
    /// `]` outside a capture group.
    UnmatchedClose { position: usize },
    /// `]` right after `[`, with no byte between them.
    EmptyCapture { position: usize },
    /// The text ended inside a capture group.
    UnclosedCapture,
    /// The text holds no byte at all.
    Empty,
}

/// Every group is a non-empty run of positions below `width`, and the groups
/// follow each other without overlap.
pub open spec fn groups_in_order(captures: Seq<CaptureGroup>, width: nat) -> bool {
    &&& forall|k: int|
        0 <= k < captures.len() ==> (#[trigger] captures[k]).start < captures[k].end <= width
    &&& forall|j: int, k: int|
        0 <= j < k < captures.len() ==> (#[trigger] captures[j]).end <= (
        #[trigger] captures[k]).start
}

/// What a pattern is, as plain mathematics: its bytes and its capture groups,
/// both in the order in which the text declares them.
pub struct PatternModel {
    pub templates: Seq<ByteTemplate>,
    pub captures: Seq<CaptureGroup>,
}

impl PatternModel {
    /// The pattern has at least one byte, every capture group is a non-empty
    /// run of pattern bytes, and the groups follow each other without overlap.
    pub open spec fn wf(self) -> bool {
        &&& 0 < self.templates.len()
        &&& groups_in_order(self.captures, self.templates.len())
    }

    /// Whether the whole pattern holds of `buffer` at `offset`.
    pub open spec fn matches_at(self, buffer: Seq<u8>, offset: int) -> bool {
        &&& 0 <= offset
        &&& offset + self.templates.len() <= buffer.len()
        &&& forall|i: int|
            0 <= i < self.templates.len() ==> (#[trigger] self.templates[i]).admits(
                buffer[offset + i],
            )
    }

    /// The bytes of `buffer` that the capture groups cover when the pattern
    /// is laid at `offset`, one sequence per group.
    pub open spec fn captured(self, buffer: Seq<u8>, offset: int) -> Seq<Seq<u8>> {
        Seq::new(
            self.captures.len(),
            |k: int|
                buffer.subrange(offset + self.captures[k].start, offset + self.captures[k].end),
        )
    }
}

/// How far the reading of a pattern text has come.
pub struct Progress {
    /// The whole bytes read so far.
    pub templates: Seq<ByteTemplate>,
    /// The capture groups closed so far.
    pub captures: Seq<CaptureGroup>,
    /// Where the capture group that is open began, if one is open.
    pub open: Option<usize>,
    /// How many bits of the next byte have been read (0 to 7).
    pub bits: u8,
    /// The bits read of the next byte.
    pub value: u8,
    /// Which of them are fixed.
    pub mask: u8,
}

impl Progress {
    /// What holds of every state that `read` reaches.
    pub open spec fn wf(self) -> bool {
        &&& self.bits < 8
        &&& groups_in_order(self.captures, self.templates.len())
        &&& self.open matches Some(begin) ==> {
            &&& begin <= self.templates.len()
            &&& forall|k: int|
                0 <= k < self.captures.len() ==> (#[trigger] self.captures[k]).end <= begin
        }
    }
}

/// Whether `c` stands for a bit of a pattern.
pub open spec fn is_bit_symbol(c: char) -> bool {
    c == '0' || c == '1' || c == '.'
}

/// Whether `c` may separate the bytes of a pattern.
pub open spec fn is_blank(c: char) -> bool {
    c == ' ' || c == '\t' || c == '\n' || c == '\r'
}

/// The state before any character is read.
pub open spec fn start() -> Progress {
    Progress { templates: seq![], captures: seq![], open: None, bits: 0, value: 0, mask: 0 }
}

/// Reads the character `c`, found at index `position`.
pub open spec fn step(p: Progress, c: char, position: usize) -> Result<Progress, PatternError> {
    if is_bit_symbol(c) {
        let value = (p.value << 1) | (if c == '1' {
            1u8
        } else {
            0u8
        });
        let mask = (p.mask << 1) | (if c == '.' {
            0u8
        } else {
            1u8
        });
        if p.bits == 7 {
            Ok(
                Progress {
                    templates: p.templates.push(ByteTemplate { value, mask }),
                    bits: 0,
                    value: 0,
                    mask: 0,
                    ..p
                },
            )
        } else {
            Ok(Progress { bits: (p.bits + 1) as u8, value, mask, ..p })
        }
    } else if !(is_blank(c) || c == '[' || c == ']') {
        Err(PatternError::UnexpectedCharacter { position })
    } else if p.bits != 0 {
        Err(PatternError::IncompleteByte { position })
    } else if c == '[' {
        if p.open is Some {
            Err(PatternError::NestedCapture { position })
        } else {
            Ok(Progress { open: Some(p.templates.len() as usize), ..p })
        }
    } else if c == ']' {
        match p.open {
            None => Err(PatternError::UnmatchedClose { position }),
            Some(begin) => if begin == p.templates.len() {
                Err(PatternError::EmptyCapture { position })
            } else {
                Ok(
                    Progress {
                        captures: p.captures.push(
                            CaptureGroup { start: begin, end: p.templates.len() as usize },
                        ),
                        open: None,
                        ..p
                    },
                )
            },
        }
    } else {
        Ok(p)
    }
}

/// The state after the first `n` characters of `text`, or the first error
/// met among them.
pub open spec fn read(text: Seq<char>, n: nat) -> Result<Progress, PatternError>
    decreases n,
{
    if n == 0 {
        Ok(start())
    } else {
        match read(text, (n - 1) as nat) {
            Ok(p) => step(p, text[n - 1], (n - 1) as usize),
            Err(e) => Err(e),
        }
    }
}

/// What is made of the state reached at the end of a text of `len` characters.
pub open spec fn finish(p: Progress, len: nat) -> Result<PatternModel, PatternError> {
    if p.bits != 0 {
        Err(PatternError::IncompleteByte { position: len as usize })
    } else if p.open is Some {
        Err(PatternError::UnclosedCapture)
    } else if p.templates.len() == 0 {
        Err(PatternError::Empty)
    } else {
        Ok(PatternModel { templates: p.templates, captures: p.captures })
    }
}

/// The pattern that `text` denotes, or the reason why it denotes none.
pub open spec fn compile(text: Seq<char>) -> Result<PatternModel, PatternError> {
    match read(text, text.len()) {
        Ok(p) => finish(p, text.len()),
        Err(e) => Err(e),
    }
}

/// The byte sequences that a vector of byte vectors holds.
pub open spec fn byte_groups(groups: Seq<Vec<u8>>) -> Seq<Seq<u8>> {
    Seq::new(groups.len(), |k: int| groups[k]@)
}

/// A compiled pattern, ready to be laid against a buffer any number of times.
#[derive(Debug)]
pub struct BitPattern {
    templates: Vec<ByteTemplate>,
    captures: Vec<CaptureGroup>,
}

impl View for BitPattern {
    type V = PatternModel;

    closed spec fn view(&self) -> PatternModel {
        PatternModel { templates: self.templates@, captures: self.captures@ }
    }
}

/// An error, once met, is the result for every longer prefix.
proof fn lemma_error_stays(text: Seq<char>, n: nat, m: nat)
    requires
        n <= m,
        read(text, n) is Err,
    ensures
        read(text, m) == read(text, n),
    decreases m,
{
    if n < m {
        lemma_error_stays(text, n, (m - 1) as nat);
    }
}

/// One character keeps a well-formed state well-formed.
proof fn lemma_step_keeps_wf(p: Progress, c: char, position: usize)
    requires
        p.wf(),
        p.templates.len() < usize::MAX,
    ensures
        step(p, c, position) matches Ok(q) ==> q.wf() && p.templates.len() <= q.templates.len()
            <= p.templates.len() + 1,
{
    if let Ok(q) = step(p, c, position) {
        if c == ']' {
            let closed = CaptureGroup { start: p.open->0, end: p.templates.len() as usize };
            assert(q.captures == p.captures.push(closed));
            assert forall|j: int, k: int| 0 <= j < k < q.captures.len() implies (
            #[trigger] q.captures[j]).end <= (#[trigger] q.captures[k]).start by {
                assert(q.captures[j] == p.captures[j]);
            }
        }
    }
}

/// Every state that `read` reaches is well-formed and holds no more bytes
/// than characters were read.
proof fn lemma_read_is_wf(text: Seq<char>, n: nat)
    requires
        n <= text.len() <= usize::MAX,
    ensures
        read(text, n) matches Ok(p) ==> p.wf() && p.templates.len() <= n,
    decreases n,
{
    if n > 0 {
        lemma_read_is_wf(text, (n - 1) as nat);
        if let Ok(p) = read(text, (n - 1) as nat) {
            lemma_step_keeps_wf(p, text[n - 1], (n - 1) as usize);
        }
    }
}

/// The bit that the symbol `c` asks for: one for `1`, zero for `0` and for
/// `.`.
pub open spec fn asked_bit(c: char) -> u8 {
    if c == '1' {
        1
    } else {
        0
    }
}

/// Whether the symbol `c` fixes its bit: one for `0` and `1`, zero for `.`.
pub open spec fn fixed_bit(c: char) -> u8 {
    if c == '.' {
        0
    } else {
        1
    }
}

/// The byte that eight symbols spell, the first symbol standing for the most
/// significant bit.
pub open spec fn spelled(
    c0: char,
    c1: char,
    c2: char,
    c3: char,
    c4: char,
    c5: char,
    c6: char,
    c7: char,
) -> ByteTemplate {
    ByteTemplate {
        value: (128 * asked_bit(c0) + 64 * asked_bit(c1) + 32 * asked_bit(c2) + 16 * asked_bit(c3)
            + 8 * asked_bit(c4) + 4 * asked_bit(c5) + 2 * asked_bit(c6) + asked_bit(c7)) as u8,
        mask: (128 * fixed_bit(c0) + 64 * fixed_bit(c1) + 32 * fixed_bit(c2) + 16 * fixed_bit(c3)
            + 8 * fixed_bit(c4) + 4 * fixed_bit(c5) + 2 * fixed_bit(c6) + fixed_bit(c7)) as u8,
    }
}

/// Eight bits shifted in one after the other weigh 128, 64, and so on down
/// to 1.
proof fn lemma_shifted_bits_weigh(b0: u8, b1: u8, b2: u8, b3: u8, b4: u8, b5: u8, b6: u8, b7: u8)
    by (bit_vector)
    requires
        b0 <= 1,
        b1 <= 1,
        b2 <= 1,
        b3 <= 1,
        b4 <= 1,
        b5 <= 1,
        b6 <= 1,
        b7 <= 1,
    ensures
        ((((((((((((((((0u8 << 1) | b0) << 1) | b1) << 1) | b2) << 1) | b3) << 1) | b4) << 1) | b5)
            << 1) | b6) << 1) | b7) == 128 * b0 + 64 * b1 + 32 * b2 + 16 * b3 + 8 * b4 + 4 * b5 + 2
            * b6 + b7,
{
}

/// Eight symbols in a row, read where no byte is under way, add one byte to
/// the pattern: the byte that they spell. Nothing else changes.
pub proof fn lemma_eight_symbols_make_a_byte(text: Seq<char>, n: nat, p: Progress)
    requires
        n + 8 <= text.len(),
        read(text, n) == Ok::<Progress, PatternError>(p),
        p.bits == 0 && p.value == 0 && p.mask == 0,
        is_bit_symbol(text[n as int]),
        is_bit_symbol(text[n as int + 1]),
        is_bit_symbol(text[n as int + 2]),
        is_bit_symbol(text[n as int + 3]),
        is_bit_symbol(text[n as int + 4]),
        is_bit_symbol(text[n as int + 5]),
        is_bit_symbol(text[n as int + 6]),
        is_bit_symbol(text[n as int + 7]),
    ensures
        read(text, n + 8) == Ok::<Progress, PatternError>(
            Progress {
                templates: p.templates.push(
                    spelled(
                        text[n as int],
                        text[n as int + 1],
                        text[n as int + 2],
                        text[n as int + 3],
                        text[n as int + 4],
                        text[n as int + 5],
                        text[n as int + 6],
                        text[n as int + 7],
                    ),
                ),
                ..p
            },
        ),
{
    let c0 = text[n as int + 0];
    let c1 = text[n as int + 1];
    let c2 = text[n as int + 2];
    let c3 = text[n as int + 3];
    let c4 = text[n as int + 4];
    let c5 = text[n as int + 5];
    let c6 = text[n as int + 6];
    let c7 = text[n as int + 7];
    let q1 = step(p, c0, n as usize)->Ok_0;
    assert(read(text, n + 1) == Ok::<Progress, PatternError>(q1));
    let q2 = step(q1, c1, (n + 1) as usize)->Ok_0;
    assert(read(text, n + 2) == Ok::<Progress, PatternError>(q2));
    let q3 = step(q2, c2, (n + 2) as usize)->Ok_0;
    assert(read(text, n + 3) == Ok::<Progress, PatternError>(q3));
    let q4 = step(q3, c3, (n + 3) as usize)->Ok_0;
    assert(read(text, n + 4) == Ok::<Progress, PatternError>(q4));
    let q5 = step(q4, c4, (n + 4) as usize)->Ok_0;
    assert(read(text, n + 5) == Ok::<Progress, PatternError>(q5));
    let q6 = step(q5, c5, (n + 5) as usize)->Ok_0;
    assert(read(text, n + 6) == Ok::<Progress, PatternError>(q6));
    let q7 = step(q6, c6, (n + 6) as usize)->Ok_0;
    assert(read(text, n + 7) == Ok::<Progress, PatternError>(q7));
    assert(q7.bits == 7);
    let q8 = step(q7, c7, (n + 7) as usize)->Ok_0;
    assert(read(text, n + 8) == Ok::<Progress, PatternError>(q8));
    lemma_shifted_bits_weigh(
        asked_bit(c0),
        asked_bit(c1),
        asked_bit(c2),
        asked_bit(c3),
        asked_bit(c4),
        asked_bit(c5),
        asked_bit(c6),
        asked_bit(c7),
    );
    lemma_shifted_bits_weigh(
        fixed_bit(c0),
        fixed_bit(c1),
        fixed_bit(c2),
        fixed_bit(c3),
        fixed_bit(c4),
        fixed_bit(c5),
        fixed_bit(c6),
        fixed_bit(c7),
    );
    let byte = ByteTemplate {
        value: (q7.value << 1) | asked_bit(c7),
        mask: (q7.mask << 1) | fixed_bit(c7),
    };
    assert(byte == spelled(c0, c1, c2, c3, c4, c5, c6, c7));
    assert(q8.templates == p.templates.push(byte));
}

/// Whatever text a pattern was compiled from, it is well-formed: it has a
/// byte, and its capture groups are non-empty runs of its bytes, in order and
/// apart from each other.
pub proof fn lemma_compiled_is_wf(text: Seq<char>)
    requires
        text.len() <= usize::MAX,
    ensures
        compile(text) matches Ok(pattern) ==> pattern.wf(),
{
    lemma_read_is_wf(text, text.len());
}

impl BitPattern {
    #[verifier::type_invariant]
    spec fn well_formed(self) -> bool {
        self@.wf()
    }

    /// Compiles a pattern text.
    pub fn from_bit_pattern(text: &str) -> (compiled: Result<BitPattern, PatternError>)
        ensures
            match compiled {
                Ok(pattern) => compile(text@) == Ok::<PatternModel, PatternError>(pattern@)
                    && pattern@.wf(),
                Err(error) => compile(text@) == Err::<PatternModel, PatternError>(error),
            },
    {
        let length = text.unicode_len();
        let mut templates: Vec<ByteTemplate> = Vec::new();
        let mut captures: Vec<CaptureGroup> = Vec::new();
        let mut open: Option<usize> = None;
        let mut bits: u8 = 0;
        let mut value: u8 = 0;
        let mut mask: u8 = 0;
        let mut position: usize = 0;
        for c in it: text.chars()
            invariant
                it.seq() == text@,
                length == text@.len(),
                position == it.index(),
                bits < 8,
                read(text@, position as nat) == Ok::<Progress, PatternError>(
                    Progress {
                        templates: templates@,
                        captures: captures@,
                        open,
                        bits,
                        value,
                        mask,
                    },
                ),
        {
            let ghost before = Progress {
                templates: templates@,
                captures: captures@,
                open,
                bits,
                value,
                mask,
            };
            assert(c == text@[position as int]);
            assert(read(text@, (position + 1) as nat) == step(before, c, position));
            proof {
                lemma_read_is_wf(text@, position as nat);
                lemma_step_keeps_wf(before, c, position);
            }
            if c == '0' || c == '1' || c == '.' {
                value = (value << 1) | (if c == '1' {
                    1u8
                } else {
                    0u8
                });
                mask = (mask << 1) | (if c == '.' {
                    0u8
                } else {
                    1u8
                });
                if bits == 7 {
                    templates.push(ByteTemplate { value, mask });
                    bits = 0;
                    value = 0;
                    mask = 0;
                } else {
                    bits = bits + 1;
                }
            } else {
                let failure = if !(c == ' ' || c == '\t' || c == '\n' || c == '\r' || c == '['
                    || c == ']') {
                    Some(PatternError::UnexpectedCharacter { position })
                } else if bits != 0 {
                    Some(PatternError::IncompleteByte { position })
                } else if c == '[' {
                    if open.is_some() {
                        Some(PatternError::NestedCapture { position })
                    } else {
                        open = Some(templates.len());
                        None
                    }
                } else if c == ']' {
                    match open {
                        None => Some(PatternError::UnmatchedClose { position }),
                        Some(begin) => if begin == templates.len() {
                            Some(PatternError::EmptyCapture { position })
                        } else {
                            captures.push(CaptureGroup { start: begin, end: templates.len() });
                            open = None;
                            None
                        },
                    }
                } else {
                    None
                };
                if let Some(error) = failure {
                    proof {
                        lemma_error_stays(text@, (position + 1) as nat, text@.len());
                    }
                    return Err(error);
                }
            }
            position = position + 1;
        }
        proof {
            lemma_read_is_wf(text@, text@.len());
        }
        if bits != 0 {
            Err(PatternError::IncompleteByte { position: length })
        } else if open.is_some() {
            Err(PatternError::UnclosedCapture)
        } else if templates.len() == 0 {
            Err(PatternError::Empty)
        } else {
            Ok(BitPattern { templates, captures })
        }
    }

    /// Number of bytes that the pattern spans.
    pub fn len(&self) -> (width: usize)
        ensures
            width == self@.templates.len(),
            width > 0,
    {
        proof {
            use_type_invariant(self);
        }
        self.templates.len()
    }

    /// The bytes of the pattern, in order.
    pub fn templates(&self) -> (templates: &[ByteTemplate])
        ensures
            templates@ == self@.templates,
    {
        self.templates.as_slice()
    }

    /// The capture groups of the pattern, in the order of their declaration.
    pub fn captures(&self) -> (captures: &[CaptureGroup])
        ensures
            captures@ == self@.captures,
            self@.wf(),
    {
        proof {
            use_type_invariant(self);
        }
        self.captures.as_slice()
    }

    /// Tests whether the whole pattern holds of `buffer` at `offset`. An
    /// offset so late that the pattern would reach past the end of the
    /// buffer never matches.
    pub fn matches_at(&self, buffer: &[u8], offset: usize) -> (holds: bool)
        ensures
            holds == self@.matches_at(buffer@, offset as int),
    {
        let width = self.templates.len();
        if buffer.len() < width || offset > buffer.len() - width {
            return false;
        }
        let mut i: usize = 0;
        while i < width
            invariant
                i <= width,
                width == self.templates@.len(),
                offset + width <= buffer@.len() <= usize::MAX,
                forall|j: int|
                    0 <= j < i ==> (#[trigger] self.templates@[j]).admits(buffer@[offset + j]),
            decreases width - i,
        {
            if !self.templates[i].matches(buffer[offset + i]) {
                return false;
            }
            i += 1;
        }
        true
    }

    /// Copies out of `buffer` the bytes that the capture groups cover when
    /// the pattern is laid at `offset`.
    pub fn captured_at(&self, buffer: &[u8], offset: usize) -> (groups: Vec<Vec<u8>>)
        requires
            offset + self@.templates.len() <= buffer@.len(),
        ensures
            byte_groups(groups@) == self@.captured(buffer@, offset as int),
    {
        proof {
            use_type_invariant(self);
            broadcast use vstd::slice::group_slice_axioms;

            assert(buffer.len() == buffer@.len());
        }
        let mut groups: Vec<Vec<u8>> = Vec::new();
        let mut k: usize = 0;
        while k < self.captures.len()
            invariant
                k <= self.captures@.len(),
                groups@.len() == k,
                self@.wf(),
                offset + self.templates@.len() <= buffer@.len() <= usize::MAX,
                forall|j: int|
                    0 <= j < k ==> (#[trigger] groups@[j])@ == buffer@.subrange(
                        offset + self.captures@[j].start,
                        offset + self.captures@[j].end,
                    ),
            decreases self.captures@.len() - k,
        {
            let group = self.captures[k];
            let bytes = vstd::slice::slice_to_vec(
                vstd::slice::slice_subrange(buffer, offset + group.start, offset + group.end),
            );
            groups.push(bytes);
            k += 1;
        }
        assert(byte_groups(groups@) =~= self@.captured(buffer@, offset as int));
        groups
    }
}

} // verus!
