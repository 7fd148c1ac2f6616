//! What the pattern of the null check compiles to.

use vstd::prelude::*;

use crate::scanner::pattern::{
    compile, is_bit_symbol, lemma_eight_symbols_make_a_byte, read, spelled, ByteTemplate,
    CaptureGroup, PatternError, PatternModel, Progress,
};
use crate::scanner::scan::{lemma_scan_is_sound, scan};
use crate::util::singleton::{carries_displacements, NULL_CHECK_PATTERN};

verus! {

/// The null check as a compiled pattern: 24 bytes, of which the bytes 3 to
/// 6, 15 to 18 and 20 to 23 are the three captured displacements.
pub open spec fn null_check() -> PatternModel {
    PatternModel {
        templates: seq![
            ByteTemplate { value: 0x48, mask: 0xf8 },
            ByteTemplate { value: 0x8b, mask: 0xff },
            ByteTemplate { value: 0x05, mask: 0xc7 },
            ByteTemplate { value: 0x00, mask: 0x00 },
            ByteTemplate { value: 0x00, mask: 0x00 },
            ByteTemplate { value: 0x00, mask: 0x00 },
            ByteTemplate { value: 0x00, mask: 0x00 },
            ByteTemplate { value: 0x48, mask: 0xf8 },
            ByteTemplate { value: 0x85, mask: 0xff },
            ByteTemplate { value: 0xc0, mask: 0xc0 },
            ByteTemplate { value: 0x75, mask: 0xff },
            ByteTemplate { value: 0x00, mask: 0x00 },
            ByteTemplate { value: 0x48, mask: 0xf8 },
            ByteTemplate { value: 0x8d, mask: 0xff },
            ByteTemplate { value: 0x0d, mask: 0xff },
            ByteTemplate { value: 0x00, mask: 0x00 },
            ByteTemplate { value: 0x00, mask: 0x00 },
            ByteTemplate { value: 0x00, mask: 0x00 },
            ByteTemplate { value: 0x00, mask: 0x00 },
            ByteTemplate { value: 0xe8, mask: 0xff },
            ByteTemplate { value: 0x00, mask: 0x00 },
            ByteTemplate { value: 0x00, mask: 0x00 },
            ByteTemplate { value: 0x00, mask: 0x00 },
            ByteTemplate { value: 0x00, mask: 0x00 },
        ],
        captures: seq![
            CaptureGroup { start: 3, end: 7 },
            CaptureGroup { start: 15, end: 19 },
            CaptureGroup { start: 20, end: 24 },
        ],
    }
}

/// The state of reading the pattern when `bytes` of its bytes and `groups`
/// of its capture groups are read and no byte is under way.
spec fn midway(bytes: int, groups: int, open: Option<usize>) -> Progress {
    Progress {
        templates: null_check().templates.take(bytes),
        captures: null_check().captures.take(groups),
        open,
        bits: 0,
        value: 0,
        mask: 0,
    }
}

/// Where the text holds, from the character `n` on, the eight symbols that
/// spell the next byte of the null check, reading them adds that byte.
proof fn lemma_reads_byte(n: nat, bytes: int, groups: int, open: Option<usize>)
    requires
        0 <= bytes < 24,
        n + 8 <= NULL_CHECK_PATTERN@.len(),
        read(NULL_CHECK_PATTERN@, n) == Ok::<Progress, PatternError>(midway(bytes, groups, open)),
        is_bit_symbol(NULL_CHECK_PATTERN@[n as int]),
        is_bit_symbol(NULL_CHECK_PATTERN@[n as int + 1]),
        is_bit_symbol(NULL_CHECK_PATTERN@[n as int + 2]),
        is_bit_symbol(NULL_CHECK_PATTERN@[n as int + 3]),
        is_bit_symbol(NULL_CHECK_PATTERN@[n as int + 4]),
        is_bit_symbol(NULL_CHECK_PATTERN@[n as int + 5]),
        is_bit_symbol(NULL_CHECK_PATTERN@[n as int + 6]),
        is_bit_symbol(NULL_CHECK_PATTERN@[n as int + 7]),
        spelled(
            NULL_CHECK_PATTERN@[n as int],
            NULL_CHECK_PATTERN@[n as int + 1],
            NULL_CHECK_PATTERN@[n as int + 2],
            NULL_CHECK_PATTERN@[n as int + 3],
            NULL_CHECK_PATTERN@[n as int + 4],
            NULL_CHECK_PATTERN@[n as int + 5],
            NULL_CHECK_PATTERN@[n as int + 6],
            NULL_CHECK_PATTERN@[n as int + 7],
        ) == null_check().templates[bytes],
    ensures
        read(NULL_CHECK_PATTERN@, n + 8) == Ok::<Progress, PatternError>(
            midway(bytes + 1, groups, open),
        ),
{
    let pattern = null_check();
    lemma_eight_symbols_make_a_byte(NULL_CHECK_PATTERN@, n, midway(bytes, groups, open));
    assert(pattern.templates.take(bytes).push(pattern.templates[bytes])
        =~= pattern.templates.take(bytes + 1));
}

/// Reading the whole text of the null check ends with all of its bytes and
/// capture groups read, no group open and no byte under way.
#[verifier::rlimit(40)]
proof fn lemma_reads_null_check()
    ensures
        NULL_CHECK_PATTERN@.len() == 221,
        read(NULL_CHECK_PATTERN@, 221) == Ok::<Progress, PatternError>(midway(24, 3, None)),
{
    reveal_strlit(
        "01001... 10001011 00...101 [........ ........ ........ ........] \
         01001... 10000101 11...... \
         01110101 ........ \
         01001... 10001101 00001101 [........ ........ ........ ........] \
         11101000 [........ ........ ........ ........]",
    );
    let text = NULL_CHECK_PATTERN@;
    let pattern = null_check();
    assert(pattern.templates.take(0) =~= Seq::<ByteTemplate>::empty());
    assert(pattern.captures.take(0) =~= Seq::<CaptureGroup>::empty());
    assert(read(text, 0) == Ok::<Progress, PatternError>(midway(0, 0, None)));
    // the load of the instance pointer, with the first displacement
    lemma_reads_byte(0, 0, 0, None);
    assert(read(text, 9) == Ok::<Progress, PatternError>(midway(1, 0, None)));
    lemma_reads_byte(9, 1, 0, None);
    assert(read(text, 18) == Ok::<Progress, PatternError>(midway(2, 0, None)));
    lemma_reads_byte(18, 2, 0, None);
    assert(read(text, 27) == Ok::<Progress, PatternError>(midway(3, 0, None)));
    assert(read(text, 28) == Ok::<Progress, PatternError>(midway(3, 0, Some(3usize))));
    lemma_reads_byte(28, 3, 0, Some(3usize));
    assert(read(text, 37) == Ok::<Progress, PatternError>(midway(4, 0, Some(3usize))));
    lemma_reads_byte(37, 4, 0, Some(3usize));
    assert(read(text, 46) == Ok::<Progress, PatternError>(midway(5, 0, Some(3usize))));
    lemma_reads_byte(46, 5, 0, Some(3usize));
    assert(read(text, 55) == Ok::<Progress, PatternError>(midway(6, 0, Some(3usize))));
    lemma_reads_byte(55, 6, 0, Some(3usize));
    assert(pattern.captures.take(0).push(pattern.captures[0]) =~= pattern.captures.take(
        1,
    ));
    assert(read(text, 64) == Ok::<Progress, PatternError>(midway(7, 1, None)));
    assert(read(text, 65) == Ok::<Progress, PatternError>(midway(7, 1, None)));
    // the test of the register against itself
    lemma_reads_byte(65, 7, 1, None);
    assert(read(text, 74) == Ok::<Progress, PatternError>(midway(8, 1, None)));
    lemma_reads_byte(74, 8, 1, None);
    assert(read(text, 83) == Ok::<Progress, PatternError>(midway(9, 1, None)));
    lemma_reads_byte(83, 9, 1, None);
    assert(read(text, 92) == Ok::<Progress, PatternError>(midway(10, 1, None)));
    // the jump taken when the register is not zero
    lemma_reads_byte(92, 10, 1, None);
    assert(read(text, 101) == Ok::<Progress, PatternError>(midway(11, 1, None)));
    lemma_reads_byte(101, 11, 1, None);
    assert(read(text, 110) == Ok::<Progress, PatternError>(midway(12, 1, None)));
    // the address of the reflection data, with the second displacement
    lemma_reads_byte(110, 12, 1, None);
    assert(read(text, 119) == Ok::<Progress, PatternError>(midway(13, 1, None)));
    lemma_reads_byte(119, 13, 1, None);
    assert(read(text, 128) == Ok::<Progress, PatternError>(midway(14, 1, None)));
    lemma_reads_byte(128, 14, 1, None);
    assert(read(text, 137) == Ok::<Progress, PatternError>(midway(15, 1, None)));
    assert(read(text, 138) == Ok::<Progress, PatternError>(midway(15, 1, Some(15usize))));
    lemma_reads_byte(138, 15, 1, Some(15usize));
    assert(read(text, 147) == Ok::<Progress, PatternError>(midway(16, 1, Some(15usize))));
    lemma_reads_byte(147, 16, 1, Some(15usize));
    assert(read(text, 156) == Ok::<Progress, PatternError>(midway(17, 1, Some(15usize))));
    lemma_reads_byte(156, 17, 1, Some(15usize));
    assert(read(text, 165) == Ok::<Progress, PatternError>(midway(18, 1, Some(15usize))));
    lemma_reads_byte(165, 18, 1, Some(15usize));
    assert(pattern.captures.take(1).push(pattern.captures[1]) =~= pattern.captures.take(
        2,
    ));
    assert(read(text, 174) == Ok::<Progress, PatternError>(midway(19, 2, None)));
    assert(read(text, 175) == Ok::<Progress, PatternError>(midway(19, 2, None)));
    // the call of the name resolver, with the third displacement
    lemma_reads_byte(175, 19, 2, None);
    assert(read(text, 184) == Ok::<Progress, PatternError>(midway(20, 2, None)));
    assert(read(text, 185) == Ok::<Progress, PatternError>(midway(20, 2, Some(20usize))));
    lemma_reads_byte(185, 20, 2, Some(20usize));
    assert(read(text, 194) == Ok::<Progress, PatternError>(midway(21, 2, Some(20usize))));
    lemma_reads_byte(194, 21, 2, Some(20usize));
    assert(read(text, 203) == Ok::<Progress, PatternError>(midway(22, 2, Some(20usize))));
    lemma_reads_byte(203, 22, 2, Some(20usize));
    assert(read(text, 212) == Ok::<Progress, PatternError>(midway(23, 2, Some(20usize))));
    lemma_reads_byte(212, 23, 2, Some(20usize));
    assert(pattern.captures.take(2).push(pattern.captures[2]) =~= pattern.captures.take(
        3,
    ));
    assert(read(text, 221) == Ok::<Progress, PatternError>(midway(24, 3, None)));
}

/// The pattern of the null check is accepted, and it is the pattern of 24
/// bytes with three capture groups of four bytes each that `null_check`
/// spells out.
pub proof fn lemma_null_check_pattern_compiles()
    ensures
        compile(NULL_CHECK_PATTERN@) == Ok::<PatternModel, PatternError>(null_check()),
        null_check().wf(),
        null_check().templates.len() == 24,
        null_check().captures.len() == 3,
{
    lemma_reads_null_check();
    let pattern = null_check();
    assert(pattern.templates.take(24) =~= pattern.templates);
    assert(pattern.captures.take(3) =~= pattern.captures);
}

/// Every place at which the null check matches carries three displacements
/// of four bytes.
pub proof fn lemma_null_check_matches_carry_displacements(buffer: Seq<u8>, i: int)
    requires
        0 <= i < scan(null_check(), buffer).len(),
    ensures
        carries_displacements(scan(null_check(), buffer)[i]),
{
    lemma_scan_is_sound(null_check(), buffer, i);
}

} // verus!
