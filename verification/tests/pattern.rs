use singleton_finder::scanner::pattern::{BitPattern, ByteTemplate, CaptureGroup, PatternError};
use singleton_finder::util::singleton::NULL_CHECK_PATTERN;

fn compiled(text: &str) -> BitPattern {
    match BitPattern::from_bit_pattern(text) {
        Ok(pattern) => pattern,
        Err(error) => panic!("pattern refused: {:?}", error),
    }
}

fn refused(text: &str) -> PatternError {
    match BitPattern::from_bit_pattern(text) {
        Ok(_) => panic!("pattern accepted"),
        Err(error) => error,
    }
}

#[test]
fn a_byte_of_fixed_bits_is_read_most_significant_bit_first() {
    let pattern = compiled("10001011");
    assert_eq!(pattern.len(), 1);
    assert_eq!(pattern.templates(), &[ByteTemplate { value: 0x8b, mask: 0xff }]);
    assert!(pattern.captures().is_empty());
}

#[test]
fn a_dot_leaves_its_bit_free() {
    let pattern = compiled("01001... 00...101 ........");
    assert_eq!(
        pattern.templates(),
        &[
            ByteTemplate { value: 0x48, mask: 0xf8 },
            ByteTemplate { value: 0x05, mask: 0xc7 },
            ByteTemplate { value: 0x00, mask: 0x00 },
        ]
    );
}

#[test]
fn blanks_between_bytes_are_optional() {
    let spaced = compiled("11110000 \t\r\n 00001111");
    let dense = compiled("1111000000001111");
    assert_eq!(spaced.templates(), dense.templates());
    assert_eq!(spaced.len(), 2);
}

#[test]
fn capture_groups_are_reported_in_the_order_of_declaration() {
    let pattern = compiled("11111111 [........ ........] 00000000 [........]");
    assert_eq!(pattern.len(), 5);
    assert_eq!(
        pattern.captures(),
        &[CaptureGroup { start: 1, end: 3 }, CaptureGroup { start: 4, end: 5 }]
    );
}

#[test]
fn a_bracket_may_touch_the_bytes_beside_it() {
    let pattern = compiled("[10101010]01010101");
    assert_eq!(pattern.len(), 2);
    assert_eq!(pattern.captures(), &[CaptureGroup { start: 0, end: 1 }]);
}

#[test]
fn the_null_check_pattern_has_three_displacements() {
    let pattern = compiled(NULL_CHECK_PATTERN);
    assert_eq!(pattern.len(), 24);
    assert_eq!(
        pattern.captures(),
        &[
            CaptureGroup { start: 3, end: 7 },
            CaptureGroup { start: 15, end: 19 },
            CaptureGroup { start: 20, end: 24 },
        ]
    );
    assert_eq!(pattern.templates()[0], ByteTemplate { value: 0x48, mask: 0xf8 });
    assert_eq!(pattern.templates()[1], ByteTemplate { value: 0x8b, mask: 0xff });
    assert_eq!(pattern.templates()[2], ByteTemplate { value: 0x05, mask: 0xc7 });
    assert_eq!(pattern.templates()[9], ByteTemplate { value: 0xc0, mask: 0xc0 });
    assert_eq!(pattern.templates()[10], ByteTemplate { value: 0x75, mask: 0xff });
    assert_eq!(pattern.templates()[14], ByteTemplate { value: 0x0d, mask: 0xff });
    assert_eq!(pattern.templates()[19], ByteTemplate { value: 0xe8, mask: 0xff });
}

#[test]
fn an_unknown_character_is_refused_with_its_position() {
    assert_eq!(refused("0000000x"), PatternError::UnexpectedCharacter { position: 7 });
    assert_eq!(refused("00000000 2"), PatternError::UnexpectedCharacter { position: 9 });
    assert_eq!(refused("é"), PatternError::UnexpectedCharacter { position: 0 });
    assert_eq!(refused("11111111é0"), PatternError::UnexpectedCharacter { position: 8 });
}

#[test]
fn a_byte_cut_short_is_refused() {
    assert_eq!(refused("0000 0000"), PatternError::IncompleteByte { position: 4 });
    assert_eq!(refused("0000000"), PatternError::IncompleteByte { position: 7 });
    assert_eq!(refused("00000000 1["), PatternError::IncompleteByte { position: 10 });
    assert_eq!(refused("[0000]"), PatternError::IncompleteByte { position: 5 });
    assert_eq!(refused("00000000 111"), PatternError::IncompleteByte { position: 12 });
}

#[test]
fn brackets_must_pair_up() {
    assert_eq!(refused("[[00000000]]"), PatternError::NestedCapture { position: 1 });
    assert_eq!(
        refused("[00000000 [00000000]]"),
        PatternError::NestedCapture { position: 10 }
    );
    assert_eq!(refused("00000000]"), PatternError::UnmatchedClose { position: 8 });
    assert_eq!(refused("]"), PatternError::UnmatchedClose { position: 0 });
    assert_eq!(refused("[00000000"), PatternError::UnclosedCapture);
    assert_eq!(refused("00000000 ["), PatternError::UnclosedCapture);
}

#[test]
fn a_capture_group_must_hold_a_byte() {
    assert_eq!(refused("[]"), PatternError::EmptyCapture { position: 1 });
    assert_eq!(refused("00000000 [ ] 00000000"), PatternError::EmptyCapture { position: 11 });
}

#[test]
fn a_text_without_a_byte_is_refused() {
    assert_eq!(refused(""), PatternError::Empty);
    assert_eq!(refused(" \n\t"), PatternError::Empty);
}

#[test]
fn the_first_fault_is_the_one_reported() {
    assert_eq!(refused("]x"), PatternError::UnmatchedClose { position: 0 });
    assert_eq!(refused("x]"), PatternError::UnexpectedCharacter { position: 0 });
    assert_eq!(refused("000x"), PatternError::UnexpectedCharacter { position: 3 });
}

#[test]
fn a_template_tests_only_its_fixed_bits() {
    let template = ByteTemplate { value: 0x48, mask: 0xf8 };
    assert!(template.matches(0x48));
    assert!(template.matches(0x4f));
    assert!(!template.matches(0x40));
    assert!(!template.matches(0x58));
    let any = ByteTemplate { value: 0, mask: 0 };
    assert!(any.matches(0x00));
    assert!(any.matches(0xff));
}

#[test]
fn matches_at_judges_one_offset() {
    let pattern = compiled("00000001 0000001.");
    let buffer = [1u8, 2, 1, 3, 1];
    assert!(pattern.matches_at(&buffer, 0));
    assert!(!pattern.matches_at(&buffer, 1));
    assert!(pattern.matches_at(&buffer, 2));
    assert!(!pattern.matches_at(&buffer, 3));
    assert!(!pattern.matches_at(&buffer, 4));
    assert!(!pattern.matches_at(&buffer, 5));
    assert!(!pattern.matches_at(&buffer, usize::MAX));
    assert!(!pattern.matches_at(&[], 0));
}

#[test]
fn captured_at_copies_the_bytes_under_the_groups() {
    let pattern = compiled("........ [........ ........] ........ [........]");
    let buffer = [10u8, 11, 12, 13, 14, 15, 16];
    assert_eq!(pattern.captured_at(&buffer, 0), vec![vec![11u8, 12], vec![14u8]]);
    assert_eq!(pattern.captured_at(&buffer, 2), vec![vec![13u8, 14], vec![16u8]]);
}
