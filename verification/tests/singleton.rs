use singleton_finder::game::cs::{CSSessionManager, WorldChrManDbg};
use singleton_finder::game::world_area_time::WorldAreaTime;
use singleton_finder::scanner::pattern::PatternError;
use singleton_finder::scanner::scan::MatchCandidate;
use singleton_finder::util::section::{Section, SectionLookupError, SectionRange};
use singleton_finder::util::singleton::{
    assemble_table, build_singleton_table, get_instance, instance_at, name_candidates,
    read_displacement, record_name, resolve_candidate, resolve_candidates, LookupError,
    ResolvedCandidate, SingletonMap, SingletonMapError, DATA_SECTION, INSTANCE_OPERAND_END,
    METADATA_OPERAND_END, RESOLVER_OPERAND_END, TEXT_SECTION,
};
use std::cell::RefCell;

const TEXT: SectionRange = SectionRange { start: 0x1000, end: 0x2000 };
const DATA: SectionRange = SectionRange { start: 0x5000, end: 0x6000 };

fn candidate(location: usize, instance: u32, metadata: u32, resolver: u32) -> MatchCandidate {
    MatchCandidate {
        location,
        captures: vec![
            instance.to_le_bytes().to_vec(),
            metadata.to_le_bytes().to_vec(),
            resolver.to_le_bytes().to_vec(),
        ],
    }
}

fn null_check(instance: u32, metadata: u32, resolver: u32) -> Vec<u8> {
    let mut code = vec![0x48, 0x8b, 0x05];
    code.extend_from_slice(&instance.to_le_bytes());
    code.extend_from_slice(&[0x48, 0x85, 0xc0]);
    code.extend_from_slice(&[0x75, 0x2e]);
    code.extend_from_slice(&[0x48, 0x8d, 0x0d]);
    code.extend_from_slice(&metadata.to_le_bytes());
    code.push(0xe8);
    code.extend_from_slice(&resolver.to_le_bytes());
    code
}

/// A code section of 0x1000 bytes at 0x1000 with a null check planted at
/// each of the given offsets, all naming addresses by displacement.
fn code_with(planted: &[(usize, u32, u32, u32)]) -> Vec<u8> {
    let mut code = vec![0x90u8; 0x1000];
    for (at, instance, metadata, resolver) in planted.iter() {
        let bytes = null_check(*instance, *metadata, *resolver);
        code[*at..*at + bytes.len()].copy_from_slice(&bytes);
    }
    code
}

fn entries(table: &SingletonMap) -> Vec<(String, usize)> {
    (0..table.len())
        .map(|i| {
            let (name, address) = table.entry(i);
            (name.to_string(), address)
        })
        .collect()
}

#[test]
fn the_places_at_which_the_instructions_end() {
    assert_eq!(INSTANCE_OPERAND_END, 7);
    assert_eq!(METADATA_OPERAND_END, 19);
    assert_eq!(RESOLVER_OPERAND_END, 24);
    assert_eq!(TEXT_SECTION, ".text");
    assert_eq!(DATA_SECTION, ".data");
}

#[test]
fn a_displacement_is_read_least_significant_byte_first() {
    assert_eq!(read_displacement(&vec![0x78, 0x56, 0x34, 0x12]), Some(0x1234_5678));
    assert_eq!(read_displacement(&vec![0, 0, 0, 0]), Some(0));
    assert_eq!(read_displacement(&vec![0xff, 0xff, 0xff, 0xff]), Some(u32::MAX));
    assert_eq!(read_displacement(&vec![1, 0, 0, 0]), Some(1));
    assert_eq!(read_displacement(&vec![0, 0, 0, 1]), Some(0x0100_0000));
    assert_eq!(read_displacement(&vec![1, 2, 3]), None);
    assert_eq!(read_displacement(&vec![1, 2, 3, 4, 5]), None);
    assert_eq!(read_displacement(&vec![]), None);
}

#[test]
fn the_three_addresses_of_a_candidate() {
    // instance  = 0x1000 + 0x100 +  7 + 0x3ff9 = 0x5100
    // metadata  = 0x1000 + 0x100 + 19 + 0x40ed = 0x5200
    // resolver  = 0x1000 + 0x100 + 24 + 0x00e8 = 0x1200
    let resolved = resolve_candidate(TEXT, DATA, &candidate(0x100, 0x3ff9, 0x40ed, 0xe8));
    assert_eq!(
        resolved,
        Some(ResolvedCandidate { instance_slot: 0x5100, metadata: 0x5200, name_resolver: 0x1200 })
    );
}

#[test]
fn addresses_at_the_edges_of_the_sections() {
    let first = |range: SectionRange, end: usize| (range.start - 0x1000 - end) as u32;
    let last = |range: SectionRange, end: usize| (range.end - 1 - 0x1000 - end) as u32;
    let beyond = |range: SectionRange, end: usize| (range.end - 0x1000 - end) as u32;

    assert!(resolve_candidate(
        TEXT,
        DATA,
        &candidate(0, first(DATA, 7), first(DATA, 19), first(TEXT, 24).wrapping_add(24))
    )
    .is_some());
    assert_eq!(
        resolve_candidate(TEXT, DATA, &candidate(0, last(DATA, 7), last(DATA, 19), last(TEXT, 24))),
        Some(ResolvedCandidate { instance_slot: 0x5fff, metadata: 0x5fff, name_resolver: 0x1fff })
    );
    assert_eq!(
        resolve_candidate(TEXT, DATA, &candidate(0, beyond(DATA, 7), last(DATA, 19), last(TEXT, 24))),
        None
    );
    assert_eq!(
        resolve_candidate(TEXT, DATA, &candidate(0, last(DATA, 7), beyond(DATA, 19), last(TEXT, 24))),
        None
    );
    assert_eq!(
        resolve_candidate(TEXT, DATA, &candidate(0, last(DATA, 7), last(DATA, 19), beyond(TEXT, 24))),
        None
    );
    assert_eq!(
        resolve_candidate(TEXT, DATA, &candidate(0, first(DATA, 7) - 1, last(DATA, 19), last(TEXT, 24))),
        None
    );
}

#[test]
fn a_candidate_with_its_instance_slot_outside_the_data_section_is_rejected() {
    // metadata and resolver are fine in each case
    let metadata = 0x40ed;
    let resolver = 0xe8;
    // in the code section
    assert_eq!(resolve_candidate(TEXT, DATA, &candidate(0x100, 0x10, metadata, resolver)), None);
    // between the sections
    assert_eq!(resolve_candidate(TEXT, DATA, &candidate(0x100, 0x2000, metadata, resolver)), None);
    // past the data section
    assert_eq!(resolve_candidate(TEXT, DATA, &candidate(0x100, 0x5000, metadata, resolver)), None);
    assert_eq!(
        resolve_candidate(TEXT, DATA, &candidate(0x100, u32::MAX, metadata, resolver)),
        None
    );
    // and the same candidate with the slot inside is kept
    assert!(resolve_candidate(TEXT, DATA, &candidate(0x100, 0x3ff9, metadata, resolver)).is_some());
}

#[test]
fn a_candidate_is_rejected_for_its_metadata_or_its_resolver_too() {
    assert_eq!(resolve_candidate(TEXT, DATA, &candidate(0x100, 0x3ff9, 0x10, 0xe8)), None);
    assert_eq!(resolve_candidate(TEXT, DATA, &candidate(0x100, 0x3ff9, 0x40ed, 0x4000)), None);
    assert_eq!(resolve_candidate(TEXT, DATA, &candidate(0x100, 0x3ff9, 0x40ed, 0x2000)), None);
}

#[test]
fn addresses_that_would_not_fit_a_machine_word_are_rejected() {
    let top = SectionRange { start: usize::MAX - 0x100, end: usize::MAX };
    let everywhere = SectionRange { start: 0, end: usize::MAX };
    assert_eq!(
        resolve_candidate(top, everywhere, &candidate(0x80, u32::MAX, u32::MAX, 0)),
        None
    );
    assert_eq!(resolve_candidate(top, everywhere, &candidate(0x80, 0x100, 0, 0)), None);
}

#[test]
fn a_candidate_of_another_shape_is_rejected() {
    let mut two = candidate(0x100, 0x3ff9, 0x40ed, 0xe8);
    two.captures.pop();
    assert_eq!(resolve_candidate(TEXT, DATA, &two), None);

    let mut four = candidate(0x100, 0x3ff9, 0x40ed, 0xe8);
    four.captures.push(vec![0, 0, 0, 0]);
    assert_eq!(resolve_candidate(TEXT, DATA, &four), None);

    let mut narrow = candidate(0x100, 0x3ff9, 0x40ed, 0xe8);
    narrow.captures[1].pop();
    assert_eq!(resolve_candidate(TEXT, DATA, &narrow), None);

    let none = MatchCandidate { location: 0x100, captures: vec![] };
    assert_eq!(resolve_candidate(TEXT, DATA, &none), None);
}

#[test]
fn the_candidates_that_pass_are_kept_in_order() {
    let found = vec![
        candidate(0x100, 0x3ff9, 0x40ed, 0xe8),
        candidate(0x200, 0x10, 0x40ed, 0xe8),
        candidate(0x300, 0x3ff9, 0x40ed, 0xe8),
    ];
    assert_eq!(
        resolve_candidates(TEXT, DATA, &found),
        vec![
            ResolvedCandidate { instance_slot: 0x5100, metadata: 0x5200, name_resolver: 0x1200 },
            ResolvedCandidate { instance_slot: 0x5300, metadata: 0x5400, name_resolver: 0x1400 },
        ]
    );
    assert_eq!(resolve_candidates(TEXT, DATA, &vec![]), vec![]);
}

#[test]
fn a_table_keeps_one_address_for_each_name() {
    let mut table = SingletonMap::new();
    assert_eq!(table.len(), 0);
    assert_eq!(table.get("WorldChrMan"), None);

    table.insert("WorldChrMan".to_string(), 0x5100);
    table.insert("CSCamera".to_string(), 0x5200);
    assert_eq!(table.len(), 2);
    assert_eq!(table.get("WorldChrMan"), Some(0x5100));
    assert_eq!(table.get("CSCamera"), Some(0x5200));
    assert_eq!(table.get("worldchrman"), None);
    assert_eq!(table.get(""), None);

    table.insert("WorldChrMan".to_string(), 0x5300);
    assert_eq!(table.len(), 2);
    assert_eq!(table.get("WorldChrMan"), Some(0x5300));
    assert_eq!(table.get("CSCamera"), Some(0x5200));
    assert_eq!(
        entries(&table),
        vec![("WorldChrMan".to_string(), 0x5300), ("CSCamera".to_string(), 0x5200)]
    );
}

#[test]
fn a_name_is_recorded_as_the_text_that_its_bytes_spell() {
    let mut table = SingletonMap::new();
    assert_eq!(record_name(&mut table, 0x5100, b"WorldChrMan"), Ok(()));
    assert_eq!(record_name(&mut table, 0x5200, "Größe".as_bytes()), Ok(()));
    assert_eq!(record_name(&mut table, 0x5300, b""), Ok(()));
    assert_eq!(table.get("WorldChrMan"), Some(0x5100));
    assert_eq!(table.get("Größe"), Some(0x5200));
    assert_eq!(table.get(""), Some(0x5300));
    assert_eq!(table.len(), 3);
}

#[test]
fn bytes_that_are_not_text_are_refused_and_change_nothing() {
    let mut table = SingletonMap::new();
    table.insert("CSCamera".to_string(), 0x5200);
    assert_eq!(
        record_name(&mut table, 0x5100, &[0x57, 0xff, 0x6f]),
        Err(SingletonMapError::MalformedName)
    );
    assert_eq!(record_name(&mut table, 0x5100, &[0xc3]), Err(SingletonMapError::MalformedName));
    assert_eq!(
        record_name(&mut table, 0x5100, &[0xed, 0xa0, 0x80]),
        Err(SingletonMapError::MalformedName)
    );
    assert_eq!(entries(&table), vec![("CSCamera".to_string(), 0x5200)]);
}

fn three() -> Vec<ResolvedCandidate> {
    vec![
        ResolvedCandidate { instance_slot: 0x5100, metadata: 0x5200, name_resolver: 0x1200 },
        ResolvedCandidate { instance_slot: 0x5300, metadata: 0x5400, name_resolver: 0x1400 },
        ResolvedCandidate { instance_slot: 0x5500, metadata: 0x5600, name_resolver: 0x1600 },
    ]
}

#[test]
fn of_two_candidates_with_one_name_the_later_stays() {
    let names = vec![b"CSCamera".to_vec(), b"WorldChrMan".to_vec(), b"CSCamera".to_vec()];
    let table = assemble_table(&three(), &names).unwrap();
    assert_eq!(table.len(), 2);
    assert_eq!(table.get("CSCamera"), Some(0x5500));
    assert_eq!(table.get("WorldChrMan"), Some(0x5300));

    let names = vec![b"A".to_vec(), b"A".to_vec(), b"A".to_vec()];
    let table = assemble_table(&three(), &names).unwrap();
    assert_eq!(entries(&table), vec![("A".to_string(), 0x5500)]);
}

#[test]
fn one_name_that_is_not_text_fails_the_whole_table() {
    let names = vec![b"CSCamera".to_vec(), vec![0xff, 0xfe], b"WorldChrMan".to_vec()];
    assert_eq!(assemble_table(&three(), &names).err(), Some(SingletonMapError::MalformedName));
    let names = vec![b"CSCamera".to_vec(), b"WorldChrMan".to_vec(), vec![0x80]];
    assert_eq!(assemble_table(&three(), &names).err(), Some(SingletonMapError::MalformedName));
}

#[test]
fn no_candidate_makes_an_empty_table() {
    let table = assemble_table(&[], &[]).unwrap();
    assert_eq!(table.len(), 0);
    let table = name_candidates(&[], |_, _| panic!("nothing to name")).unwrap();
    assert_eq!(table.len(), 0);
}

#[test]
fn each_candidate_is_named_by_its_resolver_and_its_metadata() {
    let asked = RefCell::new(Vec::new());
    let table = name_candidates(&three(), |resolver, metadata| {
        asked.borrow_mut().push((resolver, metadata));
        format!("Class{:x}", metadata).into_bytes()
    })
    .unwrap();
    assert_eq!(*asked.borrow(), vec![(0x1200, 0x5200), (0x1400, 0x5400), (0x1600, 0x5600)]);
    assert_eq!(
        entries(&table),
        vec![
            ("Class5200".to_string(), 0x5100),
            ("Class5400".to_string(), 0x5300),
            ("Class5600".to_string(), 0x5500),
        ]
    );
}

#[test]
fn after_a_name_that_is_not_text_no_further_name_is_asked_for() {
    let asked = RefCell::new(0);
    let built = name_candidates(&three(), |_, metadata| {
        *asked.borrow_mut() += 1;
        if metadata == 0x5400 {
            vec![0xc0, 0x80]
        } else {
            b"Fine".to_vec()
        }
    });
    assert_eq!(built.err(), Some(SingletonMapError::MalformedName));
    assert_eq!(*asked.borrow(), 2);
}

fn section(range: SectionRange, bytes: &[u8]) -> Result<Section<'_>, SectionLookupError> {
    Ok(Section::new(range, bytes).expect("one byte for each address"))
}

const NO_DATA: [u8; 0x1000] = [0; 0x1000];

#[test]
fn the_table_is_built_from_the_null_checks_of_the_code() {
    // candidates at 0x100 and 0x300 name slots in the data section; the one
    // at 0x200 would have its slot in the code section
    let code = code_with(&[
        (0x100, 0x3ff9, 0x40ed, 0xe8),
        (0x200, 0x10, 0x40ed, 0xe8),
        (0x300, 0x3ff9, 0x40ed, 0xe8),
    ]);
    let table = build_singleton_table(section(TEXT, &code), section(DATA, &NO_DATA), |resolver, metadata| {
        match (resolver, metadata) {
            (0x1200, 0x5200) => b"WorldChrMan".to_vec(),
            (0x1400, 0x5400) => b"CSSessionManager".to_vec(),
            other => panic!("asked for the name of {:x?}", other),
        }
    })
    .unwrap();
    assert_eq!(
        entries(&table),
        vec![("WorldChrMan".to_string(), 0x5100), ("CSSessionManager".to_string(), 0x5300)]
    );
}

#[test]
fn a_rejected_candidate_is_not_in_the_table_whatever_its_other_addresses() {
    let code = code_with(&[(0x100, 0x2000, 0x40ed, 0xe8)]);
    let table =
        build_singleton_table(section(TEXT, &code), section(DATA, &NO_DATA), |_, _| b"X".to_vec())
            .unwrap();
    assert_eq!(table.len(), 0);
    assert_eq!(table.get("X"), None);
}

#[test]
fn the_later_of_two_null_checks_of_one_class_stays_in_the_table() {
    let code = code_with(&[(0x100, 0x3ff9, 0x40ed, 0xe8), (0x300, 0x3ff9, 0x40ed, 0xe8)]);
    let table = build_singleton_table(section(TEXT, &code), section(DATA, &NO_DATA), |_, _| {
        b"WorldChrMan".to_vec()
    })
    .unwrap();
    assert_eq!(entries(&table), vec![("WorldChrMan".to_string(), 0x5300)]);

    let code = code_with(&[(0x300, 0x3ff9, 0x40ed, 0xe8), (0x100, 0x4ff9, 0x40ed, 0xe8)]);
    let table = build_singleton_table(section(TEXT, &code), section(DATA, &NO_DATA), |_, _| {
        b"WorldChrMan".to_vec()
    })
    .unwrap();
    assert_eq!(entries(&table), vec![("WorldChrMan".to_string(), 0x5300)]);
}

#[test]
fn code_without_a_null_check_makes_an_empty_table() {
    let code = vec![0x90u8; 0x1000];
    let table =
        build_singleton_table(section(TEXT, &code), section(DATA, &NO_DATA), |_, _| b"X".to_vec())
            .unwrap();
    assert_eq!(table.len(), 0);
}

#[test]
fn a_section_that_was_not_located_fails_the_build() {
    let code = code_with(&[(0x100, 0x3ff9, 0x40ed, 0xe8)]);
    let built = build_singleton_table(
        Err(SectionLookupError::NoGameBase),
        section(DATA, &NO_DATA),
        |_, _| b"X".to_vec(),
    );
    assert_eq!(
        built.err(),
        Some(SingletonMapError::Section(".text", SectionLookupError::NoGameBase))
    );
    let built = build_singleton_table(
        section(TEXT, &code),
        Err(SectionLookupError::SectionNotFound),
        |_, _| b"X".to_vec(),
    );
    assert_eq!(
        built.err(),
        Some(SingletonMapError::Section(".data", SectionLookupError::SectionNotFound))
    );
    let built = build_singleton_table(
        Err(SectionLookupError::SectionNotFound),
        Err(SectionLookupError::NoGameBase),
        |_, _| b"X".to_vec(),
    );
    assert_eq!(
        built.err(),
        Some(SingletonMapError::Section(".text", SectionLookupError::SectionNotFound))
    );
}

#[test]
fn a_name_that_is_not_text_fails_the_build() {
    let code = code_with(&[(0x100, 0x3ff9, 0x40ed, 0xe8), (0x300, 0x3ff9, 0x40ed, 0xe8)]);
    let built = build_singleton_table(section(TEXT, &code), section(DATA, &NO_DATA), |_, metadata| {
        if metadata == 0x5400 {
            vec![0xff]
        } else {
            b"WorldChrMan".to_vec()
        }
    });
    assert_eq!(built.err(), Some(SingletonMapError::MalformedName));
}

#[test]
fn the_errors_can_be_told_apart() {
    assert_ne!(
        SingletonMapError::Pattern(PatternError::Empty),
        SingletonMapError::Pattern(PatternError::UnclosedCapture)
    );
    assert_ne!(
        SingletonMapError::Section(".text", SectionLookupError::NoGameBase),
        SingletonMapError::Section(".data", SectionLookupError::NoGameBase)
    );
    assert_ne!(
        LookupError::NotFound,
        LookupError::SingletonMapCreation(SingletonMapError::MalformedName)
    );
}

#[test]
fn a_zero_pointer_is_no_instance() {
    assert_eq!(instance_at(0), None);
    assert_eq!(instance_at(1), Some(1));
    assert_eq!(instance_at(0x7ff6_1234_5678), Some(0x7ff6_1234_5678));
    assert_eq!(instance_at(usize::MAX), Some(usize::MAX));
}

fn table() -> SingletonMap {
    let mut table = SingletonMap::new();
    table.insert("WorldAreaTime".to_string(), 0x5100);
    table.insert("CSSessionManager".to_string(), 0x5200);
    table
}

#[test]
fn a_class_that_the_table_does_not_know_is_not_found() {
    let found = get_instance::<WorldChrManDbg, _>(&table(), |_| panic!("nothing to read"));
    assert_eq!(found, Err(LookupError::NotFound));
    let found = get_instance::<WorldAreaTime, _>(&SingletonMap::new(), |_| 0x9000);
    assert_eq!(found, Err(LookupError::NotFound));
}

#[test]
fn a_known_class_without_an_instance_is_no_error() {
    let found = get_instance::<WorldAreaTime, _>(&table(), |_| 0);
    assert_eq!(found, Ok(None));
}

#[test]
fn the_instance_is_where_the_slot_points() {
    let read = |slot: usize| match slot {
        0x5100 => 0x7000,
        0x5200 => 0x8000,
        _ => panic!("read of {:x}", slot),
    };
    assert_eq!(get_instance::<WorldAreaTime, _>(&table(), read), Ok(Some(0x7000)));
    assert_eq!(get_instance::<CSSessionManager, _>(&table(), read), Ok(Some(0x8000)));
}

#[test]
fn only_the_slot_of_the_class_is_read_and_only_once() {
    let reads = RefCell::new(Vec::new());
    let found = get_instance::<CSSessionManager, _>(&table(), |slot| {
        reads.borrow_mut().push(slot);
        0x8000
    });
    assert_eq!(found, Ok(Some(0x8000)));
    assert_eq!(*reads.borrow(), vec![0x5200]);
}

#[test]
fn a_lookup_in_a_table_that_was_built_from_code() {
    let code = code_with(&[(0x100, 0x3ff9, 0x40ed, 0xe8), (0x300, 0x3ff9, 0x40ed, 0xe8)]);
    let built = build_singleton_table(section(TEXT, &code), section(DATA, &NO_DATA), |_, metadata| {
        if metadata == 0x5200 {
            b"WorldAreaTime".to_vec()
        } else {
            b"CSSessionManager".to_vec()
        }
    })
    .unwrap();
    let memory = |slot: usize| if slot == 0x5100 { 0x7777 } else { 0 };
    assert_eq!(get_instance::<WorldAreaTime, _>(&built, memory), Ok(Some(0x7777)));
    assert_eq!(get_instance::<CSSessionManager, _>(&built, memory), Ok(None));
    assert_eq!(get_instance::<WorldChrManDbg, _>(&built, memory), Err(LookupError::NotFound));
}

#[test]
fn the_name_function_is_only_called_for_candidates_that_passed() {
    // the candidate at 0x200 has its slot in the code section
    let code = code_with(&[
        (0x100, 0x3ff9, 0x40ed, 0xe8),
        (0x200, 0x10, 0x40ed, 0xe8),
        (0x300, 0x3ff9, 0x40ed, 0xe8),
    ]);
    let calls = RefCell::new(Vec::new());
    let built = build_singleton_table(section(TEXT, &code), section(DATA, &NO_DATA), |resolver, metadata| {
        calls.borrow_mut().push((resolver, metadata));
        format!("Class{:x}", metadata).into_bytes()
    });
    assert!(built.is_ok());
    assert_eq!(*calls.borrow(), vec![(0x1200, 0x5200), (0x1400, 0x5400)]);
    for (resolver, metadata) in calls.borrow().iter() {
        assert!(TEXT.contains(*resolver));
        assert!(DATA.contains(*metadata));
    }
}
