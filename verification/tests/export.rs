use singleton_finder::export::{format_entry, format_lower_hex, Export, ExportError};
use singleton_finder::util::singleton::SingletonMap;
use std::cell::RefCell;
use std::io::{Error, ErrorKind};

#[test]
fn hexadecimal_digits_are_lower_case_without_leading_zeros() {
    assert_eq!(format_lower_hex(0), "0");
    assert_eq!(format_lower_hex(9), "9");
    assert_eq!(format_lower_hex(10), "a");
    assert_eq!(format_lower_hex(15), "f");
    assert_eq!(format_lower_hex(16), "10");
    assert_eq!(format_lower_hex(255), "ff");
    assert_eq!(format_lower_hex(256), "100");
    assert_eq!(format_lower_hex(0xdead_beef), "deadbeef");
    assert_eq!(format_lower_hex(0x0012_3456), "123456");
    assert_eq!(format_lower_hex(usize::MAX), format!("{:x}", usize::MAX));
}

#[test]
fn hexadecimal_digits_agree_with_the_standard_formatting() {
    let mut value: usize = 1;
    for step in 0..200usize {
        assert_eq!(format_lower_hex(value), format!("{:x}", value));
        value = value.wrapping_mul(31).wrapping_add(step);
    }
}

#[test]
fn an_entry_makes_a_quoted_name_and_an_address() {
    assert_eq!(format_entry("WorldChrMan", 0x1_43cd_1f48), "\"WorldChrMan\", 143cd1f48");
    assert_eq!(format_entry("", 0), "\"\", 0");
    assert_eq!(format_entry("CS::Täst", 0xabc), "\"CS::Täst\", abc");
}

fn table() -> SingletonMap {
    let mut table = SingletonMap::new();
    table.insert("WorldChrMan".to_string(), 0x1_4000_1000);
    table.insert("CSCamera".to_string(), 0x1_4000_2000);
    table.insert("WorldChrMan".to_string(), 0x1_4000_3000);
    table.insert("FlverRepository".to_string(), 0xff);
    table
}

#[test]
fn a_table_makes_one_line_for_each_entry_in_the_order_of_the_entries() {
    assert_eq!(
        table().export_lines(),
        vec![
            "\"WorldChrMan\", 140003000".to_string(),
            "\"CSCamera\", 140002000".to_string(),
            "\"FlverRepository\", ff".to_string(),
        ]
    );
    assert_eq!(SingletonMap::new().export_lines(), Vec::<String>::new());
}

#[test]
fn an_export_creates_the_file_and_then_writes_every_line() {
    let log = RefCell::new(Vec::new());
    let done = table().export(
        || {
            log.borrow_mut().push("<created>".to_string());
            Ok(())
        },
        |line| {
            log.borrow_mut().push(line.to_string());
            Ok(())
        },
    );
    assert!(done.is_ok());
    assert_eq!(
        *log.borrow(),
        vec![
            "<created>".to_string(),
            "\"WorldChrMan\", 140003000".to_string(),
            "\"CSCamera\", 140002000".to_string(),
            "\"FlverRepository\", ff".to_string(),
        ]
    );
}

#[test]
fn an_export_of_an_empty_table_only_creates_the_file() {
    let created = RefCell::new(0);
    let done = SingletonMap::new().export(
        || {
            *created.borrow_mut() += 1;
            Ok(())
        },
        |_| panic!("nothing to write"),
    );
    assert!(done.is_ok());
    assert_eq!(*created.borrow(), 1);
}

#[test]
fn a_file_that_cannot_be_created_fails_the_export_before_any_line() {
    let done = table().export(
        || Err(Error::new(ErrorKind::PermissionDenied, "read-only")),
        |_| panic!("nothing may be written"),
    );
    match done {
        Err(ExportError::FileCreation(reason)) => {
            assert_eq!(reason.kind(), ErrorKind::PermissionDenied)
        }
        other => panic!("{:?}", other),
    }
}

#[test]
fn a_line_that_cannot_be_written_fails_the_export_and_ends_it() {
    let written = RefCell::new(Vec::new());
    let done = table().export(
        || Ok(()),
        |line| {
            if written.borrow().len() == 1 {
                Err(Error::new(ErrorKind::WriteZero, "disk full"))
            } else {
                written.borrow_mut().push(line.to_string());
                Ok(())
            }
        },
    );
    match done {
        Err(ExportError::FileWrite(reason)) => assert_eq!(reason.kind(), ErrorKind::WriteZero),
        other => panic!("{:?}", other),
    }
    assert_eq!(*written.borrow(), vec!["\"WorldChrMan\", 140003000".to_string()]);
}
