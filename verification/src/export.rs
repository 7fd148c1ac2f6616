//! The table of singletons as text, for inspection.
//!
//! Each entry makes one line: the name between double quotes, a comma, a
//! blank, and the address in lower-case hexadecimal digits without prefix.

use vstd::prelude::*;
use vstd::string::StringExecFns;

use crate::util::singleton::SingletonMap;

verus! {

/// The sixteen hexadecimal digits, by value.
pub open spec fn hex_digits() -> Seq<char> {
    seq!['0', '1', '2', '3', '4', '5', '6', '7', '8', '9', 'a', 'b', 'c', 'd', 'e', 'f']
}

/// `value` in hexadecimal digits, most significant digit first, without
/// leading zeros; zero is the single digit `0`.
pub open spec fn lower_hex(value: nat) -> Seq<char>
    decreases value,
{
    if value < 16 {
        seq![hex_digits()[value as int]]
    } else {
        lower_hex(value / 16).push(hex_digits()[(value % 16) as int])
    }
}

/// The line that stands for the entry of `name` and `address`.
pub open spec fn export_line(name: Seq<char>, address: usize) -> Seq<char> {
    seq!['"'] + name + seq!['"', ',', ' '] + lower_hex(address as nat)
}

/// The lines that stand for a listing, entry by entry.
pub open spec fn export_lines(listing: Seq<(Seq<char>, usize)>) -> Seq<Seq<char>> {
    Seq::new(listing.len(), |i: int| export_line(listing[i].0, listing[i].1))
}

fn hex_digit(value: usize) -> (digit: &'static str)
    requires
        value < 16,
    ensures
        digit@ == seq![hex_digits()[value as int]],
{
    proof {
        reveal_strlit("0");
        reveal_strlit("1");
        reveal_strlit("2");
        reveal_strlit("3");
        reveal_strlit("4");
        reveal_strlit("5");
        reveal_strlit("6");
        reveal_strlit("7");
        reveal_strlit("8");
        reveal_strlit("9");
        reveal_strlit("a");
        reveal_strlit("b");
        reveal_strlit("c");
        reveal_strlit("d");
        reveal_strlit("e");
        reveal_strlit("f");
    }
    let digit = if value == 0 {
        "0"
    } else if value == 1 {
        "1"
    } else if value == 2 {
        "2"
    } else if value == 3 {
        "3"
    } else if value == 4 {
        "4"
    } else if value == 5 {
        "5"
    } else if value == 6 {
        "6"
    } else if value == 7 {
        "7"
    } else if value == 8 {
        "8"
    } else if value == 9 {
        "9"
    } else if value == 10 {
        "a"
    } else if value == 11 {
        "b"
    } else if value == 12 {
        "c"
    } else if value == 13 {
        "d"
    } else if value == 14 {
        "e"
    } else {
        "f"
    };
    assert(digit@ =~= seq![hex_digits()[value as int]]);
    digit
}

/// Writes `value` in lower-case hexadecimal digits.
pub fn format_lower_hex(value: usize) -> (text: String)
    ensures
        text@ == lower_hex(value as nat),
    decreases value,
{
    if value < 16 {
        String::from_str(hex_digit(value))
    } else {
        let mut text = format_lower_hex(value / 16);
        text.append(hex_digit(value % 16));
        assert(text@ =~= lower_hex(value as nat));
        text
    }
}

/// Writes the line that stands for one entry.
pub fn format_entry(name: &str, address: usize) -> (line: String)
    ensures
        line@ == export_line(name@, address),
{
    proof {
        reveal_strlit("\"");
        reveal_strlit("\", ");
    }
    let mut line = String::from_str("\"");
    line.append(name);
    line.append("\", ");
    let digits = format_lower_hex(address);
    line.append(digits.as_str());
    assert(line@ =~= export_line(name@, address));
    line
}

/// The texts that a vector of strings holds.
pub open spec fn texts(lines: Seq<String>) -> Seq<Seq<char>> {
    Seq::new(lines.len(), |i: int| lines[i]@)
}

/// Why an export failed.
#[derive(Debug)]
pub enum ExportError {
    /// The file could not be created.
    FileCreation(std::io::Error),
    /// A line could not be written.
    FileWrite(std::io::Error),
}

/// Makes `std::io::Error` of the standard library known as a type. Nothing
/// is claimed of its values: they are carried from the file operations to
/// the caller as they are.
#[verifier::external_type_specification]
#[verifier::external_body]
pub struct ExIoError(std::io::Error);

/// Whether `create` created the file.
pub open spec fn created<C: FnOnce() -> Result<(), std::io::Error>>(create: C) -> bool {
    exists|outcome: Result<(), std::io::Error>|
        outcome is Ok && #[trigger] call_ensures(create, (), outcome)
}

/// Whether `write_line` took the line `line`.
pub open spec fn took<W: Fn(&str) -> Result<(), std::io::Error>>(
    write_line: W,
    line: Seq<char>,
) -> bool {
    exists|text: &str, outcome: Result<(), std::io::Error>|
        text@ == line && outcome is Ok && #[trigger] call_ensures(write_line, (text,), outcome)
}

/// Whether `write_line` refused the line `line` for `reason`.
pub open spec fn refused<W: Fn(&str) -> Result<(), std::io::Error>>(
    write_line: W,
    line: Seq<char>,
    reason: std::io::Error,
) -> bool {
    exists|text: &str| text@ == line && #[trigger] call_ensures(write_line, (text,), Err(reason))
}

/// Whether `write_line` took each of the first `count` lines.
pub open spec fn took_first<W: Fn(&str) -> Result<(), std::io::Error>>(
    write_line: W,
    lines: Seq<Seq<char>>,
    count: int,
) -> bool {
    forall|i: int| 0 <= i < count ==> took(write_line, #[trigger] lines[i])
}

/// Whether `write_line` took the lines before one that it refused for
/// `reason`.
pub open spec fn stopped<W: Fn(&str) -> Result<(), std::io::Error>>(
    write_line: W,
    lines: Seq<Seq<char>>,
    reason: std::io::Error,
) -> bool {
    exists|failed: int|
        0 <= failed < lines.len() && #[trigger] took_first(write_line, lines, failed) && refused(
            write_line,
            lines[failed],
            reason,
        )
}

/// Whether `done` is what comes of creating the file with `create` and then
/// writing `lines` to it with `write_line`, one after the other, up to the
/// first failure.
pub open spec fn written<C, W>(
    lines: Seq<Seq<char>>,
    create: C,
    write_line: W,
    done: Result<(), ExportError>,
) -> bool where
    C: FnOnce() -> Result<(), std::io::Error>,
    W: Fn(&str) -> Result<(), std::io::Error>,
 {
    match done {
        Err(ExportError::FileCreation(reason)) => call_ensures(create, (), Err(reason)),
        Err(ExportError::FileWrite(reason)) => created(create) && stopped(
            write_line,
            lines,
            reason,
        ),
        Ok(_) => created(create) && took_first(write_line, lines, lines.len() as int),
    }
}

/// Whether `line` is one of `lines`.
pub open spec fn is_line_of(lines: Seq<Seq<char>>, line: Seq<char>) -> bool {
    exists|i: int| 0 <= i < lines.len() && #[trigger] lines[i] == line
}

/// Something that can be written out as lines of text.
pub trait Export {
    /// The lines that the export consists of.
    spec fn exported(&self) -> Seq<Seq<char>>;

    /// Writes the export: creates the file with `create`, then hands each
    /// line in turn, without a line end, to `write_line`, which is called
    /// with the lines of the export and with nothing else.
    ///
    /// Fails with `FileCreation` when the file cannot be created, and then
    /// writes nothing; fails with `FileWrite` at the first line that cannot
    /// be written, and then writes no further line.
    fn export<C, W>(&self, create: C, write_line: W) -> (done: Result<(), ExportError>) where
        C: FnOnce() -> Result<(), std::io::Error>,
        W: Fn(&str) -> Result<(), std::io::Error>,

        requires
            call_requires(create, ()),
            forall|line: &str|
                is_line_of(self.exported(), line@) ==> #[trigger] call_requires(
                    write_line,
                    (line,),
                ),
        ensures
            written(self.exported(), create, write_line, done),
    ;
}

impl SingletonMap {
    /// One line for each entry of the table, in the order of the entries.
    pub fn export_lines(&self) -> (lines: Vec<String>)
        ensures
            texts(lines@) == export_lines(self.listing()),
    {
        let mut lines: Vec<String> = Vec::new();
        let count = self.len();
        let mut i: usize = 0;
        while i < count
            invariant
                i <= count == self.listing().len(),
                lines@.len() == i,
                forall|k: int|
                    0 <= k < i ==> (#[trigger] lines@[k])@ == export_line(
                        self.listing()[k].0,
                        self.listing()[k].1,
                    ),
            decreases count - i,
        {
            let (name, address) = self.entry(i);
            lines.push(format_entry(name, address));
            i += 1;
        }
        assert(texts(lines@) =~= export_lines(self.listing()));
        lines
    }
}

impl Export for SingletonMap {
    open spec fn exported(&self) -> Seq<Seq<char>> {
        export_lines(self.listing())
    }

    fn export<C, W>(&self, create: C, write_line: W) -> (done: Result<(), ExportError>) where
        C: FnOnce() -> Result<(), std::io::Error>,
        W: Fn(&str) -> Result<(), std::io::Error>,
     {
        let outcome = create();
        if let Err(reason) = outcome {
            return Err(ExportError::FileCreation(reason));
        }
        assert(created(create)) by {
            assert(outcome is Ok && call_ensures(create, (), outcome));
        }
        let lines = self.export_lines();
        let mut i: usize = 0;
        while i < lines.len()
            invariant
                i <= lines@.len(),
                texts(lines@) == self.exported(),
                forall|line: &str|
                    is_line_of(self.exported(), line@) ==> #[trigger] call_requires(
                        write_line,
                        (line,),
                    ),
                created(create),
                took_first(write_line, self.exported(), i as int),
            decreases lines@.len() - i,
        {
            let line = lines[i].as_str();
            assert(line@ == self.exported()[i as int]) by {
                assert(texts(lines@)[i as int] == lines@[i as int]@);
            }
            let outcome = write_line(line);
            if let Err(reason) = outcome {
                assert(refused(write_line, self.exported()[i as int], reason)) by {
                    assert(call_ensures(write_line, (line,), Err(reason)));
                }
                assert(stopped(write_line, self.exported(), reason)) by {
                    assert(took_first(write_line, self.exported(), i as int));
                }
                return Err(ExportError::FileWrite(reason));
            }
            assert(took(write_line, self.exported()[i as int])) by {
                assert(outcome is Ok && call_ensures(write_line, (line,), outcome));
            }
            i += 1;
        }
        Ok(())
    }
}

} // verus!
