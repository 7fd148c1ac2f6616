//! Finding and editing the data of a running program from within.
//!
//! The host program keeps each of its singletons behind a pointer in its data
//! section, and its code checks that pointer for null in one recurring way.
//! [`scanner`] finds that code: it compiles a bit pattern with capture groups
//! and lists every place of a buffer at which the pattern holds.
//! [`util::section`] locates the sections of the host module, and
//! [`util::singleton`] turns the matches into the table of singletons, class
//! name to address of the pointer, and looks instances up in it;
//! [`util::null_check`] states what the pattern that is searched for compiles
//! to.
//! [`util::patch`] replaces bytes in place and puts them back. [`export`]
//! writes the table out as text, and [`game`] holds records of the host's
//! structures.
//!
//! Nothing here touches memory that it was not handed: whoever calls reads
//! the sections, calls into the host and dereferences its pointers, and hands
//! over what came of it.

pub mod export;
pub mod game;
pub mod scanner;
pub mod util;
