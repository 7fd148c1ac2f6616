//! Locating the sections of the host module.
//!
//! The operating system is asked through two functions that the caller hands
//! in: one tells whether a module of a given name is loaded, the other gives
//! the address range of a named section of a module. What is decided here is
//! which module is asked for and how a failed lookup is reported.

use vstd::prelude::*;

verus! {

/// Name under which the host executable is usually loaded.
pub const GAME_MODULE: &'static str = "eldenring.exe";

/// Name of the host executable when it was started through its launcher.
pub const PROTECTED_GAME_MODULE: &'static str = "start_protected_game.exe";

/// Why a section could not be located.
#[derive(Clone, Copy, Debug, PartialEq, Eq)]
pub enum SectionLookupError {
    /// No module of any of the expected names is loaded.
    NoGameBase,
    /// The module is loaded but has no section of the name asked for.
    SectionNotFound,
}

/// A half-open interval of addresses: `start` belongs to it, `end` does not.
#[derive(Clone, Copy, Debug, PartialEq, Eq)]
pub struct SectionRange {
    pub start: usize,
    pub end: usize,
}

impl SectionRange {
    /// Whether `address` lies in the interval.
    pub open spec fn holds(self, address: int) -> bool {
        self.start <= address < self.end
    }

    /// Number of addresses in the interval; an interval that ends before it
    /// starts has none.
    pub open spec fn size(self) -> nat {
        if self.start <= self.end {
            (self.end - self.start) as nat
        } else {
            0
        }
    }

    /// Tests whether `address` lies in the interval.
    pub fn contains(&self, address: usize) -> (inside: bool)
        ensures
            inside == self.holds(address as int),
    {
        self.start <= address && address < self.end
    }

    /// Number of addresses in the interval.
    pub fn len(&self) -> (size: usize)
        ensures
            size == self.size(),
    {
        if self.start <= self.end {
            self.end - self.start
        } else {
            0
        }
    }
}

/// A section of a loaded module: where it lies and what it holds. There is
/// one byte of content for each address of the range.
pub struct Section<'a> {
    range: SectionRange,
    bytes: &'a [u8],
}

impl<'a> Section<'a> {
    #[verifier::type_invariant]
    spec fn well_formed(self) -> bool {
        self.bytes@.len() == self.range.size()
    }

    /// The addresses that the section occupies.
    pub closed spec fn extent(&self) -> SectionRange {
        self.range
    }

    /// The content of the section, first address first.
    pub closed spec fn content(&self) -> Seq<u8> {
        self.bytes@
    }

    /// Pairs a range with its content; nothing if the content is not as long
    /// as the range.
    pub fn new(range: SectionRange, bytes: &'a [u8]) -> (section: Option<Section<'a>>)
        ensures
            match section {
                Some(section) => section.extent() == range && section.content() == bytes@
                    && bytes@.len() == range.size(),
                None => bytes@.len() != range.size(),
            },
    {
        if bytes.len() == range.len() {
            Some(Section { range, bytes })
        } else {
            None
        }
    }

    /// The addresses that the section occupies.
    pub fn range(&self) -> (range: SectionRange)
        ensures
            range == self.extent(),
            range.size() == self.content().len(),
    {
        proof {
            use_type_invariant(self);
        }
        self.range
    }

    /// The content of the section, first address first.
    pub fn bytes(&self) -> (bytes: &'a [u8])
        ensures
            bytes@ == self.content(),
    {
        self.bytes
    }
}

/// Whether the answers of `is_loaded` make `name` the module to use: it said
/// yes to `name`, and no to every expected name that is asked about earlier.
pub open spec fn chooses<L: Fn(&'static str) -> bool>(is_loaded: L, name: &'static str) -> bool {
    ||| name == GAME_MODULE && call_ensures(is_loaded, (GAME_MODULE,), true)
    ||| name == PROTECTED_GAME_MODULE && call_ensures(is_loaded, (GAME_MODULE,), false)
        && call_ensures(is_loaded, (PROTECTED_GAME_MODULE,), true)
}

/// Whether `is_loaded` said no to every expected name.
pub open spec fn finds_none<L: Fn(&'static str) -> bool>(is_loaded: L) -> bool {
    &&& call_ensures(is_loaded, (GAME_MODULE,), false)
    &&& call_ensures(is_loaded, (PROTECTED_GAME_MODULE,), false)
}

/// Picks the name under which the host executable is loaded: the first of the
/// expected names for which `is_loaded` says yes, or nothing if it says no to
/// all of them. A later name is only asked about when the earlier ones are
/// not loaded.
pub fn get_game_module<L: Fn(&'static str) -> bool>(is_loaded: L) -> (module: Option<
    &'static str,
>)
    requires
        call_requires(is_loaded, (GAME_MODULE,)),
        call_requires(is_loaded, (PROTECTED_GAME_MODULE,)),
    ensures
        match module {
            Some(name) => chooses(is_loaded, name),
            None => finds_none(is_loaded),
        },
{
    if is_loaded(GAME_MODULE) {
        Some(GAME_MODULE)
    } else if is_loaded(PROTECTED_GAME_MODULE) {
        Some(PROTECTED_GAME_MODULE)
    } else {
        None
    }
}

/// Whether `answer` is what `section_range` said of the section `section`
/// of the module that the answers of `is_loaded` choose.
pub open spec fn reports<L, R>(
    is_loaded: L,
    section_range: R,
    section: &str,
    answer: Option<SectionRange>,
) -> bool where L: Fn(&'static str) -> bool, R: Fn(&'static str, &str) -> Option<SectionRange> {
    ||| chooses(is_loaded, GAME_MODULE) && call_ensures(
        section_range,
        (GAME_MODULE, section),
        answer,
    )
    ||| chooses(is_loaded, PROTECTED_GAME_MODULE) && call_ensures(
        section_range,
        (PROTECTED_GAME_MODULE, section),
        answer,
    )
}

/// Locates the section `section` of the host module.
///
/// Fails with `NoGameBase` when no module of an expected name is loaded, and
/// then asks for no section; fails with `SectionNotFound` when the module
/// that was found has no such section; otherwise gives the range that
/// `section_range` reported for that module.
pub fn get_section<L, R>(section: &str, is_loaded: L, section_range: R) -> (located: Result<
    SectionRange,
    SectionLookupError,
>) where L: Fn(&'static str) -> bool, R: Fn(&'static str, &str) -> Option<SectionRange>
    requires
        call_requires(is_loaded, (GAME_MODULE,)),
        call_requires(is_loaded, (PROTECTED_GAME_MODULE,)),
        call_requires(section_range, (GAME_MODULE, section)),
        call_requires(section_range, (PROTECTED_GAME_MODULE, section)),
    ensures
        match located {
            Err(SectionLookupError::NoGameBase) => finds_none(is_loaded),
            Err(SectionLookupError::SectionNotFound) => reports(
                is_loaded,
                section_range,
                section,
                None,
            ),
            Ok(range) => reports(is_loaded, section_range, section, Some(range)),
        },
{
    match get_game_module(is_loaded) {
        None => Err(SectionLookupError::NoGameBase),
        Some(module) => match section_range(module, section) {
            None => Err(SectionLookupError::SectionNotFound),
            Some(range) => Ok(range),
        },
    }
}

} // verus!
