//! The table of singletons: which named class keeps the pointer to its one
//! instance at which address.

use vstd::prelude::*;
use vstd::utf8::{decode_utf8, encode_utf8, valid_utf8};

use crate::scanner::pattern::{byte_groups, BitPattern, PatternError};
use crate::scanner::scan::{candidates, scan, scan_all, CandidateModel, MatchCandidate};
use crate::util::null_check::{lemma_null_check_pattern_compiles, null_check};
use crate::util::section::{Section, SectionLookupError, SectionRange};

verus! {

/// Why the table of singletons could not be built.
#[derive(Clone, Copy, Debug, PartialEq, Eq)]
pub enum SingletonMapError {
    /// The pattern that was to be searched for was refused.
    Pattern(PatternError),
    /// The section of the given name could not be located.
    Section(&'static str, SectionLookupError),
    /// A name came back that is not text.
    MalformedName,
}

/// Why an instance could not be looked up.
#[derive(Clone, Copy, Debug, PartialEq, Eq)]
pub enum LookupError {
    /// The table has no entry of that name.
    NotFound,
    /// There is no table, because building it failed. No lookup gives this:
    /// it is for whoever builds the table to say why it gives up.
    SingletonMapCreation(SingletonMapError),
}

/// A type that mirrors a class of the host of which the table may hold the
/// one instance.
pub trait DLRFLocatable {
    /// The name under which the host's reflection data knows the class.
    const DLRF_NAME: &'static str;
}

/// Whether one of the entries of `listing` bears `name`.
pub open spec fn mentions(listing: Seq<(Seq<char>, usize)>, name: Seq<char>) -> bool {
    exists|i: int| 0 <= i < listing.len() && (#[trigger] listing[i]).0 == name
}

/// The place of an entry of `listing` that bears `name`.
pub open spec fn place_of(listing: Seq<(Seq<char>, usize)>, name: Seq<char>) -> int {
    choose|i: int| 0 <= i < listing.len() && (#[trigger] listing[i]).0 == name
}

/// No two entries of `listing` bear the same name.
pub open spec fn distinct_names(listing: Seq<(Seq<char>, usize)>) -> bool {
    forall|i: int, j: int|
        0 <= i < j < listing.len() ==> (#[trigger] listing[i]).0 != (#[trigger] listing[j]).0
}

/// The map that sends each name of `listing` to the address beside it.
pub open spec fn table_of(listing: Seq<(Seq<char>, usize)>) -> Map<Seq<char>, usize> {
    Map::new(
        |name: Seq<char>| mentions(listing, name),
        |name: Seq<char>| listing[place_of(listing, name)].1,
    )
}

/// Each entry of a listing without repeated names is found in its table.
pub proof fn lemma_table_holds_entry(listing: Seq<(Seq<char>, usize)>, i: int)
    requires
        distinct_names(listing),
        0 <= i < listing.len(),
    ensures
        table_of(listing).contains_key(listing[i].0),
        table_of(listing)[listing[i].0] == listing[i].1,
{
    let name = listing[i].0;
    assert(mentions(listing, name));
    let j = place_of(listing, name);
    assert(listing[j].0 == name);
    if j < i {
        assert(listing[j].0 != listing[i].0);
    } else if i < j {
        assert(listing[i].0 != listing[j].0);
    }
}

/// Adding an entry under a new name adds it to the table.
pub proof fn lemma_table_after_push(
    listing: Seq<(Seq<char>, usize)>,
    name: Seq<char>,
    address: usize,
)
    requires
        distinct_names(listing),
        !mentions(listing, name),
    ensures
        distinct_names(listing.push((name, address))),
        table_of(listing.push((name, address))) == table_of(listing).insert(name, address),
{
    let longer = listing.push((name, address));
    assert forall|i: int, j: int| 0 <= i < j < longer.len() implies (#[trigger] longer[i]).0 != (
    #[trigger] longer[j]).0 by {
        assert(longer[i] == listing[i]);
        if j < listing.len() {
            assert(longer[j] == listing[j]);
        } else {
            assert(longer[j].0 == name);
            if longer[i].0 == name {
                assert(mentions(listing, name));
            }
        }
    }
    assert forall|key: Seq<char>| #[trigger]
        table_of(longer).contains_key(key) == table_of(listing).insert(
            name,
            address,
        ).contains_key(key) by {
        if mentions(longer, key) {
            let i = place_of(longer, key);
            if i < listing.len() {
                assert(listing[i] == longer[i]);
                assert(mentions(listing, key));
            }
        }
        if mentions(listing, key) {
            let i = place_of(listing, key);
            assert(longer[i] == listing[i]);
            assert(mentions(longer, key));
        }
        if key == name {
            assert(longer[listing.len() as int].0 == name);
            assert(mentions(longer, key));
        }
    }
    assert forall|key: Seq<char>| #[trigger]
        table_of(longer).contains_key(key) implies table_of(longer)[key] == table_of(
        listing,
    ).insert(name, address)[key] by {
        let i = place_of(longer, key);
        assert(longer[i].0 == key);
        lemma_table_holds_entry(longer, i);
        if i < listing.len() {
            assert(longer[i] == listing[i]);
            lemma_table_holds_entry(listing, i);
        }
    }
    assert(table_of(longer) =~= table_of(listing).insert(name, address));
}

/// Replacing the address of an entry replaces it in the table.
pub proof fn lemma_table_after_update(listing: Seq<(Seq<char>, usize)>, i: int, address: usize)
    requires
        distinct_names(listing),
        0 <= i < listing.len(),
    ensures
        distinct_names(listing.update(i, (listing[i].0, address))),
        table_of(listing.update(i, (listing[i].0, address))) == table_of(listing).insert(
            listing[i].0,
            address,
        ),
{
    let name = listing[i].0;
    let changed = listing.update(i, (name, address));
    assert forall|a: int, b: int| 0 <= a < b < changed.len() implies (#[trigger] changed[a]).0 != (
    #[trigger] changed[b]).0 by {
        assert(changed[a].0 == listing[a].0);
        assert(changed[b].0 == listing[b].0);
    }
    assert forall|key: Seq<char>| #[trigger]
        table_of(changed).contains_key(key) == table_of(listing).insert(
            name,
            address,
        ).contains_key(key) by {
        if mentions(changed, key) {
            let k = place_of(changed, key);
            assert(listing[k].0 == changed[k].0);
            assert(mentions(listing, key));
        }
        if mentions(listing, key) {
            let k = place_of(listing, key);
            assert(changed[k].0 == listing[k].0);
            assert(mentions(changed, key));
        }
        if key == name {
            assert(changed[i].0 == name);
            assert(mentions(changed, key));
        }
    }
    assert forall|key: Seq<char>| #[trigger]
        table_of(changed).contains_key(key) implies table_of(changed)[key] == table_of(
        listing,
    ).insert(name, address)[key] by {
        let k = place_of(changed, key);
        assert(changed[k].0 == key);
        lemma_table_holds_entry(changed, k);
        if k != i {
            assert(changed[k] == listing[k]);
            lemma_table_holds_entry(listing, k);
        }
    }
    assert(table_of(changed) =~= table_of(listing).insert(name, address));
}

/// A table has as many entries as its listing, when no name is repeated in
/// the listing.
pub proof fn lemma_table_has_one_entry_for_each_name(listing: Seq<(Seq<char>, usize)>)
    requires
        distinct_names(listing),
    ensures
        table_of(listing).dom().finite(),
        table_of(listing).dom().len() == listing.len(),
    decreases listing.len(),
{
    if listing.len() == 0 {
        assert(table_of(listing).dom() =~= Set::<Seq<char>>::empty());
    } else {
        let earlier = listing.drop_last();
        let (name, address) = listing.last();
        assert forall|i: int, j: int| 0 <= i < j < earlier.len() implies (#[trigger] earlier[i]).0
            != (#[trigger] earlier[j]).0 by {
            assert(earlier[i] == listing[i]);
            assert(earlier[j] == listing[j]);
        }
        if mentions(earlier, name) {
            let i = place_of(earlier, name);
            assert(earlier[i] == listing[i]);
            assert(listing[i].0 != listing[listing.len() - 1].0);
        }
        lemma_table_has_one_entry_for_each_name(earlier);
        lemma_table_after_push(earlier, name, address);
        assert(earlier.push((name, address)) =~= listing);
        assert(!table_of(earlier).dom().contains(name));
        assert(table_of(listing).dom() =~= table_of(earlier).dom().insert(name));
    }
}

/// The entries that a vector of names and addresses stands for.
pub open spec fn listing_of(entries: Seq<(String, usize)>) -> Seq<(Seq<char>, usize)> {
    Seq::new(entries.len(), |i: int| (entries[i].0@, entries[i].1))
}

/// The table of singletons: for each class name, the address of the slot that
/// holds the pointer to the instance of that class.
///
/// A name occurs at most once. The entries are kept in the order in which
/// their names first came in.
#[derive(Debug)]
pub struct SingletonMap {
    entries: Vec<(String, usize)>,
}

impl View for SingletonMap {
    type V = Map<Seq<char>, usize>;

    open spec fn view(&self) -> Map<Seq<char>, usize> {
        table_of(self.listing())
    }
}

impl SingletonMap {
    #[verifier::type_invariant]
    spec fn well_formed(self) -> bool {
        distinct_names(listing_of(self.entries@))
    }

    /// The entries of the table, in the order in which their names first
    /// came in.
    pub closed spec fn listing(&self) -> Seq<(Seq<char>, usize)> {
        listing_of(self.entries@)
    }

    /// A table without entries.
    pub fn new() -> (table: SingletonMap)
        ensures
            table.listing() == Seq::<(Seq<char>, usize)>::empty(),
            table@ == Map::<Seq<char>, usize>::empty(),
    {
        let table = SingletonMap { entries: Vec::new() };
        assert(table.listing() =~= Seq::<(Seq<char>, usize)>::empty());
        assert(table@ =~= Map::<Seq<char>, usize>::empty());
        table
    }

    /// Number of entries, which is the number of names.
    pub fn len(&self) -> (count: usize)
        ensures
            count == self.listing().len(),
            count == self@.dom().len(),
    {
        proof {
            use_type_invariant(self);
            lemma_table_has_one_entry_for_each_name(self.listing());
        }
        self.entries.len()
    }

    /// The name and the address of the entry at place `i`.
    pub fn entry(&self, i: usize) -> (entry: (&str, usize))
        requires
            i < self.listing().len(),
        ensures
            (entry.0@, entry.1) == self.listing()[i as int],
    {
        (self.entries[i].0.as_str(), self.entries[i].1)
    }

    /// The place of the entry that bears `name`, if there is one.
    fn find(&self, name: &String) -> (place: Option<usize>)
        ensures
            distinct_names(self.listing()),
            match place {
                Some(i) => i < self.listing().len() && self.listing()[i as int].0 == name@,
                None => !mentions(self.listing(), name@),
            },
    {
        proof {
            use_type_invariant(self);
        }
        let mut i: usize = 0;
        while i < self.entries.len()
            invariant
                i <= self.entries@.len(),
                distinct_names(self.listing()),
                forall|k: int| 0 <= k < i ==> (#[trigger] self.listing()[k]).0 != name@,
            decreases self.entries@.len() - i,
        {
            if self.entries[i].0 == *name {
                return Some(i);
            }
            i += 1;
        }
        None
    }

    /// Puts `address` under `name`, in place of the address that stood there
    /// if the name was known already.
    pub fn insert(&mut self, name: String, address: usize)
        ensures
            final(self)@ == old(self)@.insert(name@, address),
            distinct_names(final(self).listing()),
            final(self).listing() == if mentions(old(self).listing(), name@) {
                old(self).listing().update(
                    place_of(old(self).listing(), name@),
                    (name@, address),
                )
            } else {
                old(self).listing().push((name@, address))
            },
    {
        let ghost before = self.listing();
        match self.find(&name) {
            Some(i) => {
                proof {
                    assert(mentions(before, name@));
                    let chosen = place_of(before, name@);
                    assert(before[chosen].0 == name@);
                    if chosen < i {
                        assert(before[chosen].0 != before[i as int].0);
                    } else if i < chosen {
                        assert(before[i as int].0 != before[chosen].0);
                    }
                    lemma_table_after_update(before, i as int, address);
                }
                let mut entries: Vec<(String, usize)> = Vec::new();
                assert(listing_of(entries@) =~= Seq::<(Seq<char>, usize)>::empty());
                core::mem::swap(&mut self.entries, &mut entries);
                entries[i] = (name, address);
                assert(listing_of(entries@) =~= before.update(i as int, (name@, address)));
                core::mem::swap(&mut self.entries, &mut entries);
            },
            None => {
                proof {
                    lemma_table_after_push(before, name@, address);
                }
                let mut entries: Vec<(String, usize)> = Vec::new();
                assert(listing_of(entries@) =~= Seq::<(Seq<char>, usize)>::empty());
                core::mem::swap(&mut self.entries, &mut entries);
                entries.push((name, address));
                assert(listing_of(entries@) =~= before.push((name@, address)));
                core::mem::swap(&mut self.entries, &mut entries);
            },
        }
    }

    /// The address that stands under `name`, if the name is known.
    pub fn get(&self, name: &str) -> (address: Option<usize>)
        ensures
            match address {
                Some(slot) => self@.contains_key(name@) && self@[name@] == slot,
                None => !self@.contains_key(name@),
            },
    {
        let key = name.to_owned();
        match self.find(&key) {
            Some(i) => {
                proof {
                    lemma_table_holds_entry(self.listing(), i as int);
                }
                Some(self.entries[i].1)
            },
            None => None,
        }
    }
}

/// The code that checks a singleton for null before using it, as a bit
/// pattern.
///
/// In order: a load of the instance pointer into a register (`mov`, 7 bytes,
/// the last 4 an address displacement), a test of that register against
/// itself (3 bytes), a jump taken when it is not zero (2 bytes), the address
/// of the class's reflection data taken into `rcx` (`lea`, 7 bytes, the last
/// 4 a displacement), and a call of the function that gives the class's name
/// (5 bytes, the last 4 a displacement). The three displacements are
/// captured.
pub const NULL_CHECK_PATTERN: &'static str =
    "01001... 10001011 00...101 [........ ........ ........ ........] \
     01001... 10000101 11...... \
     01110101 ........ \
     01001... 10001101 00001101 [........ ........ ........ ........] \
     11101000 [........ ........ ........ ........]";

/// Where the instruction that loads the instance pointer ends, counted from
/// the start of a candidate. Its displacement is relative to that place.
pub const INSTANCE_OPERAND_END: usize = 7;

/// Where the instruction that takes the address of the reflection data ends.
pub const METADATA_OPERAND_END: usize = 19;

/// Where the call of the name resolver ends.
pub const RESOLVER_OPERAND_END: usize = 24;

/// Name of the section that holds the code of a module.
pub const TEXT_SECTION: &'static str = ".text";

/// Name of the section that holds the initialised data of a module.
pub const DATA_SECTION: &'static str = ".data";

/// The number that four bytes spell, least significant byte first.
pub open spec fn le_u32(bytes: Seq<u8>) -> int {
    bytes[0] + 0x100 * bytes[1] + 0x1_0000 * bytes[2] + 0x100_0000 * bytes[3]
}

/// The four bytes that spell `value`, least significant byte first.
pub open spec fn le_bytes(value: u32) -> Seq<u8> {
    seq![
        (value % 0x100) as u8,
        (value / 0x100 % 0x100) as u8,
        (value / 0x1_0000 % 0x100) as u8,
        (value / 0x100_0000) as u8,
    ]
}

/// Four bytes that were written for a number read back as that number.
pub proof fn lemma_le_u32_reads_what_le_bytes_wrote(value: u32)
    ensures
        le_bytes(value).len() == 4,
        le_u32(le_bytes(value)) == value,
{
}

/// Reads a displacement out of a captured group; nothing if the group is not
/// four bytes wide.
pub fn read_displacement(capture: &[u8]) -> (displacement: Option<u32>)
    ensures
        match displacement {
            Some(value) => capture@.len() == 4 && value == le_u32(capture@),
            None => capture@.len() != 4,
        },
{
    if capture.len() != 4 {
        return None;
    }
    let low: u32 = capture[0] as u32 + 0x100 * (capture[1] as u32);
    let high: u32 = capture[2] as u32 + 0x100 * (capture[3] as u32);
    Some(low + 0x1_0000 * high)
}

/// A candidate that passed every check: the three addresses that its
/// displacements lead to.
#[derive(Clone, Copy, Debug, PartialEq, Eq)]
pub struct ResolvedCandidate {
    /// Address of the slot that holds the pointer to the instance.
    pub instance_slot: usize,
    /// Address of the reflection data of the class.
    pub metadata: usize,
    /// Address of the function that gives the name of the class.
    pub name_resolver: usize,
}

/// Whether a candidate carries what the null check captures: three
/// displacements of four bytes.
pub open spec fn carries_displacements(candidate: CandidateModel) -> bool {
    &&& candidate.captures.len() == 3
    &&& candidate.captures[0].len() == 4
    &&& candidate.captures[1].len() == 4
    &&& candidate.captures[2].len() == 4
}

/// The address that the displacement of capture group `group` leads to, for
/// a candidate found in the section `text`: the address of the candidate,
/// plus the place at which the instruction ends, plus the displacement.
pub open spec fn operand_address(
    text: SectionRange,
    candidate: CandidateModel,
    group: int,
    operand_end: int,
) -> int {
    text.start + candidate.location + operand_end + le_u32(candidate.captures[group])
}

/// The addresses that `candidate` leads to, if it passes every check: the
/// instance slot and the reflection data lie in `data`, the name resolver
/// lies in `text`.
pub open spec fn resolve(text: SectionRange, data: SectionRange, candidate: CandidateModel)
    -> Option<ResolvedCandidate> {
    let instance_slot = operand_address(text, candidate, 0, INSTANCE_OPERAND_END as int);
    let metadata = operand_address(text, candidate, 1, METADATA_OPERAND_END as int);
    let name_resolver = operand_address(text, candidate, 2, RESOLVER_OPERAND_END as int);
    if carries_displacements(candidate) && data.holds(instance_slot) && data.holds(metadata)
        && text.holds(name_resolver) {
        Some(
            ResolvedCandidate {
                instance_slot: instance_slot as usize,
                metadata: metadata as usize,
                name_resolver: name_resolver as usize,
            },
        )
    } else {
        None
    }
}

fn lies_in(range: SectionRange, address: u128) -> (inside: bool)
    ensures
        inside == range.holds(address as int),
{
    range.start as u128 <= address && address < range.end as u128
}

/// Checks one candidate. A candidate that fails a check is no error: the
/// pattern also matches code that has nothing to do with singletons.
pub fn resolve_candidate(
    text: SectionRange,
    data: SectionRange,
    candidate: &MatchCandidate,
) -> (resolved: Option<ResolvedCandidate>)
    ensures
        resolved == resolve(text, data, candidate@),
{
    if candidate.captures.len() != 3 {
        return None;
    }
    let instance_displacement = match read_displacement(candidate.captures[0].as_slice()) {
        Some(value) => value,
        None => { return None; },
    };
    let metadata_displacement = match read_displacement(candidate.captures[1].as_slice()) {
        Some(value) => value,
        None => { return None; },
    };
    let resolver_displacement = match read_displacement(candidate.captures[2].as_slice()) {
        Some(value) => value,
        None => { return None; },
    };
    let base: u128 = text.start as u128 + candidate.location as u128;
    let instance_slot: u128 = base + INSTANCE_OPERAND_END as u128 + instance_displacement as u128;
    let metadata: u128 = base + METADATA_OPERAND_END as u128 + metadata_displacement as u128;
    let name_resolver: u128 = base + RESOLVER_OPERAND_END as u128 + resolver_displacement as u128;
    if lies_in(data, instance_slot) && lies_in(data, metadata) && lies_in(text, name_resolver) {
        Some(
            ResolvedCandidate {
                instance_slot: instance_slot as usize,
                metadata: metadata as usize,
                name_resolver: name_resolver as usize,
            },
        )
    } else {
        None
    }
}

/// The candidates among `found` that pass every check, in the order of
/// `found`.
pub open spec fn resolve_all(text: SectionRange, data: SectionRange, found: Seq<CandidateModel>)
    -> Seq<ResolvedCandidate>
    decreases found.len(),
{
    if found.len() == 0 {
        seq![]
    } else {
        let earlier = resolve_all(text, data, found.drop_last());
        match resolve(text, data, found.last()) {
            Some(resolved) => earlier.push(resolved),
            None => earlier,
        }
    }
}

/// Checks every candidate and keeps those that pass.
pub fn resolve_candidates(
    text: SectionRange,
    data: SectionRange,
    found: &[MatchCandidate],
) -> (kept: Vec<ResolvedCandidate>)
    ensures
        kept@ == resolve_all(text, data, candidates(found@)),
{
    let mut kept: Vec<ResolvedCandidate> = Vec::new();
    let mut i: usize = 0;
    while i < found.len()
        invariant
            i <= found@.len(),
            kept@ == resolve_all(text, data, candidates(found@).take(i as int)),
        decreases found@.len() - i,
    {
        assert(candidates(found@).take(i + 1).drop_last() =~= candidates(found@).take(i as int));
        if let Some(resolved) = resolve_candidate(text, data, &found[i]) {
            kept.push(resolved);
        }
        i += 1;
    }
    assert(candidates(found@).take(i as int) =~= candidates(found@));
    kept
}

/// Decodes bytes as UTF-8 text.
///
/// Trusted: this is `String::from_utf8` of the standard library. It gives a
/// string exactly when the bytes are valid UTF-8, and the string then
/// consists of those very bytes.
#[verifier::external_body]
fn decode_name(raw: &[u8]) -> (name: Option<String>)
    ensures
        name is Some <==> valid_utf8(raw@),
        name matches Some(text) ==> encode_utf8(text@) == raw@,
{
    String::from_utf8(raw.to_vec()).ok()
}

/// The table after the name spelled by `raw` was recorded for the slot at
/// `instance_slot`, or the failure if `raw` is not text. A name that the
/// table has already gets the new address.
pub open spec fn record(table: Map<Seq<char>, usize>, instance_slot: usize, raw: Seq<u8>)
    -> Result<Map<Seq<char>, usize>, SingletonMapError> {
    if valid_utf8(raw) {
        Ok(table.insert(decode_utf8(raw), instance_slot))
    } else {
        Err(SingletonMapError::MalformedName)
    }
}

/// Records the name that the name resolver gave for a candidate: `raw_name`
/// holds the bytes of the name, without the terminating zero.
///
/// Bytes that are not UTF-8 text are refused, and the table stays as it was.
pub fn record_name(
    table: &mut SingletonMap,
    instance_slot: usize,
    raw_name: &[u8],
) -> (recorded: Result<(), SingletonMapError>)
    ensures
        match recorded {
            Ok(()) => record(old(table)@, instance_slot, raw_name@) == Ok::<
                Map<Seq<char>, usize>,
                SingletonMapError,
            >(final(table)@),
            Err(error) => record(old(table)@, instance_slot, raw_name@) == Err::<
                Map<Seq<char>, usize>,
                SingletonMapError,
            >(error) && final(table).listing() == old(table).listing(),
        },
{
    match decode_name(raw_name) {
        Some(name) => {
            proof {
                vstd::utf8::encode_utf8_decode_utf8(name@);
            }
            table.insert(name, instance_slot);
            Ok(())
        },
        None => Err(SingletonMapError::MalformedName),
    }
}

/// The table that comes of recording, in order, the name `names[i]` for the
/// candidate `resolved[i]`, or the failure on the first name that is not
/// text.
pub open spec fn assemble(resolved: Seq<ResolvedCandidate>, names: Seq<Seq<u8>>) -> Result<
    Map<Seq<char>, usize>,
    SingletonMapError,
>
    recommends
        names.len() <= resolved.len(),
    decreases names.len(),
{
    if names.len() == 0 {
        Ok(Map::empty())
    } else {
        match assemble(resolved, names.drop_last()) {
            Ok(table) => record(table, resolved[names.len() - 1].instance_slot, names.last()),
            Err(error) => Err(error),
        }
    }
}

/// Builds the table from checked candidates and the names that the name
/// resolver gave for them, one name for each candidate.
pub fn assemble_table(resolved: &[ResolvedCandidate], names: &[Vec<u8>]) -> (built: Result<
    SingletonMap,
    SingletonMapError,
>)
    requires
        names@.len() == resolved@.len(),
    ensures
        match built {
            Ok(table) => assemble(resolved@, byte_groups(names@)) == Ok::<
                Map<Seq<char>, usize>,
                SingletonMapError,
            >(table@),
            Err(error) => assemble(resolved@, byte_groups(names@)) == Err::<
                Map<Seq<char>, usize>,
                SingletonMapError,
            >(error),
        },
{
    let mut table = SingletonMap::new();
    let mut i: usize = 0;
    while i < names.len()
        invariant
            i <= names@.len() == resolved@.len(),
            assemble(resolved@, byte_groups(names@).take(i as int)) == Ok::<
                Map<Seq<char>, usize>,
                SingletonMapError,
            >(table@),
        decreases names@.len() - i,
    {
        proof {
            let upto = byte_groups(names@).take(i + 1);
            assert(upto.drop_last() =~= byte_groups(names@).take(i as int));
            assert(upto.last() == names@[i as int]@);
            lemma_failure_stays(resolved@, byte_groups(names@), i + 1);
        }
        let recorded = record_name(&mut table, resolved[i].instance_slot, names[i].as_slice());
        if let Err(error) = recorded {
            return Err(error);
        }
        i += 1;
    }
    assert(byte_groups(names@).take(i as int) =~= byte_groups(names@));
    Ok(table)
}

/// Once a name was refused, more names change nothing.
pub proof fn lemma_failure_stays(resolved: Seq<ResolvedCandidate>, names: Seq<Seq<u8>>, n: int)
    requires
        0 <= n <= names.len(),
    ensures
        assemble(resolved, names.take(n)) is Err ==> assemble(resolved, names) == assemble(
            resolved,
            names.take(n),
        ),
    decreases names.len() - n,
{
    if n < names.len() {
        assert(names.take(n + 1).drop_last() =~= names.take(n));
        lemma_failure_stays(resolved, names, n + 1);
    } else {
        assert(names.take(n) =~= names);
    }
}

/// Whether `answers` holds, for each of the first candidates of `resolved`
/// in turn, a name that `get_singleton_name` gave when it was called with
/// the candidate's name resolver and reflection data.
pub open spec fn answered<F: Fn(usize, usize) -> Vec<u8>>(
    get_singleton_name: F,
    resolved: Seq<ResolvedCandidate>,
    answers: Seq<Vec<u8>>,
) -> bool {
    &&& answers.len() <= resolved.len()
    &&& forall|i: int|
        0 <= i < answers.len() ==> call_ensures(
            get_singleton_name,
            (resolved[i].name_resolver, resolved[i].metadata),
            #[trigger] answers[i],
        )
}

/// Whether `built` is what comes of asking `get_singleton_name` for the name
/// of each candidate in turn and recording it, up to the first name that is
/// not text.
pub open spec fn named_by<F: Fn(usize, usize) -> Vec<u8>>(
    get_singleton_name: F,
    resolved: Seq<ResolvedCandidate>,
    built: Result<Map<Seq<char>, usize>, SingletonMapError>,
) -> bool {
    exists|answers: Seq<Vec<u8>>| #[trigger]
        answered(get_singleton_name, resolved, answers) && assemble(
            resolved,
            byte_groups(answers),
        ) == built && if built is Ok {
            answers.len() == resolved.len()
        } else {
            answers.len() > 0 && assemble(resolved, byte_groups(answers.drop_last())) is Ok
        }
}

/// Whether `slot` is the instance slot of one of the candidates `resolved`.
pub open spec fn is_slot_of(resolved: Seq<ResolvedCandidate>, slot: usize) -> bool {
    exists|i: int| 0 <= i < resolved.len() && (#[trigger] resolved[i]).instance_slot == slot
}

/// Asks `get_singleton_name` for the name of each candidate in turn and
/// records it, the later of two candidates of one name replacing the
/// earlier. Stops at the first name that is not text.
///
/// `get_singleton_name` is called for the candidates handed in and for
/// nothing else: it need not bear any other call.
pub fn name_candidates<F: Fn(usize, usize) -> Vec<u8>>(
    resolved: &[ResolvedCandidate],
    get_singleton_name: F,
) -> (built: Result<SingletonMap, SingletonMapError>)
    requires
        forall|k: int|
            0 <= k < resolved@.len() ==> call_requires(
                get_singleton_name,
                ((#[trigger] resolved@[k]).name_resolver, resolved@[k].metadata),
            ),
    ensures
        named_by(
            get_singleton_name,
            resolved@,
            match built {
                Ok(table) => Ok(table@),
                Err(error) => Err(error),
            },
        ),
        built matches Ok(table) ==> forall|name: Seq<char>| #[trigger]
            table@.contains_key(name) ==> is_slot_of(resolved@, table@[name]),
{
    let mut table = SingletonMap::new();
    let ghost mut answers: Seq<Vec<u8>> = Seq::empty();
    assert(byte_groups(answers) =~= Seq::<Seq<u8>>::empty());
    let mut i: usize = 0;
    while i < resolved.len()
        invariant
            forall|k: int|
                0 <= k < resolved@.len() ==> call_requires(
                    get_singleton_name,
                    ((#[trigger] resolved@[k]).name_resolver, resolved@[k].metadata),
                ),
            i <= resolved@.len(),
            answers.len() == i,
            answered(get_singleton_name, resolved@, answers),
            assemble(resolved@, byte_groups(answers)) == Ok::<
                Map<Seq<char>, usize>,
                SingletonMapError,
            >(table@),
        decreases resolved@.len() - i,
    {
        let raw = get_singleton_name(resolved[i].name_resolver, resolved[i].metadata);
        let ghost earlier = answers;
        proof {
            answers = earlier.push(raw);
            assert(answers.drop_last() =~= earlier);
            assert(byte_groups(answers).drop_last() =~= byte_groups(earlier));
            assert(byte_groups(answers).last() == raw@);
            assert(answered(get_singleton_name, resolved@, answers));
        }
        if let Err(error) = record_name(&mut table, resolved[i].instance_slot, raw.as_slice()) {
            assert(named_by(
                get_singleton_name,
                resolved@,
                Err::<Map<Seq<char>, usize>, SingletonMapError>(error),
            ));
            return Err(error);
        }
        i += 1;
    }
    assert(named_by(
        get_singleton_name,
        resolved@,
        Ok::<Map<Seq<char>, usize>, SingletonMapError>(table@),
    ));
    assert forall|name: Seq<char>| #[trigger] table@.contains_key(name) implies is_slot_of(
        resolved@,
        table@[name],
    ) by {
        let i = lemma_entries_come_from_candidates(resolved@, byte_groups(answers), name);
        assert(resolved@[i].instance_slot == table@[name]);
    }
    Ok(table)
}

/// What building the table comes to, given the outcome of the two section
/// lookups and the function that names a class. The pattern of the null
/// check is always accepted, so no failure comes of it.
pub open spec fn build_outcome<'a, F: Fn(usize, usize) -> Vec<u8>>(
    text: Result<Section<'a>, SectionLookupError>,
    data: Result<Section<'a>, SectionLookupError>,
    get_singleton_name: F,
    built: Result<Map<Seq<char>, usize>, SingletonMapError>,
) -> bool {
    match text {
        Err(reason) => built == Err::<Map<Seq<char>, usize>, SingletonMapError>(
            SingletonMapError::Section(TEXT_SECTION, reason),
        ),
        Ok(text) => match data {
            Err(reason) => built == Err::<Map<Seq<char>, usize>, SingletonMapError>(
                SingletonMapError::Section(DATA_SECTION, reason),
            ),
            Ok(data) => named_by(
                get_singleton_name,
                resolve_all(text.extent(), data.extent(), scan(null_check(), text.content())),
                built,
            ),
        },
    }
}

/// Builds the table of singletons.
///
/// `text` and `data` are the outcomes of locating the code section and the
/// data section of the host module. The code is searched for the null check;
/// each match whose three addresses lie where they should is a singleton,
/// and `get_singleton_name` is called with the address of its name resolver
/// and the address of its reflection data to learn its name, which it gives
/// as bytes without the terminating zero. When two candidates bear the same
/// name, the later one stays.
///
/// `get_singleton_name` is only ever called with an address of the code
/// section and an address of the data section, those of a candidate that
/// passed every check: it need not bear any other call.
///
/// Fails when a section was not located or when a name is not text; after
/// such a name no further name is asked for.
pub fn build_singleton_table<'a, F: Fn(usize, usize) -> Vec<u8>>(
    text: Result<Section<'a>, SectionLookupError>,
    data: Result<Section<'a>, SectionLookupError>,
    get_singleton_name: F,
) -> (built: Result<SingletonMap, SingletonMapError>)
    requires
        forall|name_resolver: usize, metadata: usize|
            text is Ok && data is Ok && text->Ok_0.extent().holds(name_resolver as int)
                && data->Ok_0.extent().holds(metadata as int) ==> #[trigger] call_requires(
                get_singleton_name,
                (name_resolver, metadata),
            ),
    ensures
        build_outcome(
            text,
            data,
            get_singleton_name,
            match built {
                Ok(table) => Ok(table@),
                Err(error) => Err(error),
            },
        ),
        built matches Ok(table) ==> data matches Ok(data) && forall|name: Seq<char>| #[trigger]
            table@.contains_key(name) ==> data.extent().holds(table@[name] as int),
{
    let text = match text {
        Ok(section) => section,
        Err(reason) => { return Err(SingletonMapError::Section(TEXT_SECTION, reason)); },
    };
    let data = match data {
        Ok(section) => section,
        Err(reason) => { return Err(SingletonMapError::Section(DATA_SECTION, reason)); },
    };
    proof {
        lemma_null_check_pattern_compiles();
    }
    let pattern = match BitPattern::from_bit_pattern(NULL_CHECK_PATTERN) {
        Ok(pattern) => pattern,
        Err(reason) => { return Err(SingletonMapError::Pattern(reason)); },
    };
    let found = scan_all(text.bytes(), &pattern);
    let resolved = resolve_candidates(text.range(), data.range(), found.as_slice());
    proof {
        assert forall|k: int| 0 <= k < resolved@.len() implies call_requires(
            get_singleton_name,
            ((#[trigger] resolved@[k]).name_resolver, resolved@[k].metadata),
        ) by {
            lemma_kept_candidates_passed(text.extent(), data.extent(), candidates(found@), k);
        }
    }
    let built = name_candidates(resolved.as_slice(), get_singleton_name);
    proof {
        if built is Ok {
            let table = built->Ok_0;
            assert forall|name: Seq<char>| #[trigger] table@.contains_key(name) implies data.extent(
            ).holds(table@[name] as int) by {
                let i = choose|i: int|
                    0 <= i < resolved@.len() && (#[trigger] resolved@[i]).instance_slot
                        == table@[name];
                lemma_kept_candidates_passed(
                    text.extent(),
                    data.extent(),
                    candidates(found@),
                    i,
                );
            }
        }
    }
    built
}

/// The instance that a pointer read from an instance slot leads to: none if
/// the pointer is zero, the address it holds otherwise.
pub open spec fn live_instance(pointer: usize) -> Option<usize> {
    if pointer == 0 {
        None
    } else {
        Some(pointer)
    }
}

/// Tells whether a pointer read from an instance slot leads to an instance.
pub fn instance_at(pointer: usize) -> (instance: Option<usize>)
    ensures
        instance == live_instance(pointer),
{
    if pointer == 0 {
        None
    } else {
        Some(pointer)
    }
}

/// Looks up the instance of the class that `T` mirrors.
///
/// `table` is the table that was built: when building fails there is no
/// table and nothing to look up, and whoever builds has to give up there.
/// `read_pointer` reads the pointer that is stored at an address of the
/// host. It is called once, with the address of the instance slot of the
/// class, and only if the table knows the class: it need not bear a call
/// with any other address.
///
/// Fails with `NotFound` exactly when the table has no entry under the name
/// of the class, and never in another way. Otherwise gives the address of
/// the instance, or nothing if the slot holds zero: the class is known, but
/// has no instance now.
pub fn get_instance<T: DLRFLocatable, R: Fn(usize) -> usize>(
    table: &SingletonMap,
    read_pointer: R,
) -> (found: Result<Option<usize>, LookupError>)
    requires
        table@.contains_key(T::DLRF_NAME@) ==> call_requires(
            read_pointer,
            (table@[T::DLRF_NAME@],),
        ),
    ensures
        match found {
            Ok(instance) => table@.contains_key(T::DLRF_NAME@) && instance != Some(0usize)
                && call_ensures(
                read_pointer,
                (table@[T::DLRF_NAME@],),
                match instance {
                    Some(address) => address,
                    None => 0,
                },
            ),
            Err(LookupError::NotFound) => !table@.contains_key(T::DLRF_NAME@),
            Err(LookupError::SingletonMapCreation(_)) => false,
        },
{
    match table.get(T::DLRF_NAME) {
        None => Err(LookupError::NotFound),
        Some(slot) => Ok(instance_at(read_pointer(slot))),
    }
}

/// A candidate whose instance slot would lie outside the data section is
/// rejected, wherever its other two addresses lie.
pub proof fn lemma_slot_outside_data_is_rejected(
    text: SectionRange,
    data: SectionRange,
    candidate: CandidateModel,
)
    requires
        !data.holds(operand_address(text, candidate, 0, INSTANCE_OPERAND_END as int)),
    ensures
        resolve(text, data, candidate) is None,
{
}

/// A rejected candidate leaves no trace: the candidates that are kept are
/// those that would be kept had it never been found.
pub proof fn lemma_rejected_candidate_leaves_no_trace(
    text: SectionRange,
    data: SectionRange,
    found: Seq<CandidateModel>,
    i: int,
)
    requires
        0 <= i < found.len(),
        resolve(text, data, found[i]) is None,
    ensures
        resolve_all(text, data, found) == resolve_all(text, data, found.remove(i)),
    decreases found.len(),
{
    if i == found.len() - 1 {
        assert(found.remove(i) =~= found.drop_last());
    } else {
        lemma_rejected_candidate_leaves_no_trace(text, data, found.drop_last(), i);
        assert(found.remove(i).drop_last() =~= found.drop_last().remove(i));
        assert(found.remove(i).last() == found.last());
    }
}

/// Every candidate that is kept passed every check: its instance slot and
/// its reflection data lie in the data section, its name resolver in the
/// code section.
pub proof fn lemma_kept_candidates_passed(
    text: SectionRange,
    data: SectionRange,
    found: Seq<CandidateModel>,
    k: int,
)
    requires
        0 <= k < resolve_all(text, data, found).len(),
    ensures
        data.holds(resolve_all(text, data, found)[k].instance_slot as int),
        data.holds(resolve_all(text, data, found)[k].metadata as int),
        text.holds(resolve_all(text, data, found)[k].name_resolver as int),
    decreases found.len(),
{
    if found.len() > 0 {
        let earlier = resolve_all(text, data, found.drop_last());
        if k < earlier.len() {
            lemma_kept_candidates_passed(text, data, found.drop_last(), k);
        }
    }
}

/// Every entry of a table that was built stands for one of the candidates:
/// its name is the name given for that candidate, its address the
/// candidate's instance slot.
pub proof fn lemma_entries_come_from_candidates(
    resolved: Seq<ResolvedCandidate>,
    names: Seq<Seq<u8>>,
    name: Seq<char>,
) -> (i: int)
    requires
        assemble(resolved, names) is Ok,
        assemble(resolved, names)->Ok_0.contains_key(name),
    ensures
        0 <= i < names.len(),
        valid_utf8(names[i]),
        decode_utf8(names[i]) == name,
        assemble(resolved, names)->Ok_0[name] == resolved[i].instance_slot,
    decreases names.len(),
{
    if valid_utf8(names.last()) && decode_utf8(names.last()) == name {
        names.len() - 1
    } else {
        lemma_entries_come_from_candidates(resolved, names.drop_last(), name)
    }
}

/// Every address in a table that was built lies in the data section: a
/// candidate whose instance slot lies elsewhere has no part in the table.
pub proof fn lemma_every_slot_of_the_table_lies_in_data(
    text: SectionRange,
    data: SectionRange,
    found: Seq<CandidateModel>,
    names: Seq<Seq<u8>>,
    name: Seq<char>,
)
    requires
        names.len() <= resolve_all(text, data, found).len(),
        assemble(resolve_all(text, data, found), names) is Ok,
        assemble(resolve_all(text, data, found), names)->Ok_0.contains_key(name),
    ensures
        data.holds(assemble(resolve_all(text, data, found), names)->Ok_0[name] as int),
{
    let i = lemma_entries_come_from_candidates(resolve_all(text, data, found), names, name);
    lemma_kept_candidates_passed(text, data, found, i);
}

/// When several candidates bear one name, the table holds the instance slot
/// of the one that was recorded last.
pub proof fn lemma_last_candidate_of_a_name_wins(
    resolved: Seq<ResolvedCandidate>,
    names: Seq<Seq<u8>>,
    last: int,
)
    requires
        0 <= last < names.len(),
        assemble(resolved, names) is Ok,
        forall|later: int|
            last < later < names.len() ==> decode_utf8(#[trigger] names[later]) != decode_utf8(
                names[last],
            ),
    ensures
        assemble(resolved, names)->Ok_0.contains_key(decode_utf8(names[last])),
        assemble(resolved, names)->Ok_0[decode_utf8(names[last])] == resolved[last].instance_slot,
    decreases names.len(),
{
    if last < names.len() - 1 {
        let shorter = names.drop_last();
        assert forall|later: int| last < later < shorter.len() implies decode_utf8(
            #[trigger] shorter[later],
        ) != decode_utf8(shorter[last]) by {
            assert(shorter[later] == names[later]);
        }
        lemma_last_candidate_of_a_name_wins(resolved, shorter, last);
        assert(names.last() == names[names.len() - 1]);
    }
}

/// A name that was given for no candidate is not in the table.
pub proof fn lemma_name_never_given_is_absent(
    resolved: Seq<ResolvedCandidate>,
    names: Seq<Seq<u8>>,
    name: Seq<char>,
)
    requires
        assemble(resolved, names) is Ok,
        forall|i: int| 0 <= i < names.len() ==> decode_utf8(#[trigger] names[i]) != name,
    ensures
        !assemble(resolved, names)->Ok_0.contains_key(name),
{
    if assemble(resolved, names)->Ok_0.contains_key(name) {
        let i = lemma_entries_come_from_candidates(resolved, names, name);
    }
}

} // verus!
