//! The records of the character manager and the walk over a character set.

use vstd::prelude::*;

verus! {

/// The characters of one area of the world.
pub struct WorldAreaChr {
    pub base: WorldAreaChrBase,
    pub world_area_info: usize,
    pub unk18: u32,
    pub unk1c: u32,
    /// Address of the area's `WorldBlockChr`.
    pub world_block_chr: usize,
}

/// What the character records of every kind of area start with.
pub struct WorldAreaChrBase {
    pub vftable: usize,
    pub world_area_info: usize,
}

/// The characters of one block of the world.
pub struct WorldBlockChr {
    pub vftable: usize,
    pub world_block_info1: usize,
    pub unk10: [u8; 0x68],
    pub chr_set1: ChrSet,
    pub unkd0: [u8; 0x40],
    pub world_block_info2: usize,
    /// Address of a second character set.
    pub chr_set_ptr2: usize,
    pub allocator: usize,
    pub unk128: [u8; 0x30],
    pub map_id: MapId,
    pub unk15c: u32,
}

/// A set of characters: a table of entries, of which the first `count` are
/// in use.
pub struct ChrSet {
    pub vftable: usize,
    pub unk8: i32,
    pub unkc: i32,
    pub capacity: i32,
    pub unk14: u32,
    /// Address of the first entry of the table.
    pub entries: usize,
    pub count: i32,
    pub unk24: u32,
    pub list1: UnkBtree,
    pub list2: UnkBtree,
}

/// One entry of the table of a character set.
#[derive(Clone, Copy, Debug, PartialEq, Eq)]
pub struct ChrSetEntry {
    /// Address of the character, or zero where the entry holds none.
    pub chr_ins: usize,
    pub unk8: u32,
    pub unkc: u32,
}

/// A character met on a walk over a character set.
#[derive(Clone, Copy, Debug, PartialEq, Eq)]
pub struct ChrSetIterElement {
    /// Address of the character; never zero.
    pub chr_ins: usize,
}

/// The addresses of the characters that the entries `table` hold, in order:
/// an entry that holds none is passed over.
pub open spec fn characters(table: Seq<ChrSetEntry>) -> Seq<usize>
    decreases table.len(),
{
    if table.len() == 0 {
        seq![]
    } else if table[0].chr_ins == 0 {
        characters(table.drop_first())
    } else {
        seq![table[0].chr_ins] + characters(table.drop_first())
    }
}

/// How many entries of a table that holds `available` entries are in use
/// when the set says `count`: no more than there are, and none if the count
/// is negative.
pub open spec fn entries_in_use(count: i32, available: nat) -> nat {
    if count <= 0 {
        0
    } else if count <= available {
        count as nat
    } else {
        available
    }
}

impl ChrSet {
    /// Starts a walk over the characters of the set. `entries` is the table
    /// that the set keeps at the address `self.entries`.
    pub fn character_iter<'a>(&self, entries: &'a [ChrSetEntry]) -> (walk: ChrSetIter<'a>)
        ensures
            walk.pending() == characters(
                entries@.take(entries_in_use(self.count, entries@.len()) as int),
            ),
    {
        let remaining = if self.count <= 0 {
            0
        } else if self.count as usize <= entries.len() {
            self.count as usize
        } else {
            entries.len()
        };
        let walk = ChrSetIter { remaining, current: 0, entries };
        assert(entries@.subrange(0, remaining as int) =~= entries@.take(remaining as int));
        walk
    }
}

/// A walk over the characters of a set.
pub struct ChrSetIter<'a> {
    remaining: usize,
    current: usize,
    entries: &'a [ChrSetEntry],
}

impl<'a> ChrSetIter<'a> {
    #[verifier::type_invariant]
    spec fn well_formed(self) -> bool {
        self.current + self.remaining <= self.entries@.len()
    }

    /// The characters that the walk has yet to give, in order.
    pub closed spec fn pending(&self) -> Seq<usize> {
        characters(
            self.entries@.subrange(self.current as int, self.current + self.remaining),
        )
    }

    /// Gives the next character, or nothing when the walk is over.
    pub fn next(&mut self) -> (element: Option<ChrSetIterElement>)
        ensures
            match element {
                Some(character) => old(self).pending().len() > 0 && character.chr_ins == old(
                    self,
                ).pending()[0] && character.chr_ins != 0 && final(self).pending() == old(
                    self,
                ).pending().drop_first(),
                None => old(self).pending().len() == 0 && final(self).pending().len() == 0,
            },
    {
        proof {
            use_type_invariant(&*self);
        }
        while self.remaining > 0
            invariant
                self.current + self.remaining <= self.entries@.len(),
                self.pending() == old(self).pending(),
            decreases self.remaining,
        {
            let ghost window = self.entries@.subrange(
                self.current as int,
                self.current + self.remaining,
            );
            let chr_ins = self.entries[self.current].chr_ins;
            self.remaining = self.remaining - 1;
            self.current = self.current + 1;
            assert(window.drop_first() =~= self.entries@.subrange(
                self.current as int,
                self.current + self.remaining,
            ));
            assert(window[0] == self.entries@[self.current - 1]);
            if chr_ins != 0 {
                assert(old(self).pending() =~= seq![chr_ins] + self.pending());
                assert(self.pending() =~= old(self).pending().drop_first());
                return Some(ChrSetIterElement { chr_ins });
            }
        }
        None
    }
}

/// An entry of the first list of the open field's character set.
pub struct OpenFieldChrSetList1Entry {
    pub unk0: u64,
    /// Address of the character.
    pub chr_ins: usize,
}

/// An entry of the second list of the open field's character set.
pub struct OpenFieldChrSetList2Entry {
    pub unk0: u64,
    pub unk8: u32,
    pub unkc: u32,
}

/// A tree of the host of which only the shape is known: where it starts
/// and how many entries it has.
pub struct UnkBtree {
    pub vftable: usize,
    pub head: usize,
    pub entry_count: u32,
    pub padding: u32,
}

/// The characters of one cell of the world grid.
pub struct WorldGridAreaChr {
    pub base: WorldAreaChrBase,
    pub world_grid_area_info: usize,
    pub allocator: usize,
    pub head: usize,
    pub capacity: u32,
    pub size: u32,
}

/// The place of a map in the world.
pub struct MapId {
    pub index: u8,
    pub region: u8,
    pub block: u8,
    pub area: u8,
}

} // verus!
