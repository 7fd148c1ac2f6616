//! Finding every occurrence of a pattern in a buffer.

use vstd::prelude::*;

use crate::scanner::pattern::{byte_groups, BitPattern, PatternModel};

verus! {

/// One place at which a pattern matched.
#[derive(Debug, Clone, PartialEq, Eq)]
pub struct MatchCandidate {
    /// Offset of the first matched byte in the scanned buffer.
    pub location: usize,
    /// The bytes covered by each capture group, in the order in which the
    /// pattern declares the groups.
    pub captures: Vec<Vec<u8>>,
}

/// A match as plain mathematics.
pub struct CandidateModel {
    pub location: int,
    pub captures: Seq<Seq<u8>>,
}

impl View for MatchCandidate {
    type V = CandidateModel;

    open spec fn view(&self) -> CandidateModel {
        CandidateModel { location: self.location as int, captures: byte_groups(self.captures@) }
    }
}

/// The matches that a vector of candidates stands for.
pub open spec fn candidates(found: Seq<MatchCandidate>) -> Seq<CandidateModel> {
    Seq::new(found.len(), |i: int| found[i]@)
}

/// The match of `pattern` in `buffer` at `offset`.
pub open spec fn candidate_at(pattern: PatternModel, buffer: Seq<u8>, offset: int)
    -> CandidateModel {
    CandidateModel { location: offset, captures: pattern.captured(buffer, offset) }
}

/// The matches of `pattern` in `buffer` that start below `bound`, by
/// ascending offset. Each offset is judged by itself, so matches may overlap.
pub open spec fn scan_below(pattern: PatternModel, buffer: Seq<u8>, bound: int) -> Seq<
    CandidateModel,
>
    decreases bound,
{
    if bound <= 0 {
        seq![]
    } else {
        let earlier = scan_below(pattern, buffer, bound - 1);
        if pattern.matches_at(buffer, bound - 1) {
            earlier.push(candidate_at(pattern, buffer, bound - 1))
        } else {
            earlier
        }
    }
}

/// All the matches of `pattern` in `buffer`, by ascending offset.
pub open spec fn scan(pattern: PatternModel, buffer: Seq<u8>) -> Seq<CandidateModel> {
    scan_below(pattern, buffer, buffer.len() as int)
}

/// No match starts where the pattern would reach past the end of the buffer.
proof fn lemma_scan_below_saturates(pattern: PatternModel, buffer: Seq<u8>, from: int, to: int)
    requires
        from <= to,
        from + pattern.templates.len() > buffer.len(),
    ensures
        scan_below(pattern, buffer, to) == scan_below(pattern, buffer, from),
    decreases to - from,
{
    if from < to {
        lemma_scan_below_saturates(pattern, buffer, from, to - 1);
    }
}

/// Finds every offset of `buffer` at which `pattern` matches.
pub fn scan_all(buffer: &[u8], pattern: &BitPattern) -> (found: Vec<MatchCandidate>)
    ensures
        candidates(found@) == scan(pattern@, buffer@),
{
    let mut found: Vec<MatchCandidate> = Vec::new();
    let width = pattern.len();
    if buffer.len() < width {
        proof {
            lemma_scan_below_saturates(pattern@, buffer@, 0, buffer@.len() as int);
        }
        assert(candidates(found@) =~= scan(pattern@, buffer@));
        return found;
    }
    let last = buffer.len() - width;
    let mut offset: usize = 0;
    while offset <= last
        invariant
            offset <= last + 1,
            last + width == buffer@.len() <= usize::MAX,
            width == pattern@.templates.len(),
            width > 0,
            candidates(found@) == scan_below(pattern@, buffer@, offset as int),
        decreases last + 1 - offset,
    {
        if pattern.matches_at(buffer, offset) {
            let captures = pattern.captured_at(buffer, offset);
            found.push(MatchCandidate { location: offset, captures });
        }
        offset += 1;
        assert(candidates(found@) =~= scan_below(pattern@, buffer@, offset as int));
    }
    proof {
        lemma_scan_below_saturates(pattern@, buffer@, offset as int, buffer@.len() as int);
    }
    found
}

/// Whether some entry of `found` lies at `offset`.
pub open spec fn lists(found: Seq<CandidateModel>, offset: int) -> bool {
    exists|i: int| 0 <= i < found.len() && (#[trigger] found[i]).location == offset
}

proof fn lemma_scan_below_facts(pattern: PatternModel, buffer: Seq<u8>, bound: int)
    ensures
        forall|i: int|
            0 <= i < scan_below(pattern, buffer, bound).len() ==> {
                let found = #[trigger] scan_below(pattern, buffer, bound)[i];
                &&& 0 <= found.location < bound
                &&& pattern.matches_at(buffer, found.location)
                &&& found == candidate_at(pattern, buffer, found.location)
            },
        forall|i: int, j: int|
            0 <= i < j < scan_below(pattern, buffer, bound).len() ==> (#[trigger] scan_below(
                pattern,
                buffer,
                bound,
            )[i]).location < (#[trigger] scan_below(pattern, buffer, bound)[j]).location,
        forall|offset: int|
            0 <= offset < bound && pattern.matches_at(buffer, offset) ==> #[trigger] lists(
                scan_below(pattern, buffer, bound),
                offset,
            ),
    decreases bound,
{
    if bound > 0 {
        lemma_scan_below_facts(pattern, buffer, bound - 1);
        let earlier = scan_below(pattern, buffer, bound - 1);
        let now = scan_below(pattern, buffer, bound);
        assert forall|offset: int|
            0 <= offset < bound && pattern.matches_at(buffer, offset) implies #[trigger] lists(
            now,
            offset,
        ) by {
            if offset < bound - 1 {
                assert(lists(earlier, offset));
                let i = choose|i: int|
                    0 <= i < earlier.len() && (#[trigger] earlier[i]).location == offset;
                assert(now[i].location == offset);
            } else {
                assert(now[now.len() - 1].location == offset);
            }
        }
    }
}

/// Every reported match is a match: the pattern holds at its offset, and its
/// captures are the bytes that the capture groups cover there.
pub proof fn lemma_scan_is_sound(pattern: PatternModel, buffer: Seq<u8>, i: int)
    requires
        0 <= i < scan(pattern, buffer).len(),
    ensures
        pattern.matches_at(buffer, scan(pattern, buffer)[i].location),
        scan(pattern, buffer)[i] == candidate_at(
            pattern,
            buffer,
            scan(pattern, buffer)[i].location,
        ),
{
    lemma_scan_below_facts(pattern, buffer, buffer.len() as int);
}

/// Every offset at which the pattern holds is reported, whether or not the
/// match overlaps another one.
pub proof fn lemma_scan_is_complete(pattern: PatternModel, buffer: Seq<u8>, offset: int)
    requires
        0 < pattern.templates.len(),
        pattern.matches_at(buffer, offset),
    ensures
        lists(scan(pattern, buffer), offset),
{
    lemma_scan_below_facts(pattern, buffer, buffer.len() as int);
}

/// Matches are reported by ascending offset, each offset once.
pub proof fn lemma_scan_is_ascending(pattern: PatternModel, buffer: Seq<u8>, i: int, j: int)
    requires
        0 <= i < j < scan(pattern, buffer).len(),
    ensures
        scan(pattern, buffer)[i].location < scan(pattern, buffer)[j].location,
{
    lemma_scan_below_facts(pattern, buffer, buffer.len() as int);
}

/// A reported match carries one byte sequence for each capture group of the
/// pattern, in the order of the groups, and each is as long as its group is
/// wide.
pub proof fn lemma_captures_have_declared_shape(pattern: PatternModel, buffer: Seq<u8>, i: int)
    requires
        pattern.wf(),
        0 <= i < scan(pattern, buffer).len(),
    ensures
        scan(pattern, buffer)[i].captures.len() == pattern.captures.len(),
        forall|k: int|
            0 <= k < pattern.captures.len() ==> (#[trigger] scan(
                pattern,
                buffer,
            )[i].captures[k]).len() == pattern.captures[k].end - pattern.captures[k].start,
{
    lemma_scan_is_sound(pattern, buffer, i);
}

/// A buffer in which the pattern holds nowhere yields no match.
pub proof fn lemma_no_match_yields_nothing(pattern: PatternModel, buffer: Seq<u8>)
    requires
        forall|offset: int| !pattern.matches_at(buffer, offset),
    ensures
        scan(pattern, buffer) == Seq::<CandidateModel>::empty(),
{
    lemma_scan_below_facts(pattern, buffer, buffer.len() as int);
    if scan(pattern, buffer).len() > 0 {
        assert(pattern.matches_at(buffer, scan(pattern, buffer)[0].location));
    }
    assert(scan(pattern, buffer) =~= Seq::<CandidateModel>::empty());
}

/// A buffer in which the pattern holds at one offset and nowhere else yields
/// exactly one match, at that offset, whose captures are the bytes of the
/// buffer that the capture groups cover there.
pub proof fn lemma_single_match_yields_one(pattern: PatternModel, buffer: Seq<u8>, offset: int)
    requires
        0 < pattern.templates.len(),
        pattern.matches_at(buffer, offset),
        forall|other: int| other != offset ==> !pattern.matches_at(buffer, other),
    ensures
        scan(pattern, buffer) == seq![candidate_at(pattern, buffer, offset)],
        forall|k: int|
            0 <= k < pattern.captures.len() ==> (#[trigger] scan(
                pattern,
                buffer,
            )[0].captures[k]) == buffer.subrange(
                offset + pattern.captures[k].start,
                offset + pattern.captures[k].end,
            ),
{
    let found = scan(pattern, buffer);
    lemma_scan_below_facts(pattern, buffer, buffer.len() as int);
    assert(lists(found, offset));
    assert forall|i: int| 0 <= i < found.len() implies (#[trigger] found[i]) == candidate_at(
        pattern,
        buffer,
        offset,
    ) by {
        assert(pattern.matches_at(buffer, found[i].location));
    }
    if found.len() > 1 {
        assert(found[0].location < found[1].location);
    }
    assert(found =~= seq![candidate_at(pattern, buffer, offset)]);
}

} // verus!
