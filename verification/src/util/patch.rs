//! Reversible in-place byte edits.
//!
//! A patch names a window of `N` bytes inside a byte buffer and the bytes that
//! should stand there. It is either inactive (only the replacement is known) or
//! active (the replacement is in the buffer and the bytes it displaced are kept).
//! The two states are two types, and each step uses up the patch it is taken
//! on and gives the patch of the other state: a patch cannot be applied twice
//! without a rollback between, nor rolled back twice without an apply between.
//!
//! The buffer is the caller's view of the memory being edited; `target` is the
//! index of the window's first byte in that buffer.

use vstd::prelude::*;

verus! {

/// `memory` with the bytes starting at index `at` replaced by `bytes`.
///
/// Positions outside `[at, at + bytes.len())` keep their value and the length
/// never changes.
pub open spec fn overwrite(memory: Seq<u8>, at: int, bytes: Seq<u8>) -> Seq<u8> {
    Seq::new(
        memory.len(),
        |i: int|
            if at <= i < at + bytes.len() {
                bytes[i - at]
            } else {
                memory[i]
            },
    )
}

/// The `len` bytes of `memory` that start at index `at`.
pub open spec fn window(memory: Seq<u8>, at: int, len: int) -> Seq<u8> {
    memory.subrange(at, at + len)
}

/// Marks the types that can stand as the state of a [`Patch`].
pub trait PatchState {

}

/// A byte edit of a fixed window, in the state `TState`.
#[derive(Debug)]
pub struct Patch<TState: PatchState> {
    target: usize,
    inner: TState,
}

/// State of a patch whose replacement is not in the buffer.
#[derive(Debug)]
pub struct InactiveState<const N: usize> {
    replacement: [u8; N],
}

impl<const N: usize> PatchState for InactiveState<N> {

}

/// State of a patch whose replacement is in the buffer.
#[derive(Debug)]
pub struct ActiveState<const N: usize> {
    replacement: [u8; N],
    original: [u8; N],
}

impl<const N: usize> PatchState for ActiveState<N> {

}

/// Creates an inactive patch of the `N` bytes at index `target`.
pub fn new_patch<const N: usize>(target: usize, replacement: [u8; N]) -> (patch: Patch<
    InactiveState<N>,
>)
    ensures
        patch.target() == target,
        patch.replacement() == replacement@,
{
    Patch { target, inner: InactiveState { replacement } }
}

impl<const N: usize> Patch<InactiveState<N>> {
    /// Index of the first byte of the window.
    pub closed spec fn target(&self) -> usize {
        self.target
    }

    /// The bytes that `apply` writes.
    pub closed spec fn replacement(&self) -> Seq<u8> {
        self.inner.replacement@
    }

    /// Whether the window lies inside a buffer holding `memory`.
    pub open spec fn fits(&self, memory: Seq<u8>) -> bool {
        self.target() + N <= memory.len()
    }

    /// Writes the replacement into the window and returns the active patch,
    /// which remembers the bytes that stood there. The inactive patch is used
    /// up: only the active patch that comes back can be worked with further.
    pub fn apply(self, memory: &mut [u8]) -> (active: Patch<ActiveState<N>>)
        requires
            self.fits(old(memory)@),
        ensures
            final(memory)@ == overwrite(old(memory)@, self.target() as int, self.replacement()),
            active.target() == self.target(),
            active.replacement() == self.replacement(),
            active.original() == window(old(memory)@, self.target() as int, N as int),
    {
        let target = self.target;
        let replacement = self.inner.replacement;
        let mut original = replacement;
        let mut i: usize = 0;
        proof {
            broadcast use vstd::slice::group_slice_axioms;

            assert(memory.len() == memory@.len());
        }
        while i < N
            invariant
                i <= N,
                target + N <= memory@.len() <= usize::MAX,
                memory@.len() == old(memory)@.len(),
                replacement@.len() == N,
                original@.len() == N,
                forall|j: int| 0 <= j < i ==> original@[j] == old(memory)@[target + j],
                forall|j: int|
                    0 <= j < memory@.len() ==> memory@[j] == if target <= j < target + i {
                        replacement@[j - target]
                    } else {
                        old(memory)@[j]
                    },
            decreases N - i,
        {
            original[i] = memory[target + i];
            memory[target + i] = replacement[i];
            i += 1;
        }
        assert(memory@ =~= overwrite(old(memory)@, target as int, replacement@));
        assert(original@ =~= window(old(memory)@, target as int, N as int));
        Patch { target, inner: ActiveState { replacement, original } }
    }
}

impl<const N: usize> Patch<ActiveState<N>> {
    /// Index of the first byte of the window.
    pub closed spec fn target(&self) -> usize {
        self.target
    }

    /// The bytes that the patch put into the window.
    pub closed spec fn replacement(&self) -> Seq<u8> {
        self.inner.replacement@
    }

    /// The bytes that stood in the window just before the patch was applied.
    pub closed spec fn original(&self) -> Seq<u8> {
        self.inner.original@
    }

    /// Whether the window lies inside a buffer holding `memory`.
    pub open spec fn fits(&self, memory: Seq<u8>) -> bool {
        self.target() + N <= memory.len()
    }

    /// Writes the remembered bytes back into the window and returns the
    /// inactive patch, ready to be applied again. The active patch is used
    /// up.
    pub fn rollback(self, memory: &mut [u8]) -> (inactive: Patch<InactiveState<N>>)
        requires
            self.fits(old(memory)@),
        ensures
            final(memory)@ == overwrite(old(memory)@, self.target() as int, self.original()),
            inactive.target() == self.target(),
            inactive.replacement() == self.replacement(),
    {
        let target = self.target;
        let original = self.inner.original;
        let mut i: usize = 0;
        proof {
            broadcast use vstd::slice::group_slice_axioms;

            assert(memory.len() == memory@.len());
        }
        while i < N
            invariant
                i <= N,
                target + N <= memory@.len() <= usize::MAX,
                memory@.len() == old(memory)@.len(),
                original@.len() == N,
                forall|j: int|
                    0 <= j < memory@.len() ==> memory@[j] == if target <= j < target + i {
                        original@[j - target]
                    } else {
                        old(memory)@[j]
                    },
            decreases N - i,
        {
            memory[target + i] = original[i];
            i += 1;
        }
        assert(memory@ =~= overwrite(old(memory)@, target as int, original@));
        Patch { target, inner: InactiveState { replacement: self.inner.replacement } }
    }
}

/// Rolling a patch back undoes applying it: writing `replacement` over a
/// window and then writing back the bytes that the window held before gives
/// the buffer that one started with, whatever its content and the width of
/// the window.
pub proof fn lemma_rollback_undoes_apply(memory: Seq<u8>, target: int, replacement: Seq<u8>)
    requires
        0 <= target,
        target + replacement.len() <= memory.len(),
    ensures
        overwrite(
            overwrite(memory, target, replacement),
            target,
            window(memory, target, replacement.len() as int),
        ) == memory,
{
    assert(overwrite(
        overwrite(memory, target, replacement),
        target,
        window(memory, target, replacement.len() as int),
    ) =~= memory);
}

/// Applying again after a rollback reproduces the first edit byte for byte,
/// and the bytes remembered by the second application are those remembered by
/// the first.
pub proof fn lemma_reapply_reproduces_edit(memory: Seq<u8>, target: int, replacement: Seq<u8>)
    requires
        0 <= target,
        target + replacement.len() <= memory.len(),
    ensures
        ({
            let applied = overwrite(memory, target, replacement);
            let restored = overwrite(
                applied,
                target,
                window(memory, target, replacement.len() as int),
            );
            &&& overwrite(restored, target, replacement) == applied
            &&& window(restored, target, replacement.len() as int) == window(
                memory,
                target,
                replacement.len() as int,
            )
        }),
{
    lemma_rollback_undoes_apply(memory, target, replacement);
}

/// An applied patch leaves every byte outside its window as it was and puts
/// exactly the replacement inside it.
pub proof fn lemma_apply_is_local(memory: Seq<u8>, target: int, replacement: Seq<u8>)
    requires
        0 <= target,
        target + replacement.len() <= memory.len(),
    ensures
        overwrite(memory, target, replacement).len() == memory.len(),
        window(overwrite(memory, target, replacement), target, replacement.len() as int)
            == replacement,
        forall|i: int|
            0 <= i < memory.len() && !(target <= i < target + replacement.len())
                ==> overwrite(memory, target, replacement)[i] == memory[i],
{
    assert(window(overwrite(memory, target, replacement), target, replacement.len() as int)
        =~= replacement);
}

} // verus!
