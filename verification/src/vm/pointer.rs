//! The pointer of the machine: the index of a cell on the tape.

use vstd::prelude::*;

verus! {

/// An index into the tape, or a length of it.
pub type MemoryRange = usize;

/// The length of a tape unless another is chosen.
pub fn default_range() -> (range: MemoryRange)
    ensures
        range == 0xFFFF,
{
    0xFFFF
}

/// Where a pointer at `pointer` stands after a step to the right on a tape
/// of length `highest`: one further, or, where that is the end of the tape,
/// at the start if the pointer wraps, and at the end if it does not.
pub open spec fn advanced(pointer: int, highest: int, wrap: bool) -> int {
    if pointer + 1 >= highest {
        if wrap {
            0
        } else {
            highest
        }
    } else {
        pointer + 1
    }
}

/// Where a pointer at `pointer` stands after a step to the left on a tape of
/// length `highest`: one back, or, where it is at the start or beyond the
/// end, on the last cell.
pub open spec fn retreated(pointer: int, highest: int) -> int {
    if pointer <= 0 || pointer >= highest {
        highest - 1
    } else {
        pointer - 1
    }
}

/// The pointer of the machine.
#[derive(Clone, Copy, Debug, Eq, Ord, PartialEq, PartialOrd)]
pub struct MemoryPointer {
    pointer: MemoryRange,
}

impl MemoryPointer {
    /// The index that the pointer holds.
    pub closed spec fn spec_pointer(&self) -> MemoryRange {
        self.pointer
    }

    /// A pointer to the first cell.
    pub fn new() -> (pointer: Self)
        ensures
            pointer.pointer() == 0,
    {
        Self { pointer: 0 }
    }

    /// The index that the pointer holds.
    #[verifier::when_used_as_spec(spec_pointer)]
    pub fn pointer(&self) -> (index: MemoryRange)
        ensures
            index == self.pointer(),
    {
        self.pointer
    }

    /// The place where the pointer keeps its index.
    fn pointer_mut(&mut self) -> (index: &mut MemoryRange)
        ensures
            *index == old(self).pointer(),
            final(self).pointer() == *final(index),
    {
        &mut self.pointer
    }

    /// Steps to the right on a tape of length `highest`. Where the step
    /// reaches the end of the tape, a pointer that wraps goes to the first
    /// cell; one that does not stays at `highest` and the answer is `true`:
    /// the tape has to grow by one cell. In every other case the answer is
    /// `false`.
    pub fn increment(&mut self, highest: MemoryRange, wrap: bool) -> (grow: bool)
        ensures
            final(self).pointer() == advanced(old(self).pointer() as int, highest as int, wrap),
            grow == (old(self).pointer() + 1 >= highest && !wrap),
    {
        if self.pointer() >= highest || self.pointer() + 1 >= highest {
            if wrap {
                *self.pointer_mut() = 0;
            } else {
                *self.pointer_mut() = highest;
                return true;
            }
        } else {
            *self.pointer_mut() += 1;
        }
        false
    }

    /// Steps to the left on a tape of length `highest`, which is not zero.
    /// A pointer at the first cell, or beyond the end of the tape, goes to
    /// the last cell.
    pub fn decrement(&mut self, highest: MemoryRange)
        requires
            highest > 0,
        ensures
            final(self).pointer() == retreated(old(self).pointer() as int, highest as int),
    {
        let pointer = self.pointer();
        if pointer <= 0 || pointer >= highest {
            *self.pointer_mut() = highest - 1;
        } else {
            *self.pointer_mut() -= 1;
        }
    }

    /// Goes to the first cell.
    pub fn to_zero(&mut self)
        ensures
            final(self).pointer() == 0,
    {
        *self.pointer_mut() = 0;
    }
}

impl Default for MemoryPointer {
    /// A pointer to the first cell.
    fn default() -> (pointer: Self)
        ensures
            pointer.pointer() == 0,
    {
        Self::new()
    }
}

} // verus!
