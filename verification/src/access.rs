//! Who may touch a body's acceleration accumulator.
//!
//! While a pair of bodies interacts, both are read and each accumulator is
//! written. Reading an accumulator while a contribution is being added to
//! it, or adding while it is read or while another contribution is being
//! added, is an ordering mistake of the caller. `Access` keeps the count
//! that detects it; the accumulator's value lives with the caller.

use vstd::prelude::*;

verus! {

/// An accumulator was asked for while a conflicting access to it was
/// outstanding. The step in progress cannot go on.
#[derive(Clone, Copy, Debug, PartialEq, Eq, Structural)]
pub struct AccessConflict;

/// The accesses outstanding on one accumulator.
#[derive(Clone, Copy, Debug, PartialEq, Eq, Structural)]
pub enum Access {
    /// Nobody holds the accumulator.
    Free,
    /// The accumulator is being read, by this many readers.
    Shared(usize),
    /// A contribution is being added to the accumulator.
    Exclusive,
}

impl Access {
    /// A count of readers is never zero: with no reader left the
    /// accumulator is `Free`. Every operation leaves the state so.
    pub open spec fn wf(self) -> bool {
        self matches Access::Shared(n) ==> n > 0
    }

    /// The number of readers that hold the accumulator.
    pub open spec fn readers(self) -> nat {
        match self {
            Access::Shared(n) => n as nat,
            _ => 0,
        }
    }

    /// Whether a contribution is being added.
    pub open spec fn writing(self) -> bool {
        self is Exclusive
    }

    /// Whether one more reader can be let in: nothing is being added, and
    /// the count of readers has room.
    pub open spec fn admits_reader(self) -> bool {
        !self.writing() && self.readers() < usize::MAX
    }

    /// Whether a writer can be let in: nobody holds the accumulator.
    pub open spec fn admits_writer(self) -> bool {
        !self.writing() && self.readers() == 0
    }

    /// The state with `count` readers and no writer.
    pub open spec fn of_readers(count: nat) -> Access {
        if count == 0 {
            Access::Free
        } else {
            Access::Shared(count as usize)
        }
    }

    /// An accumulator that nobody holds.
    pub fn new() -> (access: Access)
        ensures
            access == Access::Free,
            access.wf(),
    {
        Access::Free
    }

    /// Lets a reader in, unless a contribution is being added or the count
    /// of readers is exhausted. On a conflict nothing changes.
    pub fn begin_read(&mut self) -> (outcome: Result<(), AccessConflict>)
        ensures
            final(self).wf(),
            match outcome {
                Ok(_) => old(self).admits_reader() && *final(self) == Access::of_readers(
                    old(self).readers() + 1,
                ),
                Err(_) => !old(self).admits_reader() && *final(self) == *old(self),
            },
    {
        match *self {
            Access::Free => {
                *self = Access::Shared(1);
                Ok(())
            },
            Access::Shared(n) => {
                if n < usize::MAX {
                    *self = Access::Shared(n + 1);
                    Ok(())
                } else {
                    Err(AccessConflict)
                }
            },
            Access::Exclusive => Err(AccessConflict),
        }
    }

    /// Lets a reader out.
    pub fn end_read(&mut self)
        requires
            old(self).readers() > 0,
        ensures
            final(self).wf(),
            *final(self) == Access::of_readers((old(self).readers() - 1) as nat),
    {
        match *self {
            Access::Shared(n) => {
                if n > 1 {
                    *self = Access::Shared(n - 1);
                } else {
                    *self = Access::Free;
                }
            },
            _ => {},
        }
    }

    /// Lets the writer in, unless anybody holds the accumulator. On a
    /// conflict nothing changes.
    pub fn begin_write(&mut self) -> (outcome: Result<(), AccessConflict>)
        ensures
            final(self).wf(),
            match outcome {
                Ok(_) => old(self).admits_writer() && *final(self) == Access::Exclusive,
                Err(_) => !old(self).admits_writer() && *final(self) == *old(self),
            },
    {
        match *self {
            Access::Free | Access::Shared(0) => {
                *self = Access::Exclusive;
                Ok(())
            },
            _ => Err(AccessConflict),
        }
    }

    /// Lets the writer out.
    pub fn end_write(&mut self)
        requires
            old(self).writing(),
        ensures
            *final(self) == Access::Free,
            final(self).wf(),
    {
        *self = Access::Free;
    }
}

impl Default for Access {
    fn default() -> (access: Access)
        ensures
            access == Access::Free,
    {
        Access::Free
    }
}

} // verus!
