//! The capacity bound on concurrently running tasks.

use vstd::prelude::*;

verus! {

/// Soft-limit value by which the operating system reports that no limit is set.
pub const NO_LIMIT: u64 = 0xffff_ffff_ffff_ffff;

/// Descriptors kept back for standard streams, logging and name resolution.
pub const FD_RESERVE: usize = 100;

/// Upper bound on the number of tasks that may be in flight at once.
#[derive(Clone, Copy, Debug, PartialEq, Eq, Structural)]
pub enum Boundary {
    Limited(usize),
    Unlimited,
}

impl Boundary {
    /// The bound that a soft descriptor limit stands for.
    pub open spec fn of_soft_limit(soft: u64) -> Boundary {
        if soft == NO_LIMIT {
            Boundary::Unlimited
        } else if soft > usize::MAX {
            Boundary::Limited(usize::MAX)
        } else {
            Boundary::Limited(soft as usize)
        }
    }

    /// The bound that remains once `reserve` slots are set aside.
    pub open spec fn less(self, reserve: usize) -> Boundary {
        match self {
            Boundary::Limited(n) => Boundary::Limited((n - reserve) as usize),
            Boundary::Unlimited => Boundary::Unlimited,
        }
    }

    /// Turns the soft descriptor limit of the process into a bound:
    /// [`NO_LIMIT`] is unbounded, any other value is that many slots,
    /// capped at what a `usize` can hold.
    pub fn from_soft_limit(soft: u64) -> (b: Boundary)
        ensures
            b == Boundary::of_soft_limit(soft),
    {
        if soft == NO_LIMIT {
            Boundary::Unlimited
        } else if soft > usize::MAX as u64 {
            Boundary::Limited(usize::MAX)
        } else {
            Boundary::Limited(soft as usize)
        }
    }

    /// Sets `reserve` slots aside. An unbounded capacity stays unbounded.
    pub fn reserve(self, reserve: usize) -> (b: Boundary)
        requires
            self matches Boundary::Limited(n) ==> n >= reserve,
        ensures
            b == self.less(reserve),
    {
        match self {
            Boundary::Limited(n) => Boundary::Limited(n - reserve),
            Boundary::Unlimited => Boundary::Unlimited,
        }
    }

    /// The number of slots, if there is a bound.
    pub fn limit(&self) -> (l: Option<usize>)
        ensures
            l == match *self {
                Boundary::Limited(n) => Some(n),
                Boundary::Unlimited => None,
            },
    {
        match *self {
            Boundary::Limited(n) => Some(n),
            Boundary::Unlimited => None,
        }
    }
}

} // verus!
