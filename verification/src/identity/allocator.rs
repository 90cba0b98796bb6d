//! Monotonic allocation of non-zero 64-bit identities.

use vstd::prelude::*;

verus! {

#[derive(Debug, Clone, Copy, PartialEq, Eq, Structural)]
pub enum IdentityAllocationError {
    Zero,
    Exhausted,
}

/// Hands out strictly increasing non-zero values; `None` once `u64::MAX` was handed out.
#[derive(Debug, Clone, Copy, PartialEq, Eq, Structural)]
pub struct MonotonicNonZeroU64Allocator {
    next: Option<u64>,
}

impl MonotonicNonZeroU64Allocator {
    /// The next value to hand out, or `None` when exhausted.
    pub closed spec fn next_value(self) -> Option<u64> {
        self.next
    }

    /// The next value is never zero.
    pub open spec fn wf(self) -> bool {
        self.next_value() matches Some(n) ==> n != 0
    }

    pub fn from_next_raw(raw: u64) -> (r: Result<Self, IdentityAllocationError>)
        ensures
            raw == 0 ==> r == Err::<Self, IdentityAllocationError>(IdentityAllocationError::Zero),
            raw != 0 ==> (r matches Ok(a) && a.wf() && a.next_value() == Some(raw)),
    {
        if raw == 0 {
            return Err(IdentityAllocationError::Zero);
        }
        Ok(MonotonicNonZeroU64Allocator { next: Some(raw) })
    }

    pub fn peek(&self) -> (r: Result<u64, IdentityAllocationError>)
        ensures
            match self.next_value() {
                Some(n) => r == Ok::<u64, IdentityAllocationError>(n),
                None => r == Err::<u64, IdentityAllocationError>(IdentityAllocationError::Exhausted),
            },
    {
        match self.next {
            Some(n) => Ok(n),
            None => Err(IdentityAllocationError::Exhausted),
        }
    }

    /// Hands out the next value; after `u64::MAX` the allocator is exhausted.
    pub fn allocate(&mut self) -> (r: Result<u64, IdentityAllocationError>)
        requires
            old(self).wf(),
        ensures
            final(self).wf(),
            match old(self).next_value() {
                Some(n) => {
                    &&& r == Ok::<u64, IdentityAllocationError>(n)
                    &&& n != 0
                    &&& final(self).next_value() == if n == u64::MAX { None } else { Some((n + 1) as u64) }
                },
                None => {
                    &&& r == Err::<u64, IdentityAllocationError>(IdentityAllocationError::Exhausted)
                    &&& final(self).next_value() is None
                },
            },
    {
        let current = match self.peek() {
            Err(e) => return Err(e),
            Ok(n) => n,
        };
        self.next = current.checked_add(1);
        Ok(current)
    }

    /// Makes sure `value` is never handed out: the next value moves past it when it is not
    /// already below.
    pub fn reserve(&mut self, value: u64)
        requires
            old(self).wf(),
            value != 0,
        ensures
            final(self).wf(),
            match old(self).next_value() {
                None => final(self).next_value() is None,
                Some(n) => if value < n {
                    final(self).next_value() == Some(n)
                } else if value == u64::MAX {
                    final(self).next_value() is None
                } else {
                    final(self).next_value() == Some((value + 1) as u64)
                },
            },
    {
        let next = match self.next {
            None => return,
            Some(n) => n,
        };
        if value < next {
            return;
        }
        self.next = value.checked_add(1);
    }
}

/// Values handed out by successive allocations strictly increase, and none is zero.
pub proof fn lemma_allocations_increase(
    a0: MonotonicNonZeroU64Allocator,
    a1: MonotonicNonZeroU64Allocator,
    first: u64,
    second: u64,
)
    requires
        a0.wf(),
        a0.next_value() == Some(first),
        a1.next_value() == if first == u64::MAX { None } else { Some((first + 1) as u64) },
        a1.next_value() == Some(second),
    ensures
        first != 0,
        first < second,
{
}

} // verus!
