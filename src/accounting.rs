//! The byte budget of the cache: how many payload bytes are held, and how
//! many may be held before the sweeper starts evicting.
use vstd::prelude::*;

verus! {

/// The smallest budget that can be set: 1 MiB.
pub const MIN_CACHE_BYTES: u64 = 1024 * 1024;

/// The budget of a new cache: 4 GiB.
pub const DEFAULT_MAX_CACHE_BYTES: u64 = 4 * 1024 * 1024 * 1024;

/// Current and maximum number of cached payload bytes.
pub struct CacheAccounting {
    current_bytes: u64,
    max_bytes: u64,
}

/// `a - b`, or zero where `b` is larger.
pub open spec fn saturating_sub(a: int, b: int) -> int {
    if a >= b {
        a - b
    } else {
        0
    }
}

/// `a + b`, or `u64::MAX` where the sum is larger.
pub open spec fn saturating_add(a: int, b: int) -> int {
    if a + b <= u64::MAX {
        a + b
    } else {
        u64::MAX as int
    }
}

impl CacheAccounting {
    /// Bytes currently accounted for.
    pub closed spec fn current(&self) -> nat {
        self.current_bytes as nat
    }

    /// The budget.
    pub closed spec fn max(&self) -> nat {
        self.max_bytes as nat
    }

    /// The budget is never below its floor.
    pub closed spec fn wf(&self) -> bool {
        self.max_bytes >= MIN_CACHE_BYTES
    }

    /// Nothing held, and the default budget.
    pub fn new() -> (r: Self)
        ensures
            r.wf(),
            r.current() == 0,
            r.max() == DEFAULT_MAX_CACHE_BYTES,
    {
        CacheAccounting { current_bytes: 0, max_bytes: DEFAULT_MAX_CACHE_BYTES }
    }

    /// Whether the cache holds at least as many bytes as its budget.
    pub fn over_budget(&self) -> (r: bool)
        ensures
            r == (self.current() >= self.max()),
    {
        self.current_bytes >= self.max_bytes
    }

    /// Counts `n` more bytes as held.
    pub fn add(&mut self, n: usize)
        ensures
            final(self).current() == saturating_add(
                old(self).current() as int, n as int),
            final(self).max() == old(self).max(),
            old(self).wf() ==> final(self).wf(),
    {
        self.current_bytes = self.current_bytes.saturating_add(n as u64);
    }

    /// Counts `n` bytes as released.
    pub fn release(&mut self, n: usize)
        ensures
            final(self).current() == saturating_sub(
                old(self).current() as int, n as int),
            final(self).max() == old(self).max(),
            old(self).wf() ==> final(self).wf(),
    {
        self.current_bytes = self.current_bytes.saturating_sub(n as u64);
    }

    /// Forgets every held byte; the budget stays.
    pub fn reset(&mut self)
        ensures
            final(self).current() == 0,
            final(self).max() == old(self).max(),
            old(self).wf() ==> final(self).wf(),
    {
        self.current_bytes = 0;
    }
}

/// Sets the budget to `bytes`, raised to 1 MiB where it is smaller.
pub fn set_max_cache_size(accounting: &mut CacheAccounting, bytes: u64)
    ensures
        final(accounting).max() == (if bytes >= MIN_CACHE_BYTES {
            bytes as int
        } else {
            MIN_CACHE_BYTES as int
        }),
        final(accounting).current() == old(accounting).current(),
        final(accounting).wf(),
{
    accounting.max_bytes = if bytes >= MIN_CACHE_BYTES {
        bytes
    } else {
        MIN_CACHE_BYTES
    };
}

/// The budget for a request of `gib` gibibytes, kept between 1 and 128 GiB.
pub fn budget_from_gib(gib: u64) -> (r: u64)
    ensures
        r == (if gib < 1 {
            1
        } else if gib > 128 {
            128
        } else {
            gib as int
        }) * (1024 * 1024 * 1024),
{
    let clamped: u64 = if gib < 1 {
        1
    } else if gib > 128 {
        128
    } else {
        gib
    };
    clamped * (1024 * 1024 * 1024)
}

/// The bytes held and the budget, in that order.
pub fn get_cache_usage(accounting: &CacheAccounting) -> (r: (u64, u64))
    ensures
        r.0 == accounting.current(),
        r.1 == accounting.max(),
{
    (accounting.current_bytes, accounting.max_bytes)
}

} // verus!
