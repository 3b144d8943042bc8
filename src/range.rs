//! Byte ranges of a media file served in parts.
use vstd::prelude::*;

verus! {

/// One end of a requested byte range.
#[derive(Debug, Clone, Copy, PartialEq, Eq, Structural)]
pub enum RangeBound {
    Included(u64),
    Excluded(u64),
    Unbounded,
}

/// The first byte a start bound asks for, if it names one.
pub open spec fn first_byte(start: RangeBound) -> Option<int> {
    match start {
        RangeBound::Included(n) => Some(n as int),
        RangeBound::Excluded(n) => if n < u64::MAX {
            Some(n + 1)
        } else {
            None
        },
        RangeBound::Unbounded => Some(0),
    }
}

/// The last byte an end bound asks for in a file of `len` bytes; an
/// exclusive or open end at zero stays at zero.
pub open spec fn last_byte(end: RangeBound, len: u64) -> int {
    match end {
        RangeBound::Included(n) => n as int,
        RangeBound::Excluded(n) => if n > 0 {
            n - 1
        } else {
            0
        },
        RangeBound::Unbounded => if len > 0 {
            len - 1
        } else {
            0
        },
    }
}

/// The bytes `first..=last` to send for a range request on a file of `len`
/// bytes, or `None` where the range cannot be satisfied: it starts or ends
/// past the file, or ends before it starts.
pub fn satisfiable_range(start: RangeBound, end: RangeBound, len: u64) -> (r: Option<(u64, u64)>)
    ensures
        match r {
            Some((first, last)) => {
                &&& first_byte(start) == Some(first as int)
                &&& last == last_byte(end, len)
                &&& first <= last < len
            },
            None => match first_byte(start) {
                Some(first) => first >= len || last_byte(end, len) >= len || first > last_byte(
                    end,
                    len,
                ),
                None => true,
            },
        },
{
    let first: u64 = match start {
        RangeBound::Included(n) => n,
        RangeBound::Excluded(n) => {
            if n == u64::MAX {
                return None;
            }
            n + 1
        },
        RangeBound::Unbounded => 0,
    };
    let last: u64 = match end {
        RangeBound::Included(n) => n,
        RangeBound::Excluded(n) => n.saturating_sub(1),
        RangeBound::Unbounded => len.saturating_sub(1),
    };
    if first >= len || last >= len || first > last {
        return None;
    }
    Some((first, last))
}

} // verus!
