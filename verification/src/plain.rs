//! The plain meaning of instants, samples and bytes, which laws speak of.

use crate::time::Timestamp;
use vstd::prelude::*;

verus! {

/// Nanoseconds since the Unix epoch.
pub open spec fn nanos(t: Timestamp) -> int {
    t.secs * 1_000_000_000 + t.nanos
}

/// Whole milliseconds since the Unix epoch.
pub open spec fn millis(t: Timestamp) -> int {
    nanos(t) / 1_000_000
}

/// Sample `i` of bytes that hold signed 16-bit samples, the low byte first.
pub open spec fn value_at(bytes: Seq<u8>, i: int) -> int {
    let w = bytes[2 * i] + 256 * bytes[2 * i + 1];
    if w < 32768 {
        w
    } else {
        w - 65536
    }
}

/// The sample that comes nearest to `n`.
pub open spec fn clip(n: int) -> int {
    if n > 32767 {
        32767
    } else if n < -32768 {
        -32768
    } else {
        n
    }
}

/// The larger one.
pub open spec fn larger(a: int, b: int) -> int {
    if a > b {
        a
    } else {
        b
    }
}

/// The smaller one.
pub open spec fn smaller(a: int, b: int) -> int {
    if a < b {
        a
    } else {
        b
    }
}

} // verus!
