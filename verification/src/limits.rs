//! How long a list may be.

use vstd::prelude::*;

verus! {

/// The longest list this crate builds. At 64 bytes for an entry such a list
/// stays within `isize::MAX` bytes, also while it grows.
pub const LIST_LIMIT: usize = usize::MAX / 128;

/// Whether a list of `count` entries can be held.
pub open spec fn listable(count: int) -> bool {
    0 <= count <= LIST_LIMIT
}

} // verus!
