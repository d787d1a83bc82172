//! Notes.

use vstd::prelude::*;

verus! {

/// A commitment to a note, in its 32-byte encoding.
#[derive(Clone, Copy, Debug, PartialEq, Eq)]
pub struct Commitment {
    pub inner: [u8; 32],
}

} // verus!
