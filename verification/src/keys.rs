//! Viewing keys.

use vstd::prelude::*;

verus! {

/// The key with which a sender can later open what it has sent.
#[derive(Clone, Copy, Debug, PartialEq, Eq)]
pub struct OutgoingViewingKey {
    pub inner: [u8; 32],
}

} // verus!
