//! The USB side of a bulk transfer: one step per 512-byte block.

use vstd::prelude::*;

verus! {

/// Walks the blocks of a bulk transfer on the USB side. Every block is
/// taken from (or handed to) the SPI side so that side always finishes, but
/// after the first endpoint error no further block crosses the endpoint, and
/// the transfer reports that error.
pub struct BlockStream {
    remaining: u16,
    failed: bool,
}

impl View for BlockStream {
    /// Blocks left, and whether an endpoint error has occurred.
    type V = (u16, bool);

    closed spec fn view(&self) -> (u16, bool) {
        (self.remaining, self.failed)
    }
}

impl BlockStream {
    pub fn new(block_count: u16) -> (r: Self)
        ensures
            r@ == (block_count, false),
    {
        BlockStream { remaining: block_count, failed: false }
    }

    /// The next block: `None` once every block has been stepped through;
    /// otherwise `Some(transfer)`, where `transfer` says whether the block
    /// still crosses the endpoint (no error so far).
    pub fn next(&mut self) -> (r: Option<bool>)
        ensures
            old(self)@.0 == 0 ==> r is None && final(self)@ == old(self)@,
            old(self)@.0 > 0 ==> r == Some(!old(self)@.1) && final(self)@ == (
                (old(self)@.0 - 1) as u16,
                old(self)@.1,
            ),
    {
        if self.remaining == 0 {
            return None;
        }
        self.remaining = self.remaining - 1;
        Some(!self.failed)
    }

    /// The endpoint failed on the current block.
    pub fn record_error(&mut self)
        ensures
            final(self)@ == (old(self)@.0, true),
    {
        self.failed = true;
    }

    /// Whether the transfer has failed.
    pub fn failed(&self) -> (r: bool)
        ensures
            r == self@.1,
    {
        self.failed
    }
}

} // verus!
