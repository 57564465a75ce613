//! A verified transport-and-framing core for a UDP status-monitoring and
//! remote-control client: the frame codec for the one-byte-tag binary wire
//! format, the transport state machine with its liveness and keep-alive
//! policy, the ordered delivery channel, per-kind traffic tallies, and the
//! consumer-side state reducer.

pub mod channel;
pub mod codec;
pub mod net;
pub mod protocol;
pub mod reducer;
pub mod sys;
pub mod tally;
pub mod text_entry;
pub mod transport;
pub mod ui;

use vstd::prelude::*;

verus! {

/// The wire tag that marks a large-category frame.
pub const LARGE_TAG: u8 = 0xD2;

/// The wire tag that marks a small-category frame.
pub const SMALL_TAG: u8 = 0xE1;

/// Whether a leading byte selects one of the two recognized frame categories.
pub fn tag_recognized(tag: u8) -> (r: bool)
    ensures
        r == (tag == LARGE_TAG || tag == SMALL_TAG),
{
    tag == LARGE_TAG || tag == SMALL_TAG
}

} // verus!
