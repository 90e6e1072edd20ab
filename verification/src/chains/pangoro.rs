//! The Pangoro side of the Pangoro <> Pangolin message bridge: the
//! arithmetic that sizes its message deliveries.
use vstd::prelude::*;

verus! {

/// Name of the source chain of the message lane.
pub const SOURCE_NAME: &'static str = "pangoro";

/// Name of the target chain of the message lane.
pub const TARGET_NAME: &'static str = "pangolin";

/// The number of messages in a delivery of the nonces
/// `nonces_start..=nonces_end`, as the delivery call carries it (in 32 bits).
pub fn delivery_messages_count(nonces_start: u64, nonces_end: u64) -> (count: u32)
    requires
        nonces_start <= nonces_end,
        nonces_end - nonces_start < u64::MAX,
    ensures
        count == (nonces_end - nonces_start + 1) as u32,
        nonces_end - nonces_start < u32::MAX ==> count == nonces_end - nonces_start + 1,
{
    let messages_count: u64 = nonces_end - nonces_start + 1;
    messages_count as u32
}

/// Runs the Pangoro -> Pangolin messages relay.
pub struct PangoroMessagesToPangolinRunner;

impl PangoroMessagesToPangolinRunner {
    /// The largest size of the messages in one delivery: a third of the
    /// largest extrinsic, since two thirds are kept for proofs and
    /// transaction overhead.
    pub fn max_messages_size_in_single_batch(max_extrinsic_size: u32) -> (size: u32)
        ensures
            size == max_extrinsic_size / 3,
            3 * size <= max_extrinsic_size,
            max_extrinsic_size - 3 * size < 3,
    {
        max_extrinsic_size / 3
    }

    /// Seconds without progress after which the relay loop counts as stalled.
    pub fn stall_timeout_secs() -> (secs: u64)
        ensures
            secs == 5 * 60,
    {
        5 * 60
    }
}

} // verus!
