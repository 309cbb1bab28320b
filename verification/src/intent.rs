//! Payload shapes of the fulfillment query intent: which devices an
//! upstream caller asks about. The transport encoding of these requests
//! belongs to the HTTP layer around the broker; here they are plain values.

use vstd::prelude::*;

verus! {

/// One device named in a query, by the identifier handed out at sync time.
#[derive(Clone, Debug, PartialEq, Eq)]
pub struct QueryPayloadDevice {
    /// Device ID, as per the ID provided in SYNC.
    pub id: String,
}

/// A query intent: the devices asked about.
#[derive(Clone, Debug, PartialEq, Eq)]
pub struct QueryPayload {
    /// List of device target and command pairs.
    pub devices: Vec<QueryPayloadDevice>,
}

} // verus!
