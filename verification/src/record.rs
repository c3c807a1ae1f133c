//! The outcome of one request of a load run.

use vstd::prelude::*;

verus! {

/// Status recorded for a request that got no response at all.
pub const TRANSPORT_FAILURE: u16 = 0;

/// What became of one dispatched request.
///
/// `success` says that a response came back, whatever its status: a reply
/// with status 400 or 500 is a success here and shows only in
/// `status_code`.
#[derive(Clone, Copy, Debug, PartialEq, Eq, Structural)]
pub struct ResultRecord {
    /// Position of the request in the run, counted from zero.
    pub index: usize,
    /// HTTP status of the response, or [`TRANSPORT_FAILURE`].
    pub status_code: u16,
    /// Time from just before sending to the response or the error, in
    /// nanoseconds.
    pub latency_nanos: u64,
    /// Whether a response was received.
    pub success: bool,
}

impl ResultRecord {
    /// Whether the record keeps status [`TRANSPORT_FAILURE`] for a request
    /// that got no response: it counts as a success exactly when its status
    /// is another one.
    pub open spec fn is_consistent(self) -> bool {
        self.success == (self.status_code != TRANSPORT_FAILURE)
    }

    /// The record that `response_status` and `latency_nanos` give for request
    /// `index`.
    pub open spec fn outcome(
        index: usize,
        response_status: Option<u16>,
        latency_nanos: u64,
    ) -> ResultRecord {
        ResultRecord {
            index,
            status_code: match response_status {
                Some(code) => code,
                None => TRANSPORT_FAILURE,
            },
            latency_nanos,
            success: response_status is Some,
        }
    }

    /// Records the outcome of request `index`: the status of the response
    /// that came back, or `None` where the transport failed. No HTTP
    /// response has status 0; for every other status the record is
    /// consistent.
    pub fn from_outcome(index: usize, response_status: Option<u16>, latency_nanos: u64) -> (record:
        Self)
        ensures
            record == Self::outcome(index, response_status, latency_nanos),
            response_status != Some(TRANSPORT_FAILURE) ==> record.is_consistent(),
    {
        match response_status {
            Some(code) => ResultRecord { index, status_code: code, latency_nanos, success: true },
            None => ResultRecord {
                index,
                status_code: TRANSPORT_FAILURE,
                latency_nanos,
                success: false,
            },
        }
    }
}

} // verus!
