//! The rules of the `/wagmi` endpoint: which kind of request a body is and
//! which reply it earns.
//!
//! Operands arrive as JSON numbers, which the caller reads as binary
//! floating point. The comparisons on them are made by the caller; this
//! module decides on their outcomes.

use vstd::prelude::*;

verus! {

/// Largest sum that an addition request may ask for.
pub const SUM_LIMIT: u32 = 100;

/// Status of a reply that carries a result.
pub const STATUS_OK: u16 = 200;

/// Status of the reply to a request that breaks the endpoint's rules.
pub const STATUS_BAD_REQUEST: u16 = 400;

/// The `message` of a ping reply.
pub const PING_MESSAGE: &'static str = "wagmi";

/// The `lang` of a ping reply.
pub const PING_LANGUAGE: &'static str = "Rust";

/// The `status` of a reply that carries a sum.
pub const SUM_STATUS: &'static str = "success";

/// The `error` of a refusal.
pub const INVALID_INPUT: &'static str = "Invalid input";

/// What a request body says about one of its two operands.
#[derive(Clone, Copy, Debug, PartialEq, Eq, Structural)]
pub enum Operand {
    /// The field is missing or `null`.
    Absent,
    /// The field holds something that is not a number.
    NotNumeric,
    /// The field holds a number below zero.
    Negative,
    /// The field holds a number that is zero or more.
    NonNegative,
}

/// The reply that the endpoint gives.
#[derive(Clone, Copy, Debug, PartialEq, Eq, Structural)]
pub enum Reply {
    /// Liveness answer with the cached timestamp.
    Ping,
    /// The sum of the two operands.
    Sum,
    /// The request is refused.
    InvalidInput,
}

/// The reply owed to a request: a ping when both operands are absent, the
/// sum when both are numbers of zero or more that add up to at most
/// [`SUM_LIMIT`], a refusal in every other case.
pub open spec fn reply_for(a: Operand, b: Operand, sum_within_limit: bool) -> Reply {
    if a is Absent && b is Absent {
        Reply::Ping
    } else if a is NonNegative && b is NonNegative && sum_within_limit {
        Reply::Sum
    } else {
        Reply::InvalidInput
    }
}

/// The HTTP status that goes with a reply.
pub open spec fn status_for(reply: Reply) -> u16 {
    match reply {
        Reply::Ping => STATUS_OK,
        Reply::Sum => STATUS_OK,
        Reply::InvalidInput => STATUS_BAD_REQUEST,
    }
}

/// Decides the reply to a request from what is known of its operands.
/// `sum_within_limit` says whether the two operands add up to at most
/// [`SUM_LIMIT`]; it is read only when both operands are numbers of zero or
/// more.
pub fn classify(a: Operand, b: Operand, sum_within_limit: bool) -> (reply: Reply)
    ensures
        reply == reply_for(a, b, sum_within_limit),
{
    match (a, b) {
        (Operand::Absent, Operand::Absent) => Reply::Ping,
        (Operand::NonNegative, Operand::NonNegative) => {
            if sum_within_limit {
                Reply::Sum
            } else {
                Reply::InvalidInput
            }
        },
        _ => Reply::InvalidInput,
    }
}

/// The HTTP status of a reply: 200 for a ping and for a sum, 400 for a
/// refusal.
pub fn status_code(reply: Reply) -> (status: u16)
    ensures
        status == status_for(reply),
{
    match reply {
        Reply::Ping => STATUS_OK,
        Reply::Sum => STATUS_OK,
        Reply::InvalidInput => STATUS_BAD_REQUEST,
    }
}

} // verus!
