//! Renewal of the session before it runs out.

use vstd::prelude::*;
use crate::biz::refresh_payload;
use crate::control::ControlBlock;
use crate::error::Operation;
use crate::req::Payload;

verus! {

/// A session with less than this many seconds left is renewed: twelve hours.
pub const REFRESH_THRESHOLD: i64 = 43200;

/// Whether a session that expires at `exp` is due for renewal at `now`.
pub open spec fn refresh_due(exp: int, now: int) -> bool {
    exp - now < REFRESH_THRESHOLD
}

/// Whether the session is due for renewal at `now`, in seconds since the
/// epoch. A session that has run out is due as well.
pub fn needs_refresh(block: &ControlBlock, now: i64) -> (due: bool)
    ensures
        due == refresh_due(block.exp as int, now as int),
{
    (block.exp as i128) - (now as i128) < REFRESH_THRESHOLD as i128
}

/// Calls `chrono::Utc::now` and takes its `timestamp`.
///
/// Trusted: nothing. The seconds since the epoch are whatever the clock says,
/// and two calls differ.
#[verifier::external_body]
fn current_time() -> (now: i64) {
    chrono::Utc::now().timestamp()
}

/// The request to send before the session is used at `now`: a renewal if the
/// session is due for one, nothing otherwise.
pub fn refresh_request(block: &ControlBlock, now: i64) -> (request: Option<Payload<u32>>)
    ensures
        request is Some == refresh_due(block.exp as int, now as int),
        request matches Some(payload) ==> payload.method@ == Operation::Refresh.method_text()
            && payload.block == Some(*block) && payload.content is None,
{
    if needs_refresh(block, now) {
        Some(refresh_payload(block))
    } else {
        None
    }
}

/// The request to send before the session is used now, by the clock of this
/// machine: a renewal if the session is due for one, nothing otherwise.
pub fn refresh_if_needed(block: &ControlBlock) -> (request: Option<Payload<u32>>)
    ensures
        exists|now: i64| request is Some == #[trigger] refresh_due(block.exp as int, now as int),
        request matches Some(payload) ==> payload.method@ == Operation::Refresh.method_text()
            && payload.block == Some(*block) && payload.content is None,
{
    refresh_request(block, current_time())
}

} // verus!
