//! Checks on the answers of the AI worker process.

use vstd::prelude::*;
use crate::text::str_eq;

verus! {

pub const PROTOCOL_VERSION: u32 = 1;

/// Why an answer of the worker is refused.
#[derive(Debug, Clone, Copy, PartialEq, Eq, Structural)]
pub enum ProtocolMismatch {
    /// The answer belongs to another request.
    RequestId,
    /// The worker speaks another protocol version.
    Version,
}

impl ProtocolMismatch {
    pub open spec fn message_text(self) -> Seq<char> {
        match self {
            ProtocolMismatch::RequestId => "request_id mismatch"@,
            ProtocolMismatch::Version => "protocol version mismatch"@,
        }
    }

    pub fn message(&self) -> (m: String)
        ensures
            m@ == self.message_text(),
    {
        match self {
            ProtocolMismatch::RequestId => "request_id mismatch".to_owned(),
            ProtocolMismatch::Version => "protocol version mismatch".to_owned(),
        }
    }
}

/// An answer is accepted only for the request that was sent and only in
/// this protocol version; the request id is checked first.
pub fn check_response(sent_id: &str, answered_id: &str, protocol_version: u32) -> (r: Result<
    (),
    ProtocolMismatch,
>)
    ensures
        r == if sent_id@ != answered_id@ {
            Err::<(), ProtocolMismatch>(ProtocolMismatch::RequestId)
        } else if protocol_version != PROTOCOL_VERSION {
            Err::<(), ProtocolMismatch>(ProtocolMismatch::Version)
        } else {
            Ok::<(), ProtocolMismatch>(())
        },
{
    if !str_eq(sent_id, answered_id) {
        return Err(ProtocolMismatch::RequestId);
    }
    if protocol_version != PROTOCOL_VERSION {
        return Err(ProtocolMismatch::Version);
    }
    Ok(())
}

} // verus!
