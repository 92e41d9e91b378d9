//! The per-request log record.
//!
//! One record is built for every response, success or failure. It carries the
//! request correlation id, a millisecond timestamp, request path and method,
//! the resolved user id when a context was available, the client-facing error
//! code when one was mapped, and the full internal error's name and payload.
//! The internal detail is for logs only: it never appears in a client body.

use vstd::prelude::*;

use crate::ctx::Ctx;
use crate::error::{
    spec_client_error_name,
    spec_error_data_id,
    spec_error_name,
    ClientError,
    Error,
};

verus! {

/// One structured log line. The caller serializes and emits it; absent
/// optional fields are simply left out of the emitted record.
pub struct RequestLogLine {
    pub uuid: String,
    pub timestamp: u64,
    pub user_id: Option<u64>,
    pub req_path: String,
    pub req_method: String,
    pub client_error_type: Option<String>,
    pub error_type: Option<String>,
    pub error_data_id: Option<u64>,
}

/// Build the log record for one request: the correlation id and timestamp as
/// given, the user id of the resolved context if any, the client error code's
/// spelling if one was mapped, and the internal error's variant name together
/// with the id payload a failed delete carries.
pub fn log_request(
    uuid: String,
    timestamp: u64,
    req_method: String,
    req_path: String,
    ctx: Option<Ctx>,
    service_error: Option<&Error>,
    client_error: Option<ClientError>,
) -> (r: RequestLogLine)
    ensures
        r.uuid@ == uuid@,
        r.timestamp == timestamp,
        r.req_path@ == req_path@,
        r.req_method@ == req_method@,
        r.user_id == (match ctx {
            Some(c) => Some(c@),
            None => None::<u64>,
        }),
        client_error is None ==> r.client_error_type is None,
        client_error matches Some(ce) ==> (r.client_error_type matches Some(n) && n@
            == spec_client_error_name(ce)),
        service_error is None ==> r.error_type is None && r.error_data_id is None,
        service_error matches Some(e) ==> (r.error_type matches Some(n) && n@
            == spec_error_name(*e)) && r.error_data_id == spec_error_data_id(*e),
{
    let user_id = match &ctx {
        Some(c) => Some(c.user_id()),
        None => None,
    };
    let client_error_type = match client_error {
        Some(ce) => Some(ce.as_code()),
        None => None,
    };
    let (error_type, error_data_id) = match service_error {
        Some(e) => (Some(e.variant_name()), e.data_id()),
        None => (None, None),
    };
    RequestLogLine {
        uuid,
        timestamp,
        user_id,
        req_path,
        req_method,
        client_error_type,
        error_type,
        error_data_id,
    }
}

} // verus!
