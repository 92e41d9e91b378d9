//! The response-mapping and logging stage, run last for every request.
//!
//! Given the internal error attached to the outgoing response (if any), this
//! stage draws a fresh correlation id, decides whether the response must be
//! replaced by a sanitized client error body, and builds the one log record
//! for the request. Only the client error's code and the correlation id ever
//! reach the client; the internal error's name and payload go to the log.

use vstd::prelude::*;

use crate::ctx::Ctx;
use crate::error::{
    spec_client_error_name,
    spec_client_status_and_error,
    spec_error_data_id,
    spec_error_name,
    ClientError,
    Error,
    StatusClass,
};
use crate::log::{log_request, RequestLogLine};

verus! {

/// The sanitized body a mapped error response exposes: the client error code
/// and the request's correlation id, nothing else.
pub struct ClientErrorBody {
    pub error_type: ClientError,
    pub req_uuid: String,
}

/// What the mapping stage decided: the replacement error response, if the
/// response carried an error, and the log record to emit either way.
pub struct MappedResponse {
    pub error_response: Option<(StatusClass, ClientErrorBody)>,
    pub log_line: RequestLogLine,
}

/// Relies on uuid::Uuid::new_v4 and its Display form: the hyphenated
/// rendering of a UUID is always 36 ASCII characters.
#[verifier::external_body]
fn fresh_uuid() -> (r: String)
    ensures
        r@.len() == 36,
{
    uuid::Uuid::new_v4().to_string()
}

/// Map an outgoing response and build its log record. A fresh correlation id
/// is drawn for the request. When the response carries an internal error, the
/// result holds the sanitized replacement — the mapped status class and a body
/// exposing only the client error code and the correlation id — and the log
/// record carries the client code next to the internal error's name and
/// payload. When it carries none, no replacement is made and the error fields
/// of the log record stay empty. Exactly one log record is built either way,
/// and its correlation id is never empty.
pub fn main_response_mapper(
    service_error: Option<&Error>,
    req_method: String,
    req_path: String,
    ctx: Option<Ctx>,
    timestamp: u64,
) -> (r: MappedResponse)
    ensures
        r.log_line.uuid@.len() == 36,
        r.log_line.timestamp == timestamp,
        r.log_line.req_path@ == req_path@,
        r.log_line.req_method@ == req_method@,
        r.log_line.user_id == (match ctx {
            Some(c) => Some(c@),
            None => None::<u64>,
        }),
        service_error is None ==> {
            &&& r.error_response is None
            &&& r.log_line.client_error_type is None
            &&& r.log_line.error_type is None
            &&& r.log_line.error_data_id is None
        },
        service_error matches Some(e) ==> {
            &&& r.error_response matches Some((status, body)) && (status, body.error_type)
                == spec_client_status_and_error(*e) && body.req_uuid@ == r.log_line.uuid@
            &&& r.log_line.client_error_type matches Some(n) && n@ == spec_client_error_name(
                spec_client_status_and_error(*e).1,
            )
            &&& r.log_line.error_type matches Some(n) && n@ == spec_error_name(*e)
            &&& r.log_line.error_data_id == spec_error_data_id(*e)
        },
{
    let uuid = fresh_uuid();
    let (error_response, client_error) = match service_error {
        Some(e) => {
            let (status, client_error) = e.client_status_and_error();
            let body = ClientErrorBody { error_type: client_error, req_uuid: uuid.clone() };
            (Some((status, body)), Some(client_error))
        },
        None => (None, None),
    };
    let log_line = log_request(
        uuid,
        timestamp,
        req_method,
        req_path,
        ctx,
        service_error,
        client_error,
    );
    MappedResponse { error_response, log_line }
}

} // verus!
