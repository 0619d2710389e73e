use vstd::prelude::*;
use crate::context::Context;
use crate::error::{ClientError, Error};

verus! {

/// The client-facing JSON body of an error response:
/// `{"error":{"type":"<tag>","request_uuid":"<uuid>"}}`.
pub open spec fn error_body_json(tag: Seq<char>, uuid: Seq<char>) -> Seq<char> {
    "{\"error\":{\"type\":\""@ + tag + "\",\"request_uuid\":\""@ + uuid + "\"}}"@
}

/// Build the error-response body for a client error and a request
/// correlation id.
pub fn build_error_body(client_error: &ClientError, uuid: &String) -> (r: String)
    ensures
        r@ == error_body_json(client_error.spec_tag(), uuid@),
{
    let mut r = "{\"error\":{\"type\":\"".to_owned();
    r.append(client_error.tag());
    r.append("\",\"request_uuid\":\"");
    r.append(uuid.as_str());
    r.append("\"}}");
    proof {
        assert(r@ =~= error_body_json(client_error.spec_tag(), uuid@));
    }
    r
}

/// The response a failed request is rewritten to: a status code and the
/// error body.
#[derive(Debug)]
pub struct ClientResponse {
    pub status: u16,
    pub body: String,
}

/// One structured log record, emitted once per request at the response
/// boundary.
#[derive(Debug)]
pub struct RequestLog {
    pub uuid: String,
    pub timestamp: String,
    pub user_id: Option<u64>,
    pub req_uri: String,
    pub req_method: String,
    pub client_error_type: Option<String>,
    pub error_type: Option<String>,
    pub error_data: Option<u64>,
}

/// What a correctly assembled log record holds: the correlation id and
/// timestamp as given, the caller's user id when one was resolved, the
/// request line, and the client and service error tags with the service
/// error's payload, each present exactly when the error is.
pub open spec fn log_record_ok(
    log: RequestLog,
    uuid: Seq<char>,
    timestamp: Seq<char>,
    req_method: Seq<char>,
    uri: Seq<char>,
    ctx: Option<Context>,
    service_error: Option<Error>,
    client_error: Option<ClientError>,
) -> bool {
    &&& log.uuid@ == uuid
    &&& log.timestamp@ == timestamp
    &&& log.user_id == (match ctx {
        Some(c) => Some(c.user_id),
        None => None::<u64>,
    })
    &&& log.req_uri@ == uri
    &&& log.req_method@ == req_method
    &&& (match (log.client_error_type, client_error) {
        (Some(t), Some(ce)) => t@ == ce.spec_tag(),
        (None, None) => true,
        _ => false,
    })
    &&& (match (log.error_type, service_error) {
        (Some(t), Some(e)) => t@ == e.spec_tag(),
        (None, None) => true,
        _ => false,
    })
    &&& log.error_data == (match service_error {
        Some(e) => e.spec_error_data(),
        None => None::<u64>,
    })
}

/// Assemble the per-request log record and, when a client error was derived,
/// the rewritten client response carrying the error body. When no client
/// error was derived there is nothing to answer with, reported as
/// `FailedToRequestLog`; the caller then falls back to the original response.
pub fn request(
    uuid: String,
    timestamp: String,
    req_method: String,
    uri: String,
    ctx: Option<Context>,
    service_error: Option<&Error>,
    client_status_error: Option<(u16, ClientError)>,
) -> (r: (RequestLog, Result<ClientResponse, Error>))
    ensures
        log_record_ok(
            r.0,
            uuid@,
            timestamp@,
            req_method@,
            uri@,
            ctx,
            match service_error {
                Some(e) => Some(*e),
                None => None::<Error>,
            },
            match client_status_error {
                Some(se) => Some(se.1),
                None => None::<ClientError>,
            },
        ),
        client_status_error matches Some(se) ==> (r.1 matches Ok(cr) && cr.status == se.0
            && cr.body@ == error_body_json(se.1.spec_tag(), uuid@)),
        client_status_error is None ==> r.1 == Err::<ClientResponse, Error>(
            Error::FailedToRequestLog,
        ),
{
    let client_res = match &client_status_error {
        Some((status, client_error)) => Ok(
            ClientResponse { status: *status, body: build_error_body(client_error, &uuid) },
        ),
        None => Err(Error::FailedToRequestLog),
    };
    let log = RequestLog {
        user_id: match &ctx {
            Some(c) => Some(c.user_id),
            None => None,
        },
        client_error_type: match &client_status_error {
            Some((_, client_error)) => Some(client_error.tag().to_owned()),
            None => None,
        },
        error_type: match service_error {
            Some(e) => Some(e.tag().to_owned()),
            None => None,
        },
        error_data: match service_error {
            Some(e) => e.error_data(),
            None => None,
        },
        uuid,
        timestamp,
        req_uri: uri,
        req_method,
    };
    (log, client_res)
}

/// The tail of every request: inspect the service error attached to the
/// outgoing response, if any; derive status and client error from the mapping
/// table; assemble the log record; and decide the response — the rewritten
/// error response when a service error was attached, otherwise (including
/// when log assembly had nothing to answer with) the original response,
/// signalled here as `None`.
pub fn main_response_mapper(
    uuid: String,
    timestamp: String,
    req_method: String,
    uri: String,
    ctx: Option<Context>,
    service_error: Option<&Error>,
) -> (r: (RequestLog, Option<ClientResponse>))
    ensures
        log_record_ok(
            r.0,
            uuid@,
            timestamp@,
            req_method@,
            uri@,
            ctx,
            match service_error {
                Some(e) => Some(*e),
                None => None::<Error>,
            },
            match service_error {
                Some(e) => Some(e.spec_client_status_and_error().1),
                None => None::<ClientError>,
            },
        ),
        service_error matches Some(e) ==> (r.1 matches Some(cr) && cr.status
            == e.spec_client_status_and_error().0 && cr.body@ == error_body_json(
            e.spec_client_status_and_error().1.spec_tag(),
            uuid@,
        )),
        service_error is None ==> r.1 is None,
{
    let client_status_error = match service_error {
        Some(e) => Some(e.client_status_and_error()),
        None => None,
    };
    let (log, client_res) = request(
        uuid,
        timestamp,
        req_method,
        uri,
        ctx,
        service_error,
        client_status_error,
    );
    let out = match client_res {
        Ok(client_response) => Some(client_response),
        Err(_) => None,
    };
    (log, out)
}

} // verus!
