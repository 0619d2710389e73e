use learn_rust_web_server::context::Context;
use learn_rust_web_server::error::{ClientError, Error};
use learn_rust_web_server::hello::{hello_path_greeting, hello_query_greeting};
use learn_rust_web_server::log::{main_response_mapper, request};

#[test]
fn mapping_table_is_exact() {
    assert_eq!(
        Error::LoginFailed.client_status_and_error(),
        (403, ClientError::LOGIN_FAIL)
    );
    assert_eq!(
        Error::AuthFailedEmptyTokenCookie.client_status_and_error(),
        (401, ClientError::NO_AUTH)
    );
    assert_eq!(
        Error::AuthFailedEmptyCookie.client_status_and_error(),
        (401, ClientError::NO_AUTH)
    );
    assert_eq!(
        Error::AuthFailedInvalidUserIdTokenType.client_status_and_error(),
        (401, ClientError::NO_AUTH)
    );
    assert_eq!(
        Error::DeleteTicketFailed { id: 3 }.client_status_and_error(),
        (400, ClientError::SERVICE_ERROR)
    );
    assert_eq!(
        Error::FailedToRequestLog.client_status_and_error(),
        (500, ClientError::SERVICE_ERROR)
    );
}

#[test]
fn error_tags_match_variant_names() {
    assert_eq!(Error::LoginFailed.tag(), "LoginFailed");
    assert_eq!(Error::DeleteTicketFailed { id: 1 }.tag(), "DeleteTicketFailed");
    assert_eq!(ClientError::LOGIN_FAIL.tag(), "LOGIN_FAIL");
    assert_eq!(ClientError::NO_AUTH.tag(), "NO_AUTH");
    assert_eq!(ClientError::INVALID_PARAMS.tag(), "INVALID_PARAMS");
    assert_eq!(ClientError::SERVICE_ERROR.tag(), "SERVICE_ERROR");
}

#[test]
fn delete_failure_maps_to_400_with_service_error_body() {
    let error = Error::DeleteTicketFailed { id: 7 };
    let (log, rewritten) = main_response_mapper(
        "11111111-2222-3333-4444-555555555555".to_string(),
        "1700000000000".to_string(),
        "DELETE".to_string(),
        "/api/tickets/7".to_string(),
        Some(Context::new(1)),
        Some(&error),
    );
    let response = rewritten.unwrap();
    assert_eq!(response.status, 400);
    assert_eq!(
        response.body,
        "{\"error\":{\"type\":\"SERVICE_ERROR\",\"request_uuid\":\"11111111-2222-3333-4444-555555555555\"}}"
    );
    assert_eq!(log.uuid, "11111111-2222-3333-4444-555555555555");
    assert_eq!(log.timestamp, "1700000000000");
    assert_eq!(log.user_id, Some(1));
    assert_eq!(log.req_method, "DELETE");
    assert_eq!(log.req_uri, "/api/tickets/7");
    assert_eq!(log.client_error_type.as_deref(), Some("SERVICE_ERROR"));
    assert_eq!(log.error_type.as_deref(), Some("DeleteTicketFailed"));
    assert_eq!(log.error_data, Some(7));
}

#[test]
fn successful_response_passes_through_unchanged() {
    let (log, rewritten) = main_response_mapper(
        "u".to_string(),
        "0".to_string(),
        "GET".to_string(),
        "/api/tickets".to_string(),
        None,
        None,
    );
    assert!(rewritten.is_none());
    assert_eq!(log.user_id, None);
    assert_eq!(log.client_error_type, None);
    assert_eq!(log.error_type, None);
    assert_eq!(log.error_data, None);
}

#[test]
fn log_assembly_without_client_error_reports_log_failure() {
    let (_, client_res) = request(
        "u".to_string(),
        "0".to_string(),
        "GET".to_string(),
        "/".to_string(),
        None,
        None,
        None,
    );
    assert_eq!(client_res.unwrap_err(), Error::FailedToRequestLog);
}

#[test]
fn login_failure_maps_to_403_login_fail_body() {
    let error = Error::LoginFailed;
    let (_, rewritten) = main_response_mapper(
        "id-1".to_string(),
        "0".to_string(),
        "POST".to_string(),
        "/api/login".to_string(),
        None,
        Some(&error),
    );
    let response = rewritten.unwrap();
    assert_eq!(response.status, 403);
    assert_eq!(
        response.body,
        "{\"error\":{\"type\":\"LOGIN_FAIL\",\"request_uuid\":\"id-1\"}}"
    );
}

#[test]
fn greetings_render_the_name() {
    assert_eq!(hello_path_greeting(&"Alex".to_string()), "<h1>Hello Alex</h1>");
    assert_eq!(
        hello_query_greeting(&Some("John".to_string())),
        "<h1>Hello John</h1>"
    );
    assert_eq!(hello_query_greeting(&None), "<h1>Hello World</h1>");
}
