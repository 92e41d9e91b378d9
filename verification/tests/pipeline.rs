use ticket_server::ctx::Ctx;
use ticket_server::error::{ClientError, Error, StatusClass};
use ticket_server::log::log_request;
use ticket_server::mapper::main_response_mapper;
use ticket_server::mw_auth::{
    auth_token_cookie_name, ctx_from_request_ext, mw_ctx_resolver, mw_require_auth, parse_token,
};

#[test]
fn cookie_name_is_fixed() {
    assert_eq!(auth_token_cookie_name(), "auth-token");
}

#[test]
fn parse_token_splits_fields() {
    let r = parse_token("user-1.exp.sign").unwrap();
    assert_eq!(r.0, 1);
    assert_eq!(r.1, "exp");
    assert_eq!(r.2, "sign");
}

#[test]
fn parse_token_signature_starts_after_last_dot() {
    let r = parse_token("user-7.a.b.c").unwrap();
    assert_eq!(r.0, 7);
    assert_eq!(r.1, "a.b");
    assert_eq!(r.2, "c");
}

#[test]
fn parse_token_leading_zeros_and_max_id() {
    let r = parse_token("user-0042.e.s").unwrap();
    assert_eq!(r.0, 42);
    let r = parse_token("user-18446744073709551615.e.s").unwrap();
    assert_eq!(r.0, u64::MAX);
}

#[test]
fn parse_token_rejects_malformed_values() {
    let wrong = [
        "garbage",
        "",
        "user-",
        "user-1",
        "user-.a.b",
        "user-1.a",
        "user-1..b",
        "user-1.a.",
        "user-12a.b.c",
        "User-1.a.b",
        "xuser-1.a.b",
        "user-1.a\nb.c",
        "user-18446744073709551616.a.b",
    ];
    for w in wrong {
        assert!(
            matches!(parse_token(w), Err(Error::AuthFailTokenWrongFormat)),
            "{w:?} must be rejected"
        );
    }
}

#[test]
fn missing_cookie_fails_no_auth_and_is_not_touched() {
    let r = mw_ctx_resolver(None);
    assert!(matches!(r.ctx, Err(Error::AuthFailNoAuthTokenCookie)));
    assert!(!r.remove_cookie);

    let gate = mw_require_auth(&r.ctx);
    let e = gate.unwrap_err();
    assert_eq!(e, Error::AuthFailNoAuthTokenCookie);
    let (status, client) = e.client_status_and_error();
    assert_eq!(status, StatusClass::Forbidden);
    assert_eq!(status.code(), 403);
    assert_eq!(client, ClientError::NO_AUTH);
}

#[test]
fn malformed_cookie_fails_and_is_removed() {
    let r = mw_ctx_resolver(Some("garbage".to_string()));
    assert!(matches!(r.ctx, Err(Error::AuthFailTokenWrongFormat)));
    assert!(r.remove_cookie);
    let (status, client) = r.ctx.unwrap_err().client_status_and_error();
    assert_eq!(status, StatusClass::Forbidden);
    assert_eq!(client, ClientError::NO_AUTH);
}

#[test]
fn wellformed_token_resolves_context() {
    let r = mw_ctx_resolver(Some("user-42.2099-01-01.sig".to_string()));
    let ctx = r.ctx.unwrap();
    assert_eq!(ctx.user_id(), 42);
    assert!(!r.remove_cookie);
    assert!(mw_require_auth(&Ok(ctx)).is_ok());
}

#[test]
fn context_extraction_from_request_state() {
    let missing = ctx_from_request_ext(None);
    assert!(matches!(missing, Err(Error::AuthFailCtxNotInRequestExt)));

    let stored_ok: Result<Ctx, Error> = Ok(Ctx::new(5));
    let got = ctx_from_request_ext(Some(&stored_ok)).unwrap();
    assert_eq!(got.user_id(), 5);

    let stored_err: Result<Ctx, Error> = Err(Error::AuthFailTokenWrongFormat);
    let got = ctx_from_request_ext(Some(&stored_err));
    assert!(matches!(got, Err(Error::AuthFailTokenWrongFormat)));
}

#[test]
fn every_error_variant_maps_to_one_client_pair() {
    let cases = [
        (Error::LoginFail, StatusClass::Forbidden, ClientError::LOGIN_FAIL),
        (Error::AuthFailNoAuthTokenCookie, StatusClass::Forbidden, ClientError::NO_AUTH),
        (Error::AuthFailTokenWrongFormat, StatusClass::Forbidden, ClientError::NO_AUTH),
        (Error::AuthFailCtxNotInRequestExt, StatusClass::Forbidden, ClientError::NO_AUTH),
        (
            Error::TicketDeleteFailIdNotFound { id: 3 },
            StatusClass::BadRequest,
            ClientError::INVALID_PARAMS,
        ),
    ];
    for (e, status, client) in cases {
        assert_eq!(e.client_status_and_error(), (status, client));
    }
    assert_eq!(StatusClass::InternalServerError.code(), 500);
}

#[test]
fn error_names_and_payloads_for_logs() {
    assert_eq!(Error::LoginFail.variant_name(), "LoginFail");
    assert_eq!(
        Error::AuthFailNoAuthTokenCookie.variant_name(),
        "AuthFailNoAuthTokenCookie"
    );
    assert_eq!(
        Error::AuthFailTokenWrongFormat.variant_name(),
        "AuthFailTokenWrongFormat"
    );
    assert_eq!(
        Error::AuthFailCtxNotInRequestExt.variant_name(),
        "AuthFailCtxNotInRequestExt"
    );
    assert_eq!(
        Error::TicketDeleteFailIdNotFound { id: 8 }.variant_name(),
        "TicketDeleteFailIdNotFound"
    );
    assert_eq!(Error::TicketDeleteFailIdNotFound { id: 8 }.data_id(), Some(8));
    assert_eq!(Error::LoginFail.data_id(), None);

    assert_eq!(ClientError::LOGIN_FAIL.as_code(), "LOGIN_FAIL");
    assert_eq!(ClientError::NO_AUTH.as_code(), "NO_AUTH");
    assert_eq!(ClientError::INVALID_PARAMS.as_code(), "INVALID_PARAMS");
    assert_eq!(ClientError::SERVICE_ERROR.as_code(), "SERVICE_ERROR");
}

#[test]
fn log_record_carries_request_metadata() {
    let line = log_request(
        "id-1".to_string(),
        1700000000123,
        "POST".to_string(),
        "/api/tickets".to_string(),
        Some(Ctx::new(42)),
        Some(&Error::TicketDeleteFailIdNotFound { id: 5 }),
        Some(ClientError::INVALID_PARAMS),
    );
    assert_eq!(line.uuid, "id-1");
    assert_eq!(line.timestamp, 1700000000123);
    assert_eq!(line.req_method, "POST");
    assert_eq!(line.req_path, "/api/tickets");
    assert_eq!(line.user_id, Some(42));
    assert_eq!(line.client_error_type.as_deref(), Some("INVALID_PARAMS"));
    assert_eq!(line.error_type.as_deref(), Some("TicketDeleteFailIdNotFound"));
    assert_eq!(line.error_data_id, Some(5));
}

#[test]
fn mapper_without_error_keeps_response_and_logs_once() {
    let mapped = main_response_mapper(None, "GET".to_string(), "/hello".to_string(), None, 7);
    assert!(mapped.error_response.is_none());
    let line = mapped.log_line;
    assert!(!line.uuid.is_empty());
    assert_eq!(line.uuid.len(), 36);
    assert!(uuid::Uuid::parse_str(&line.uuid).is_ok());
    assert_eq!(line.timestamp, 7);
    assert_eq!(line.req_method, "GET");
    assert_eq!(line.req_path, "/hello");
    assert_eq!(line.user_id, None);
    assert!(line.client_error_type.is_none());
    assert!(line.error_type.is_none());
    assert!(line.error_data_id.is_none());
}

#[test]
fn mapper_with_error_builds_sanitized_body_and_logs_detail() {
    let err = Error::TicketDeleteFailIdNotFound { id: 9 };
    let mapped = main_response_mapper(
        Some(&err),
        "DELETE".to_string(),
        "/api/tickets/9".to_string(),
        Some(Ctx::new(42)),
        11,
    );
    let (status, body) = mapped.error_response.expect("an error response must be built");
    assert_eq!(status, StatusClass::BadRequest);
    assert_eq!(body.error_type, ClientError::INVALID_PARAMS);
    let line = mapped.log_line;
    assert_eq!(body.req_uuid, line.uuid);
    assert_eq!(line.uuid.len(), 36);
    assert!(uuid::Uuid::parse_str(&line.uuid).is_ok());
    assert_eq!(line.user_id, Some(42));
    assert_eq!(line.client_error_type.as_deref(), Some("INVALID_PARAMS"));
    assert_eq!(line.error_type.as_deref(), Some("TicketDeleteFailIdNotFound"));
    assert_eq!(line.error_data_id, Some(9));
    // the id the client asked for is logged, never returned to the client:
    // the body holds only the code and the correlation id
}

#[test]
fn mapper_draws_fresh_correlation_ids() {
    let a = main_response_mapper(None, "GET".to_string(), "/".to_string(), None, 0);
    let b = main_response_mapper(None, "GET".to_string(), "/".to_string(), None, 0);
    assert_ne!(a.log_line.uuid, b.log_line.uuid);
}
