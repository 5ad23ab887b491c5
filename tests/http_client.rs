use currency::http_client::{decimal_text, HttpError, ReqwestClient};

#[test]
fn status_200_gives_the_body() {
    let client = ReqwestClient::new();
    assert_eq!(
        client.response_result(200, Ok("{\"data\":{}}".to_string())),
        Ok("{\"data\":{}}".to_string())
    );
}

#[test]
fn status_200_with_unreadable_body_is_unexpected() {
    let client = ReqwestClient::new();
    assert_eq!(
        client.response_result(200, Err("body cut off".to_string())),
        Err(HttpError::UnexpectedError("body cut off".to_string()))
    );
}

#[test]
fn status_401_is_authorization_error() {
    let client = ReqwestClient::new();
    assert_eq!(
        client.response_result(401, Ok(String::new())),
        Err(HttpError::AuthorizationError)
    );
}

#[test]
fn status_429_is_rate_limit_error() {
    let client = ReqwestClient::new();
    assert_eq!(
        client.response_result(429, Ok(String::new())),
        Err(HttpError::RateLimitError)
    );
}

#[test]
fn status_422_keeps_the_body() {
    let client = ReqwestClient::new();
    let body = r#"{"message":"Validation error","errors":{},"info":""}"#.to_string();
    assert_eq!(
        client.response_result(422, Ok(body.clone())),
        Err(HttpError::ValidationError(body))
    );
}

#[test]
fn other_statuses_are_unexpected() {
    let client = ReqwestClient::new();
    assert_eq!(
        client.response_result(500, Ok("oops".to_string())),
        Err(HttpError::UnexpectedError(
            "unexpected response HTTP status code 500".to_string()
        ))
    );
    assert_eq!(
        client.response_result(204, Ok(String::new())),
        Err(HttpError::UnexpectedError(
            "unexpected response HTTP status code 204".to_string()
        ))
    );
}

#[test]
fn connection_failure_is_network_error() {
    let client = ReqwestClient::new();
    assert_eq!(
        client.connection_failed("refused".to_string()),
        HttpError::NetworkError("refused".to_string())
    );
}

#[test]
fn decimal_text_of_status_codes() {
    assert_eq!(decimal_text(0), "0");
    assert_eq!(decimal_text(7), "7");
    assert_eq!(decimal_text(10), "10");
    assert_eq!(decimal_text(503), "503");
    assert_eq!(decimal_text(65535), "65535");
}

#[test]
fn http_error_descriptions() {
    assert_eq!(HttpError::NetworkError("down".to_string()).describe(), "network error: down");
    assert_eq!(HttpError::AuthorizationError.describe(), "authorization error");
    assert_eq!(HttpError::RateLimitError.describe(), "rate limit error");
    assert_eq!(HttpError::ValidationError("{}".to_string()).describe(), "validation error: {}");
    assert_eq!(HttpError::UnexpectedError("x".to_string()).describe(), "unexpected error: x");
}
