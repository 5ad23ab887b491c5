use vstd::prelude::*;

verus! {

/// A failure at the transport boundary.
#[derive(Debug, Clone, PartialEq, Eq)]
pub enum HttpError {
    /// The request did not reach the provider, or no response came back.
    NetworkError(String),
    /// The provider refused the credentials (status 401).
    AuthorizationError,
    /// The provider asked for fewer requests (status 429).
    RateLimitError,
    /// The provider rejected the request's parameters (status 422); the
    /// response body is kept.
    ValidationError(String),
    /// Any other failure, with a diagnostic text.
    UnexpectedError(String),
}

/// The text of an HTTP error for diagnostics.
pub open spec fn http_error_text(e: HttpError) -> Seq<char> {
    match e {
        HttpError::NetworkError(detail) => "network error: "@ + detail@,
        HttpError::AuthorizationError => "authorization error"@,
        HttpError::RateLimitError => "rate limit error"@,
        HttpError::ValidationError(body) => "validation error: "@ + body@,
        HttpError::UnexpectedError(detail) => "unexpected error: "@ + detail@,
    }
}

impl HttpError {
    /// A human-readable text for the error.
    pub fn describe(&self) -> (r: String)
        ensures
            r@ == http_error_text(*self),
    {
        match self {
            HttpError::NetworkError(detail) => {
                let mut r = String::from_str("network error: ");
                r.append(detail.as_str());
                r
            },
            HttpError::AuthorizationError => String::from_str("authorization error"),
            HttpError::RateLimitError => String::from_str("rate limit error"),
            HttpError::ValidationError(body) => {
                let mut r = String::from_str("validation error: ");
                r.append(body.as_str());
                r
            },
            HttpError::UnexpectedError(detail) => {
                let mut r = String::from_str("unexpected error: ");
                r.append(detail.as_str());
                r
            },
        }
    }
}

/// The character of a decimal digit.
pub open spec fn digit_char(d: nat) -> char {
    if d == 0 {
        '0'
    } else if d == 1 {
        '1'
    } else if d == 2 {
        '2'
    } else if d == 3 {
        '3'
    } else if d == 4 {
        '4'
    } else if d == 5 {
        '5'
    } else if d == 6 {
        '6'
    } else if d == 7 {
        '7'
    } else if d == 8 {
        '8'
    } else {
        '9'
    }
}

/// The decimal text of a number, without leading zeros.
pub open spec fn decimal(n: nat) -> Seq<char>
    decreases n,
{
    if n < 10 {
        seq![digit_char(n)]
    } else {
        decimal(n / 10).push(digit_char(n % 10))
    }
}

fn digit_text(d: u16) -> (r: &'static str)
    requires
        d < 10,
    ensures
        r@ == seq![digit_char(d as nat)],
{
    if d == 0 {
        proof { reveal_strlit("0"); }
        "0"
    } else if d == 1 {
        proof { reveal_strlit("1"); }
        "1"
    } else if d == 2 {
        proof { reveal_strlit("2"); }
        "2"
    } else if d == 3 {
        proof { reveal_strlit("3"); }
        "3"
    } else if d == 4 {
        proof { reveal_strlit("4"); }
        "4"
    } else if d == 5 {
        proof { reveal_strlit("5"); }
        "5"
    } else if d == 6 {
        proof { reveal_strlit("6"); }
        "6"
    } else if d == 7 {
        proof { reveal_strlit("7"); }
        "7"
    } else if d == 8 {
        proof { reveal_strlit("8"); }
        "8"
    } else {
        proof { reveal_strlit("9"); }
        "9"
    }
}

/// The decimal text of a status code.
pub fn decimal_text(n: u16) -> (r: String)
    ensures
        r@ == decimal(n as nat),
    decreases n,
{
    if n < 10 {
        String::from_str(digit_text(n))
    } else {
        let mut r = decimal_text(n / 10);
        r.append(digit_text(n % 10));
        r
    }
}

/// The status of a successful response.
pub const STATUS_OK: u16 = 200;

/// The status of a response that refuses the credentials.
pub const STATUS_UNAUTHORIZED: u16 = 401;

/// The status of a response that rejects the request's parameters.
pub const STATUS_UNPROCESSABLE: u16 = 422;

/// The status of a response that asks for fewer requests.
pub const STATUS_TOO_MANY_REQUESTS: u16 = 429;

/// What a GET gives back for a response with `status` whose body was read
/// as `body` (or failed to be read, with a diagnostic text).
pub open spec fn response_outcome(
    status: u16,
    body: Result<String, String>,
    r: Result<String, HttpError>,
) -> bool {
    if status == STATUS_OK {
        r == match body {
            Ok(text) => Ok(text),
            Err(detail) => Err(HttpError::UnexpectedError(detail)),
        }
    } else if status == STATUS_UNAUTHORIZED {
        r == Err::<String, HttpError>(HttpError::AuthorizationError)
    } else if status == STATUS_TOO_MANY_REQUESTS {
        r == Err::<String, HttpError>(HttpError::RateLimitError)
    } else if status == STATUS_UNPROCESSABLE {
        r == match body {
            Ok(text) => Err::<String, HttpError>(HttpError::ValidationError(text)),
            Err(detail) => Err(HttpError::UnexpectedError(detail)),
        }
    } else {
        r matches Err(HttpError::UnexpectedError(detail)) && detail@
            == "unexpected response HTTP status code "@ + decimal(status as nat)
    }
}

/// The transport over reqwest: its status policy lives here, the request
/// itself is made by the caller, which hands over what came back.
pub struct ReqwestClient {}

impl ReqwestClient {
    pub fn new() -> (r: ReqwestClient) {
        ReqwestClient {  }
    }

    /// Classifies a response: its body on status 200, and a transport
    /// error for every other status.
    pub fn response_result(&self, status: u16, body: Result<String, String>) -> (r: Result<
        String,
        HttpError,
    >)
        ensures
            response_outcome(status, body, r),
    {
        if status == STATUS_OK {
            match body {
                Ok(text) => Ok(text),
                Err(detail) => Err(HttpError::UnexpectedError(detail)),
            }
        } else if status == STATUS_UNAUTHORIZED {
            Err(HttpError::AuthorizationError)
        } else if status == STATUS_TOO_MANY_REQUESTS {
            Err(HttpError::RateLimitError)
        } else if status == STATUS_UNPROCESSABLE {
            match body {
                Ok(text) => Err(HttpError::ValidationError(text)),
                Err(detail) => Err(HttpError::UnexpectedError(detail)),
            }
        } else {
            let mut detail = String::from_str("unexpected response HTTP status code ");
            let code = decimal_text(status);
            detail.append(code.as_str());
            Err(HttpError::UnexpectedError(detail))
        }
    }

    /// The error for a request that got no response.
    pub fn connection_failed(&self, detail: String) -> (r: HttpError)
        ensures
            r == HttpError::NetworkError(detail),
    {
        HttpError::NetworkError(detail)
    }
}

} // verus!
