use lighthouse::token::{
    split_token, validate, Algorithm, BasePayload, DecodeError, DecodeHeaderError, EncodeError,
    Error, Header, ValidationError,
};
use lighthouse::LoginCommand;

#[test]
fn validate_rejects_an_expired_payload() {
    let payload = BasePayload { exp: Some(1_000) };
    let now: i64 = 4_600; // one hour past the expiry
    assert_eq!(
        validate(&payload, now),
        Err(ValidationError::Expired { seconds: 3_600 })
    );
}

#[test]
fn validate_accepts_a_future_expiry() {
    let payload = BasePayload { exp: Some(10_000) };
    assert_eq!(validate(&payload, 9_999), Ok(()));
    // the boundary: expiring exactly now is not yet expired
    assert_eq!(validate(&payload, 10_000), Ok(()));
    assert_eq!(
        validate(&payload, 10_001),
        Err(ValidationError::Expired { seconds: 1 })
    );
}

#[test]
fn validate_accepts_a_payload_without_expiry() {
    assert_eq!(validate(&BasePayload { exp: None }, i64::MAX), Ok(()));
}

#[test]
fn status_codes_match_the_error_groups() {
    assert_eq!(Error::Decode(DecodeError::InvalidSignature).status_code(), 400);
    assert_eq!(
        Error::Encode(EncodeError::JsonError(String::from("boom"))).status_code(),
        500
    );
    assert_eq!(
        Error::DecodeHeader(DecodeHeaderError::InvalidSyntax).status_code(),
        400
    );
}

#[test]
fn split_token_cuts_three_parts() {
    let (h, p, s) = split_token(b"aaa.bbb.ccc").unwrap();
    assert_eq!(h, b"aaa");
    assert_eq!(p, b"bbb");
    assert_eq!(s, b"ccc");
}

#[test]
fn split_token_allows_empty_parts_and_ignores_extras() {
    let (h, p, s) = split_token(b"..sig.extra").unwrap();
    assert_eq!(h, b"");
    assert_eq!(p, b"");
    assert_eq!(s, b"sig");
}

#[test]
fn split_token_reports_the_first_missing_part() {
    assert_eq!(split_token(b"headeronly"), Err(DecodeError::MissingPayload));
    assert_eq!(split_token(b""), Err(DecodeError::MissingPayload));
    assert_eq!(
        split_token(b"header.payload"),
        Err(DecodeError::MissingSignature)
    );
}

#[test]
fn header_names_its_algorithm() {
    let h = Header {
        alg: Algorithm::HS256,
    };
    assert_eq!(h.alg, Algorithm::HS256);
}

#[test]
fn login_command_prefers_given_credentials() {
    let cmd = LoginCommand {
        email: Some(String::from("user@example.com")),
        password: None,
    };
    let (email, password) = cmd.resolve_credentials(
        String::from("prompted@example.com"),
        String::from("prompted-pw"),
    );
    assert_eq!(email, "user@example.com");
    assert_eq!(password, "prompted-pw");
}

#[test]
fn login_command_falls_back_to_prompted_credentials() {
    let cmd = LoginCommand {
        email: None,
        password: Some(String::from("given-pw")),
    };
    let (email, password) = cmd.resolve_credentials(
        String::from("prompted@example.com"),
        String::from("prompted-pw"),
    );
    assert_eq!(email, "prompted@example.com");
    assert_eq!(password, "given-pw");
}
