use quittance::error::{status_of, AppError, AuthFailure, ErrorKind};

#[test]
fn each_kind_has_its_status() {
    assert_eq!(status_of(ErrorKind::Validation), 400);
    assert_eq!(status_of(ErrorKind::Authentication), 401);
    assert_eq!(status_of(ErrorKind::NotFound), 404);
    assert_eq!(status_of(ErrorKind::Conflict), 409);
    assert_eq!(status_of(ErrorKind::Internal), 500);
}

#[test]
fn each_error_has_its_kind_and_status() {
    let cases = [
        (AppError::Database, ErrorKind::Internal, 500),
        (AppError::Auth("a".to_string()), ErrorKind::Authentication, 401),
        (AppError::NotFound("n".to_string()), ErrorKind::NotFound, 404),
        (AppError::Validation("v".to_string()), ErrorKind::Validation, 400),
        (AppError::Conflict("c".to_string()), ErrorKind::Conflict, 409),
        (AppError::Internal, ErrorKind::Internal, 500),
    ];
    for (error, kind, status) in cases {
        assert_eq!(error.kind(), kind);
        assert_eq!(error.status_code(), status);
    }
}

#[test]
fn internal_failures_are_reported_with_a_fixed_phrase() {
    assert_eq!(AppError::Database.message(), "Database error");
    assert_eq!(AppError::Internal.message(), "Internal server error");
}

#[test]
fn other_failures_are_reported_with_their_message() {
    assert_eq!(AppError::Auth("Invalid token".to_string()).message(), "Invalid token");
    assert_eq!(AppError::NotFound("Lease not found".to_string()).message(), "Lease not found");
    assert_eq!(AppError::Validation("bad".to_string()).message(), "bad");
    assert_eq!(AppError::Conflict("twice".to_string()).message(), "twice");
}

#[test]
fn response_carries_status_and_message() {
    let response = AppError::NotFound("Receipt not found".to_string()).into_response();
    assert_eq!(response.status, 404);
    assert_eq!(response.error, "Receipt not found");
    let response = AppError::Database.into_response();
    assert_eq!(response.status, 500);
    assert_eq!(response.error, "Database error");
}

#[test]
fn clone_keeps_variant_and_message() {
    let copy = AppError::Conflict("twice".to_string()).clone();
    assert!(matches!(copy, AppError::Conflict(ref m) if m == "twice"));
    assert!(matches!(AppError::Database.clone(), AppError::Database));
    assert!(matches!(AppError::Internal.clone(), AppError::Internal));
}

#[test]
fn authentication_failures_have_their_messages() {
    let cases = [
        (AuthFailure::MissingOrInvalidCredential, "Missing or invalid authorization header"),
        (AuthFailure::InvalidToken, "Invalid token"),
        (AuthFailure::InvalidCredential, "Invalid user ID in token"),
    ];
    for (failure, message) in cases {
        let error = failure.to_app_error();
        assert_eq!(error.kind(), ErrorKind::Authentication);
        assert_eq!(error.status_code(), 401);
        assert_eq!(error.message(), message);
    }
}
