use catalyst::logger::LogLevel;
use catalyst::meltdown::{
    ApiError, DatabaseErrorKind, DatabaseFailure, IoErrorKind, JwtErrorKind, MeltDown, MeltType, Status,
};

#[test]
fn new_error_has_no_message_or_context() {
    let e = MeltDown::new(MeltType::NotFound, "Tenant not found");
    assert_eq!(e.melt_type, MeltType::NotFound);
    assert_eq!(e.details, "Tenant not found");
    assert!(e.user_message.is_none());
    assert!(e.context.is_none());
}

#[test]
fn default_user_messages_follow_the_kind() {
    assert_eq!(MeltDown::new(MeltType::NotFound, "Tenant not found").user_message(), "Tenant not found not found.");
    assert_eq!(MeltDown::record_not_found("User").user_message(), "User not found.");
    assert_eq!(MeltDown::unique_violation("Email").user_message(), "Email already exists.");
    assert_eq!(MeltDown::invalid_credentials().user_message(), "Invalid username or password.");
    assert_eq!(MeltDown::validation_failed("").user_message(), "Validation failed");
    assert_eq!(MeltDown::validation_failed("bad").user_message(), "Validation failed: bad");
    assert_eq!(MeltDown::new(MeltType::Forbidden, "x").user_message(), "Forbidden: x");
    assert_eq!(MeltDown::new(MeltType::MethodNotAllowed, "PUT").user_message(), "Method PUT not allowed.");
    assert_eq!(MeltDown::new(MeltType::Unknown, "boom").user_message(), "An unexpected error occurred.");
}

#[test]
fn own_user_message_wins() {
    let e = MeltDown::new(MeltType::Unknown, "boom").with_user_message("Try later");
    assert_eq!(e.user_message(), "Try later");
}

#[test]
fn statuses_follow_the_kind() {
    assert_eq!(MeltDown::new(MeltType::UniqueViolation, "x").status_code(), Status { code: 409 });
    assert_eq!(MeltDown::expired_token().status_code().code, 401);
    assert_eq!(MeltDown::insufficient_permissions().status_code().code, 403);
    assert_eq!(MeltDown::new(MeltType::ExternalServiceError, "x").status_code().code, 503);
    assert_eq!(MeltDown::new(MeltType::MethodNotAllowed, "x").status_code().code, 405);
}

#[test]
fn context_keys_are_set_once() {
    let e = MeltDown::new(MeltType::DatabaseError, "db")
        .with_context("operation", "get_all")
        .with_context("id", "7")
        .with_context("operation", "get_by_id");
    let ctx = e.context.clone().unwrap();
    assert_eq!(
        ctx,
        vec![("operation".to_string(), "get_by_id".to_string()), ("id".to_string(), "7".to_string())]
    );
    assert_eq!(e.log_message(), "[DatabaseError] db | operation=get_by_id | id=7");
}

#[test]
fn log_level_splits_client_and_server_errors() {
    let (level, line) = MeltDown::new(MeltType::InvalidInput, "age").log();
    assert_eq!(level, LogLevel::Warning);
    assert_eq!(line, "[InvalidInput] age");
    let (level, _) = MeltDown::db_connection("down").log();
    assert_eq!(level, LogLevel::Error);
}

#[test]
fn api_error_body_carries_status_kind_and_message() {
    let e = MeltDown::missing_field("email").with_context("form", "register");
    let body = ApiError::from_meltdown(&e);
    assert_eq!(body.error.code, 400);
    assert_eq!(body.error.melt_type, "MissingField");
    assert_eq!(body.error.message, "email is required.");
    assert_eq!(body.error.context, Some(vec![("form".to_string(), "register".to_string())]));
}

#[test]
fn database_failures_are_classified() {
    let f = DatabaseFailure::Database {
        kind: DatabaseErrorKind::UniqueViolation,
        constraint: Some("users_email_key".to_string()),
        column: None,
        table: None,
        debug: String::new(),
    };
    let e = MeltDown::from_database_failure(&f);
    assert_eq!(e.melt_type, MeltType::UniqueViolation);
    assert_eq!(e.details, "Email");
    assert_eq!(e.context, Some(vec![("constraint".to_string(), "users_email_key".to_string())]));

    let e = MeltDown::from_database_failure(&DatabaseFailure::NotFound);
    assert_eq!(e.melt_type, MeltType::RecordNotFound);
    assert_eq!(e.user_message(), "Record not found.");

    let f = DatabaseFailure::Database {
        kind: DatabaseErrorKind::NotNullViolation,
        constraint: None,
        column: Some("title".to_string()),
        table: Some("posts".to_string()),
        debug: String::new(),
    };
    let e = MeltDown::from_database_failure(&f);
    assert_eq!(e.melt_type, MeltType::NotNullViolation);
    assert_eq!(e.details, "title");
    assert_eq!(e.context, Some(vec![("table".to_string(), "posts".to_string())]));
}

#[test]
fn token_and_io_errors_are_classified() {
    let e = MeltDown::from_jwt_error(JwtErrorKind::ExpiredSignature, "ExpiredSignature");
    assert_eq!(e.melt_type, MeltType::ExpiredToken);
    assert_eq!(e.details, "JWT token expired: ExpiredSignature");
    let e = MeltDown::from_io_error(IoErrorKind::PermissionDenied, "denied");
    assert_eq!(e.melt_type, MeltType::FilePermissionDenied);
    assert_eq!(e.status_code().code, 403);
    let e = MeltDown::from_password_hash_error("invalid cost");
    assert_eq!(e.details, "Password hashing error: invalid cost");
    assert_eq!(e.status_code().code, 500);
}
