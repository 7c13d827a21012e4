use users_api::error::{CustomError, DbFailure, ErrorReply};

fn reply(code: u16, message: &str) -> ErrorReply {
    CustomError::new(code, message.to_string()).error_response()
}

#[test]
fn client_errors_keep_their_message() {
    assert_eq!(reply(404, "gone"), ErrorReply { status: 404, message: "gone".to_string() });
    assert_eq!(reply(409, "dup"), ErrorReply { status: 409, message: "dup".to_string() });
    assert_eq!(reply(100, "x"), ErrorReply { status: 100, message: "x".to_string() });
}

#[test]
fn server_errors_hide_their_message() {
    let hidden = "Internal server error".to_string();
    assert_eq!(reply(500, "secret"), ErrorReply { status: 500, message: hidden.clone() });
    assert_eq!(reply(999, "secret"), ErrorReply { status: 999, message: hidden.clone() });
    assert_eq!(reply(503, "secret"), ErrorReply { status: 503, message: hidden });
}

#[test]
fn invalid_codes_become_server_errors() {
    let hidden = "Internal server error".to_string();
    assert_eq!(reply(42, "x"), ErrorReply { status: 500, message: hidden.clone() });
    assert_eq!(reply(99, "x"), ErrorReply { status: 500, message: hidden.clone() });
    assert_eq!(reply(1000, "x"), ErrorReply { status: 500, message: hidden });
}

#[test]
fn database_failures_are_classified() {
    let e = CustomError::from(DbFailure::DatabaseError { message: "duplicate key".to_string() });
    assert_eq!((e.error_status_code, e.error_message.as_str()), (409, "duplicate key"));
    let e = CustomError::from(DbFailure::NotFound);
    assert_eq!((e.error_status_code, e.error_message.as_str()), (404, "Хэрэглэгч олдсонгүй"));
    let e = CustomError::from(DbFailure::Other { description: "broken".to_string() });
    assert_eq!((e.error_status_code, e.error_message.as_str()), (500, "Unknown Diesel error: broken"));
}

#[test]
fn error_prints_its_message() {
    let e = CustomError::new(418, "teapot".to_string());
    assert_eq!(e.message(), "teapot");
    assert_eq!(e.error_status_code, 418);
}
