use tudu_auth::errors::ServiceError;

const ALL: [ServiceError; 5] = [
    ServiceError::InternalError,
    ServiceError::InvalidCredentials,
    ServiceError::InvalidEmail,
    ServiceError::WeakPassword,
    ServiceError::InvalidSession,
];

#[test]
fn status_code_of_each_error() {
    assert_eq!(ServiceError::InternalError.status_code(), 500);
    assert_eq!(ServiceError::InvalidCredentials.status_code(), 401);
    assert_eq!(ServiceError::InvalidEmail.status_code(), 400);
    assert_eq!(ServiceError::WeakPassword.status_code(), 400);
    assert_eq!(ServiceError::InvalidSession.status_code(), 401);
}

#[test]
fn only_the_internal_error_is_a_server_error() {
    for e in ALL {
        let code = e.status_code();
        assert_eq!((500..600).contains(&code), e == ServiceError::InternalError);
        assert_eq!((400..500).contains(&code), e != ServiceError::InternalError);
    }
}

#[test]
fn message_of_each_error() {
    assert_eq!(ServiceError::InternalError.message(), "Invalid Credentials");
    assert_eq!(ServiceError::InvalidCredentials.message(), "Invalid Credentials");
    assert_eq!(ServiceError::InvalidEmail.message(), "Invalid Email");
    assert_eq!(ServiceError::WeakPassword.message(), "Weak Password");
    assert_eq!(ServiceError::InvalidSession.message(), "Invalid Session");
}

#[test]
fn framework_error_is_an_internal_error() {
    let bad_request = actix_web::error::ErrorBadRequest("malformed body");
    assert_eq!(ServiceError::from(bad_request), ServiceError::InternalError);
    let not_found = actix_web::error::ErrorNotFound("no such route");
    assert_eq!(ServiceError::from(not_found), ServiceError::InternalError);
}
