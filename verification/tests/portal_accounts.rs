use fluxgate::portal::{
    hash_registration_password, login_response, registration_reply, session_token,
    try_check_login, LoginRequest, PortalRejection, RegisterRequest, UserLookup, UserRecord,
    SESSION_LIFETIME_SECS,
};

fn register(password: &str) -> String {
    hash_registration_password(&RegisterRequest {
        email: "dev@example.com".to_string(),
        password: password.to_string(),
    })
    .unwrap()
}

fn login(password: &str) -> LoginRequest {
    LoginRequest { email: "dev@example.com".to_string(), password: password.to_string() }
}

#[test]
fn registered_password_logs_in() {
    let phc = register("hunter22");
    assert!(phc.starts_with("$argon2id$"));
    let record = UserRecord { id: 42, password_hash: phc, tier_id: Some("pro".to_string()) };
    let claims = try_check_login(UserLookup::Found(record), login("hunter22"), 1_000).unwrap();
    assert_eq!(claims.sub, 42);
    assert_eq!(claims.email, "dev@example.com");
    assert_eq!(claims.tier, "pro");
    assert_eq!(claims.exp, 1_000 + 86_400);
    assert_eq!(SESSION_LIFETIME_SECS, 86_400);
}

#[test]
fn salts_differ_between_registrations() {
    assert_ne!(register("same"), register("same"));
}

#[test]
fn wrong_password_is_invalid_credentials() {
    let record = UserRecord { id: 1, password_hash: register("right"), tier_id: None };
    let r = try_check_login(UserLookup::Found(record), login("wrong"), 5);
    assert_eq!(r.unwrap_err(), PortalRejection::InvalidCredentials);
    assert_eq!(PortalRejection::InvalidCredentials.status(), 401);
    assert_eq!(PortalRejection::InvalidCredentials.message(), "Invalid credentials");
}

#[test]
fn missing_tier_defaults_to_free() {
    let record = UserRecord { id: 1, password_hash: register("pw"), tier_id: None };
    let claims = try_check_login(UserLookup::Found(record), login("pw"), 0).unwrap();
    assert_eq!(claims.tier, "free");
    assert_eq!(claims.exp, 86_400);
}

#[test]
fn unknown_email_and_database_failure() {
    let r = try_check_login(UserLookup::Missing, login("pw"), 0);
    assert_eq!(r.unwrap_err(), PortalRejection::InvalidCredentials);
    let r = try_check_login(UserLookup::Failed, login("pw"), 0);
    assert_eq!(r.unwrap_err(), PortalRejection::DatabaseError);
    assert_eq!(PortalRejection::DatabaseError.status(), 500);
    assert_eq!(PortalRejection::DatabaseError.message(), "Database error");
}

#[test]
fn corrupt_stored_hash_is_refused() {
    let record = UserRecord { id: 1, password_hash: "not-a-hash".to_string(), tier_id: None };
    let r = try_check_login(UserLookup::Found(record), login("pw"), 0);
    assert_eq!(r.unwrap_err(), PortalRejection::CorruptPasswordHash);
    assert_eq!(PortalRejection::CorruptPasswordHash.status(), 500);
}

#[test]
fn registration_replies() {
    assert_eq!(registration_reply(true), Ok((201, "User registered successfully")));
    assert_eq!(registration_reply(false), Err(PortalRejection::EmailTaken));
    assert_eq!(PortalRejection::EmailTaken.status(), 409);
    assert_eq!(PortalRejection::EmailTaken.message(), "Email already exists");
    assert_eq!(PortalRejection::HashingFailed.status(), 500);
    assert_eq!(PortalRejection::HashingFailed.message(), "Hashing failed");
}

#[test]
fn login_response_carries_token() {
    let r = login_response(Some("tok".to_string())).unwrap();
    assert_eq!(r.token, "tok");
    assert_eq!(r.message, "Login successful");
    assert_eq!(login_response(None).unwrap_err(), PortalRejection::TokenGenerationFailed);
    assert_eq!(PortalRejection::TokenGenerationFailed.message(), "Token generation failed");
}

#[test]
fn session_token_extraction() {
    assert_eq!(session_token(None), Err(PortalRejection::MissingAuthorization));
    assert_eq!(PortalRejection::MissingAuthorization.message(), "Missing Authorization header");
    assert_eq!(session_token(Some("Bearer  jwt.value ")).unwrap(), "jwt.value");
    assert_eq!(session_token(Some("jwt.value")).unwrap(), "jwt.value");
    assert_eq!(PortalRejection::SessionInvalid.status(), 401);
    assert_eq!(PortalRejection::SessionInvalid.message(), "Session expired or invalid");
}
