//! Developer-portal accounts: password hashing at registration, credential
//! checks at login, and the session token a request presents.

use vstd::prelude::*;
use argon2::password_hash::SaltString;
use crate::text::{trim, trim_spec, trim_start_matches, trim_start_matches_spec};

verus! {

/// Declares argon2's salt type so that it can be carried between calls.
#[verifier::external_type_specification]
#[verifier::external_body]
pub struct ExSaltString(SaltString);

/// Whether `phc` is a PHC-format password hash that `argon2::PasswordHash::new` accepts.
pub uninterp spec fn phc_parses(phc: Seq<char>) -> bool;

/// Whether `Argon2::default().verify_password` accepts `password` against the PHC hash `phc`.
pub uninterp spec fn argon2_accepts(password: Seq<char>, phc: Seq<char>) -> bool;

/// A fresh random salt from `SaltString::generate` with the operating system's RNG.
/// Trusted: nothing is stated of the salt, which is chance.
#[verifier::external_body]
fn fresh_salt() -> SaltString {
    SaltString::generate(&mut argon2::password_hash::rand_core::OsRng)
}

/// Argon2 (default parameters) hash of `password` with `salt`, in PHC text form,
/// through `PasswordHasher::hash_password`.
/// Trusted: a hash it returns parses as a PHC string and `verify_password`
/// accepts the same password against it, which is what `verify_password`
/// documents (it re-hashes with the parameters and salt the hash records and
/// compares). When hashing fails is left unsaid.
#[verifier::external_body]
fn argon2_hash(password: &str, salt: &SaltString) -> (phc: Option<String>)
    ensures
        phc matches Some(h) ==> phc_parses(h@) && argon2_accepts(password@, h@),
{
    argon2::PasswordHasher::hash_password(&argon2::Argon2::default(), password.as_bytes(), salt).ok().map(
        |hash| hash.to_string(),
    )
}

/// Whether `argon2::PasswordHash::new` parses `phc`.
/// Trusted: the answer is `phc_parses(phc)`, named, not restated.
#[verifier::external_body]
fn password_hash_parses(phc: &str) -> (ok: bool)
    ensures
        ok == phc_parses(phc@),
{
    argon2::PasswordHash::new(phc).is_ok()
}

/// Whether `Argon2::default().verify_password` accepts `password` for the parsed `phc`.
/// Trusted: the answer is `argon2_accepts(password, phc)`, named, not restated;
/// `phc` must parse, as the caller has checked.
#[verifier::external_body]
fn argon2_verify(password: &str, phc: &str) -> (ok: bool)
    requires
        phc_parses(phc@),
    ensures
        ok == argon2_accepts(password@, phc@),
{
    argon2::PasswordVerifier::verify_password(
        &argon2::Argon2::default(),
        password.as_bytes(),
        &argon2::PasswordHash::new(phc).unwrap(),
    ).is_ok()
}

/// Seconds a portal session token stays valid.
pub const SESSION_LIFETIME_SECS: u64 = 24 * 3600;

/// The body of a registration.
#[derive(Clone, Debug)]
pub struct RegisterRequest {
    pub email: String,
    pub password: String,
}

/// The body of a login.
#[derive(Clone, Debug)]
pub struct LoginRequest {
    pub email: String,
    pub password: String,
}

/// The body answering a successful login.
#[derive(Clone, Debug)]
pub struct LoginResponse {
    pub token: String,
    pub message: String,
}

/// What a portal session token asserts; `sub` is the user's UUID as a number.
#[derive(Clone, Debug)]
pub struct Claims {
    pub sub: u128,
    pub email: String,
    pub tier: String,
    pub exp: u64,
}

/// A user's row as the login reads it.
#[derive(Clone, Debug)]
pub struct UserRecord {
    pub id: u128,
    pub password_hash: String,
    pub tier_id: Option<String>,
}

/// What the lookup of a login's email gave.
#[derive(Clone, Debug)]
pub enum UserLookup {
    Found(UserRecord),
    Missing,
    Failed,
}

/// Why a portal request was refused.
#[derive(Clone, Copy, Debug, PartialEq, Eq)]
pub enum PortalRejection {
    HashingFailed,
    EmailTaken,
    DatabaseError,
    InvalidCredentials,
    CorruptPasswordHash,
    TokenGenerationFailed,
    MissingAuthorization,
    SessionInvalid,
}

impl PortalRejection {
    /// The HTTP status of the refusal.
    pub fn status(&self) -> (code: u16)
        ensures
            code == match self {
                PortalRejection::HashingFailed => 500u16,
                PortalRejection::EmailTaken => 409u16,
                PortalRejection::DatabaseError => 500u16,
                PortalRejection::InvalidCredentials => 401u16,
                PortalRejection::CorruptPasswordHash => 500u16,
                PortalRejection::TokenGenerationFailed => 500u16,
                PortalRejection::MissingAuthorization => 401u16,
                PortalRejection::SessionInvalid => 401u16,
            },
    {
        match self {
            PortalRejection::HashingFailed => 500,
            PortalRejection::EmailTaken => 409,
            PortalRejection::DatabaseError => 500,
            PortalRejection::InvalidCredentials => 401,
            PortalRejection::CorruptPasswordHash => 500,
            PortalRejection::TokenGenerationFailed => 500,
            PortalRejection::MissingAuthorization => 401,
            PortalRejection::SessionInvalid => 401,
        }
    }

    /// The body of the refusal.
    pub fn message(&self) -> (text: &'static str)
        ensures
            text@ == match self {
                PortalRejection::HashingFailed => "Hashing failed"@,
                PortalRejection::EmailTaken => "Email already exists"@,
                PortalRejection::DatabaseError => "Database error"@,
                PortalRejection::InvalidCredentials => "Invalid credentials"@,
                PortalRejection::CorruptPasswordHash => "Stored password hash is corrupt"@,
                PortalRejection::TokenGenerationFailed => "Token generation failed"@,
                PortalRejection::MissingAuthorization => "Missing Authorization header"@,
                PortalRejection::SessionInvalid => "Session expired or invalid"@,
            },
    {
        match self {
            PortalRejection::HashingFailed => "Hashing failed",
            PortalRejection::EmailTaken => "Email already exists",
            PortalRejection::DatabaseError => "Database error",
            PortalRejection::InvalidCredentials => "Invalid credentials",
            PortalRejection::CorruptPasswordHash => "Stored password hash is corrupt",
            PortalRejection::TokenGenerationFailed => "Token generation failed",
            PortalRejection::MissingAuthorization => "Missing Authorization header",
            PortalRejection::SessionInvalid => "Session expired or invalid",
        }
    }
}

/// Hashes a registering user's password with Argon2 and a fresh random salt.
/// A hash returned is one that logs the same password in.
pub fn hash_registration_password(request: &RegisterRequest) -> (phc: Result<String, PortalRejection>)
    ensures
        phc matches Ok(h) ==> phc_parses(h@) && argon2_accepts(request.password@, h@),
        phc matches Err(e) ==> e == PortalRejection::HashingFailed,
{
    let salt = fresh_salt();
    match argon2_hash(request.password.as_str(), &salt) {
        Some(h) => Ok(h),
        None => Err(PortalRejection::HashingFailed),
    }
}

/// Answers a registration once the user row was (or failed to be) inserted;
/// a failed insert means the email is taken.
pub fn registration_reply(inserted: bool) -> (reply: Result<(u16, &'static str), PortalRejection>)
    ensures
        inserted ==> (reply matches Ok(r) && r.0 == 201 && r.1@ == "User registered successfully"@),
        !inserted ==> reply == Err::<(u16, &'static str), PortalRejection>(PortalRejection::EmailTaken),
{
    if inserted {
        Ok((201, "User registered successfully"))
    } else {
        Err(PortalRejection::EmailTaken)
    }
}

/// The tier a session carries: the user's tier, or `"free"` when none is set.
pub open spec fn tier_or_free(tier_id: Option<String>) -> Seq<char> {
    match tier_id {
        Some(t) => t@,
        None => "free"@,
    }
}

/// The outcome of a login, stated: a failed lookup is a database error, an
/// unknown email or a password the stored hash rejects are invalid
/// credentials, and an accepted password yields claims for one day from `now`.
pub open spec fn login_accepts(lookup: UserLookup, request: LoginRequest, now: u64, claims: Result<Claims, PortalRejection>) -> bool {
    match lookup {
        UserLookup::Failed => claims == Err::<Claims, PortalRejection>(PortalRejection::DatabaseError),
        UserLookup::Missing => claims == Err::<Claims, PortalRejection>(PortalRejection::InvalidCredentials),
        UserLookup::Found(record) => if argon2_accepts(request.password@, record.password_hash@) {
            &&& claims matches Ok(c)
            &&& c.sub == record.id
            &&& c.email@ == request.email@
            &&& c.tier@ == tier_or_free(record.tier_id)
            &&& c.exp == now + SESSION_LIFETIME_SECS
        } else {
            claims == Err::<Claims, PortalRejection>(PortalRejection::InvalidCredentials)
        },
    }
}

/// A login succeeds only for a known user whose stored hash accepts the
/// password, and its claims are that user's: the user's id, the email the
/// login gave, the user's tier (`free` when none is set), and an expiry
/// exactly one day (86400 seconds) after `now`. A rejected password is
/// answered "invalid credentials", never a session.
pub proof fn lemma_login_claims_are_the_users(
    lookup: UserLookup,
    request: LoginRequest,
    now: u64,
    outcome: Result<Claims, PortalRejection>,
)
    requires
        login_accepts(lookup, request, now, outcome),
    ensures
        outcome matches Ok(c) ==> (lookup matches UserLookup::Found(record) && argon2_accepts(
            request.password@,
            record.password_hash@,
        ) && c.sub == record.id && c.email@ == request.email@ && c.exp == now + 86400 && (match record.tier_id {
            Some(t) => c.tier@ == t@,
            None => c.tier@ =~= seq!['f', 'r', 'e', 'e'],
        })),
        (lookup matches UserLookup::Found(record) && !argon2_accepts(request.password@, record.password_hash@))
            ==> outcome == Err::<Claims, PortalRejection>(PortalRejection::InvalidCredentials),
        lookup is Missing ==> outcome == Err::<Claims, PortalRejection>(PortalRejection::InvalidCredentials),
        lookup is Failed ==> outcome == Err::<Claims, PortalRejection>(PortalRejection::DatabaseError),
{
    reveal_strlit("free");
}

/// Checks a login against the user's record; `now` is the current Unix time in seconds.
pub fn check_login(lookup: UserLookup, request: LoginRequest, now: u64) -> (claims: Result<Claims, PortalRejection>)
    requires
        lookup matches UserLookup::Found(r) ==> phc_parses(r.password_hash@),
        now <= u64::MAX - SESSION_LIFETIME_SECS,
    ensures
        login_accepts(lookup, request, now, claims),
{
    match lookup {
        UserLookup::Failed => Err(PortalRejection::DatabaseError),
        UserLookup::Missing => Err(PortalRejection::InvalidCredentials),
        UserLookup::Found(record) => {
            if !argon2_verify(request.password.as_str(), record.password_hash.as_str()) {
                return Err(PortalRejection::InvalidCredentials);
            }
            let tier = match record.tier_id {
                Some(t) => t,
                None => "free".to_owned(),
            };
            Ok(
                Claims {
                    sub: record.id,
                    email: request.email,
                    tier,
                    exp: now + SESSION_LIFETIME_SECS,
                },
            )
        },
    }
}

/// Checks a login as `check_login` does, after first making sure the stored
/// hash parses; a hash that does not is refused as corrupt.
pub fn try_check_login(lookup: UserLookup, request: LoginRequest, now: u64) -> (claims: Result<Claims, PortalRejection>)
    requires
        now <= u64::MAX - SESSION_LIFETIME_SECS,
    ensures
        (lookup matches UserLookup::Found(r) && !phc_parses(r.password_hash@)) ==> claims
            == Err::<Claims, PortalRejection>(PortalRejection::CorruptPasswordHash),
        !(lookup matches UserLookup::Found(r) && !phc_parses(r.password_hash@)) ==> login_accepts(
            lookup,
            request,
            now,
            claims,
        ),
{
    let parses = match &lookup {
        UserLookup::Found(record) => password_hash_parses(record.password_hash.as_str()),
        _ => true,
    };
    if !parses {
        return Err(PortalRejection::CorruptPasswordHash);
    }
    check_login(lookup, request, now)
}

/// Answers a login once its token was (or failed to be) signed.
pub fn login_response(token: Option<String>) -> (response: Result<LoginResponse, PortalRejection>)
    ensures
        match token {
            Some(t) => (response matches Ok(r) && r.token@ == t@ && r.message@ == "Login successful"@),
            None => response == Err::<LoginResponse, PortalRejection>(
                PortalRejection::TokenGenerationFailed,
            ),
        },
{
    match token {
        Some(t) => Ok(LoginResponse { token: t, message: "Login successful".to_owned() }),
        None => Err(PortalRejection::TokenGenerationFailed),
    }
}

/// The session token an `Authorization` header presents: every leading
/// `"Bearer "` removed, then surrounding whitespace trimmed. An absent header
/// (or one that is not text) is refused.
pub fn session_token(header: Option<&str>) -> (token: Result<String, PortalRejection>)
    ensures
        match header {
            None => token == Err::<String, PortalRejection>(PortalRejection::MissingAuthorization),
            Some(h) => (token matches Ok(t) && t@ == trim_spec(trim_start_matches_spec(h@, "Bearer "@))),
        },
{
    match header {
        None => Err(PortalRejection::MissingAuthorization),
        Some(h) => {
            proof {
                reveal_strlit("Bearer ");
            }
            Ok(trim(trim_start_matches(h, "Bearer ")).to_owned())
        },
    }
}

/// A password that registration hashed logs in: whatever hash registration
/// returned for it, a login with the same password against a record holding
/// that hash yields the user's claims.
pub proof fn lemma_registered_password_logs_in(
    registered: RegisterRequest,
    phc: String,
    record: UserRecord,
    login: LoginRequest,
    now: u64,
)
    requires
        phc_parses(phc@) && argon2_accepts(registered.password@, phc@),
        record.password_hash@ == phc@,
        login.password@ == registered.password@,
    ensures
        phc_parses(record.password_hash@),
        forall|outcome: Result<Claims, PortalRejection>|
            #[trigger] login_accepts(UserLookup::Found(record), login, now, outcome) ==> (outcome matches Ok(
                c,
            ) && c.sub == record.id && c.email@ == login.email@),
{
}

} // verus!
