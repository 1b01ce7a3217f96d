//! API-key authentication: bearer-token extraction, key hashing, cache keys
//! and the decision on a key's database record.

use vstd::prelude::*;
use crate::digest::{hex_encode, hex_text, sha256, sha256_digest};
use vstd::utf8::encode_utf8;
use crate::text::{
    is_whitespace_spec, join, same_text, starts_with, starts_with_spec, trim, trim_spec,
    trim_start_matches, trim_start_matches_spec,
};
use crate::token_bucket::BucketLimits;

verus! {

/// Seconds a cached identity stays in the store.
pub const IDENTITY_CACHE_TTL_SECS: u64 = 300;

/// Seconds the last-used telemetry stamp of a key stays in the store.
pub const TELEMETRY_TTL_SECS: u64 = 86400;

/// The scheme prefix of an `Authorization` header that carries an API key.
pub open spec fn bearer_prefix() -> Seq<char> {
    "Bearer "@
}

/// The key hash stored for a cleartext key: lowercase hex of its SHA-256 digest.
pub open spec fn key_hash_spec(token: Seq<char>) -> Seq<char> {
    hex_text(sha256_digest(encode_utf8(token)))
}

/// The token a bearer header carries: every leading `"Bearer "` removed,
/// then surrounding whitespace trimmed.
pub open spec fn bearer_token_spec(header: Seq<char>) -> Seq<char> {
    trim_spec(trim_start_matches_spec(header, bearer_prefix()))
}

/// Why a request was refused before it reached the rate limiter.
#[derive(Clone, Copy, Debug, PartialEq, Eq)]
pub enum AuthRejection {
    /// No `Authorization` header.
    MissingApiKey,
    /// The header does not start with `"Bearer "`.
    MalformedBearer,
    /// The identity store could not be reached in time.
    StoreUnavailable,
    /// The key exists but is not active.
    Revoked,
    /// No key has this hash.
    InvalidKey,
    /// The database lookup failed.
    LookupFailed,
}

impl AuthRejection {
    /// The HTTP status that answers this rejection.
    pub fn status(&self) -> (code: u16)
        ensures
            code == match self {
                AuthRejection::MissingApiKey => 401u16,
                AuthRejection::MalformedBearer => 401u16,
                AuthRejection::StoreUnavailable => 503u16,
                AuthRejection::Revoked => 403u16,
                AuthRejection::InvalidKey => 401u16,
                AuthRejection::LookupFailed => 500u16,
            },
    {
        match self {
            AuthRejection::MissingApiKey => 401,
            AuthRejection::MalformedBearer => 401,
            AuthRejection::StoreUnavailable => 503,
            AuthRejection::Revoked => 403,
            AuthRejection::InvalidKey => 401,
            AuthRejection::LookupFailed => 500,
        }
    }

    /// The response body that answers this rejection (empty for a failed lookup).
    pub fn message(&self) -> (text: &'static str)
        ensures
            text@ == match self {
                AuthRejection::MissingApiKey => "Missing API Key"@,
                AuthRejection::MalformedBearer => "Malformed Bearer Token"@,
                AuthRejection::StoreUnavailable => "Auth subsystem degraded"@,
                AuthRejection::Revoked => "API Key Revoked"@,
                AuthRejection::InvalidKey => "Invalid API Key"@,
                AuthRejection::LookupFailed => ""@,
            },
    {
        match self {
            AuthRejection::MissingApiKey => "Missing API Key",
            AuthRejection::MalformedBearer => "Malformed Bearer Token",
            AuthRejection::StoreUnavailable => "Auth subsystem degraded",
            AuthRejection::Revoked => "API Key Revoked",
            AuthRejection::InvalidKey => "Invalid API Key",
            AuthRejection::LookupFailed => "",
        }
    }
}

/// Extracts the API key from an `Authorization` header's text (`None` when
/// the header is absent; a header whose value is not text counts as empty).
pub fn bearer_token(header: Option<&str>) -> (token: Result<String, AuthRejection>)
    ensures
        match header {
            None => token == Err::<String, AuthRejection>(AuthRejection::MissingApiKey),
            Some(h) => if starts_with_spec(h@, bearer_prefix()) {
                (token matches Ok(t) && t@ == bearer_token_spec(h@))
            } else {
                token == Err::<String, AuthRejection>(AuthRejection::MalformedBearer)
            },
        },
{
    match header {
        None => Err(AuthRejection::MissingApiKey),
        Some(h) => {
            if !starts_with(h, "Bearer ") {
                return Err(AuthRejection::MalformedBearer);
            }
            proof {
                reveal_strlit("Bearer ");
            }
            let stripped = trim_start_matches(h, "Bearer ");
            Ok(trim(stripped).to_owned())
        },
    }
}

/// A header of `"Bearer "` followed by a key of ASCII letters and digits
/// carries exactly that key, every character of it and nothing more; the
/// scheme is matched as written, so the same key after a lowercase
/// `"bearer "` is a malformed header.
pub proof fn lemma_bearer_header_carries_its_key(key: Seq<char>)
    requires
        key.len() > 0,
        forall|i: int|
            0 <= i < key.len() ==> {
                let v = (#[trigger] key[i]) as u32;
                (48 <= v <= 57) || (65 <= v <= 90) || (97 <= v <= 122)
            },
    ensures
        starts_with_spec("Bearer "@ + key, bearer_prefix()),
        bearer_token_spec("Bearer "@ + key) == key,
        !starts_with_spec("bearer "@ + key, bearer_prefix()),
{
    reveal_strlit("Bearer ");
    reveal_strlit("bearer ");
    let header = "Bearer "@ + key;
    let pat = bearer_prefix();
    assert(header.take(7) =~= pat);
    assert(header.skip(7) =~= key);
    if key.len() >= 7 {
        assert(key.take(7)[6] == key[6]);
        assert(key.take(7) != pat);
    }
    assert(trim_start_matches_spec(key, pat) == key);
    assert(trim_start_matches_spec(header, pat) == key);
    assert(!is_whitespace_spec(key[0]));
    assert(!is_whitespace_spec(key.last()));
    assert(trim_spec(key) == key);
    assert(("bearer "@ + key).take(7)[0] != pat[0]);
}

/// The stored hash of a cleartext API key: lowercase hex of its SHA-256 digest.
pub fn api_key_hash(token: &str) -> (hash: String)
    ensures
        hash@ == key_hash_spec(token@),
{
    let digest = sha256(token.as_bytes());
    hex_encode(digest.as_slice())
}

/// Store key under which an authenticated identity is cached.
pub fn identity_cache_key(key_hash: &str) -> (key: String)
    ensures
        key@ == "fluxgate:auth:"@ + key_hash@,
{
    join("fluxgate:auth:", key_hash)
}

/// Store key of the last-used telemetry stamp of a key.
pub fn telemetry_key(key_hash: &str) -> (key: String)
    ensures
        key@ == "fluxgate:telemetry:last_used:"@ + key_hash@,
{
    join("fluxgate:telemetry:last_used:", key_hash)
}

/// The identity an authenticated request carries to the rate limiter.
/// Capacity is in milli-tokens, the refill rate in milli-tokens per second.
#[derive(Clone, Debug)]
pub struct AuthenticatedIdentity {
    pub key_prefix: String,
    pub key_hash: String,
    pub capacity: u64,
    pub refill_rate: u64,
}

impl AuthenticatedIdentity {
    /// The bucket limits this identity's tier grants.
    pub fn limits(&self) -> (limits: BucketLimits)
        ensures
            limits.capacity == self.capacity,
            limits.refill_rate == self.refill_rate,
    {
        BucketLimits { capacity: self.capacity, refill_rate: self.refill_rate }
    }
}

/// The database row of an API key joined with its owner's tier.
#[derive(Clone, Debug)]
pub struct KeyRecord {
    pub key_prefix: String,
    pub status: Option<String>,
    pub capacity: u64,
    pub refill_rate: u64,
}

/// What the database lookup of a key hash gave.
#[derive(Clone, Debug)]
pub enum KeyLookup {
    Found(KeyRecord),
    Missing,
    Failed,
}

/// A key is usable exactly when its status is the text `"active"`.
pub open spec fn is_active(status: Option<String>) -> bool {
    status matches Some(s) && s@ == "active"@
}

/// Only the exact status text `active` makes a key usable: a key with no
/// status, or with any other status (another case, extra spaces, `revoked`),
/// is not active, and so is refused as revoked.
pub proof fn lemma_only_active_status_admits(status: Option<String>)
    ensures
        is_active(status) ==> status is Some,
        status matches Some(s) ==> (is_active(status) <==> s@ =~= seq!['a', 'c', 't', 'i', 'v', 'e']),
{
    reveal_strlit("active");
    assert("active"@ =~= seq!['a', 'c', 't', 'i', 'v', 'e']);
}

/// Decides a key lookup: an active key becomes the request's identity,
/// an inactive one is revoked, a missing one invalid, a failed lookup an error.
pub fn identity_from_lookup(lookup: KeyLookup, key_hash: String) -> (identity: Result<
    AuthenticatedIdentity,
    AuthRejection,
>)
    ensures
        match lookup {
            KeyLookup::Failed => identity == Err::<AuthenticatedIdentity, AuthRejection>(
                AuthRejection::LookupFailed,
            ),
            KeyLookup::Missing => identity == Err::<AuthenticatedIdentity, AuthRejection>(
                AuthRejection::InvalidKey,
            ),
            KeyLookup::Found(record) => if is_active(record.status) {
                (identity matches Ok(id) && id.key_prefix@ == record.key_prefix@ && id.key_hash@
                    == key_hash@ && id.capacity == record.capacity && id.refill_rate
                    == record.refill_rate)
            } else {
                identity == Err::<AuthenticatedIdentity, AuthRejection>(AuthRejection::Revoked)
            },
        },
{
    match lookup {
        KeyLookup::Failed => Err(AuthRejection::LookupFailed),
        KeyLookup::Missing => Err(AuthRejection::InvalidKey),
        KeyLookup::Found(record) => {
            let active = match &record.status {
                Some(s) => same_text(s.as_str(), "active"),
                None => false,
            };
            if !active {
                return Err(AuthRejection::Revoked);
            }
            Ok(
                AuthenticatedIdentity {
                    key_prefix: record.key_prefix,
                    key_hash,
                    capacity: record.capacity,
                    refill_rate: record.refill_rate,
                },
            )
        },
    }
}


/// What the authentication guard does next.
#[derive(Debug)]
pub enum AuthStep {
    /// Answer the request with this refusal.
    Refuse(AuthRejection),
    /// Look the key up in the identity cache under `cache_key`.
    ReadCache { key_hash: String, cache_key: String },
    /// Look the key up in the database by its hash.
    QueryDatabase { key_hash: String },
    /// Let the request through as `identity`; first cache it under
    /// `cache_write` when given, and stamp its last use under `telemetry_key`.
    Admit { identity: AuthenticatedIdentity, cache_write: Option<String>, telemetry_key: String },
}

/// The guard's first step from the `Authorization` header: refuse a missing
/// or malformed header, else look the key's hash up in the cache.
pub fn auth_start(header: Option<&str>) -> (step: AuthStep)
    ensures
        match header {
            None => step == AuthStep::Refuse(AuthRejection::MissingApiKey),
            Some(h) => if starts_with_spec(h@, bearer_prefix()) {
                (step matches AuthStep::ReadCache { key_hash, cache_key } && key_hash@ == key_hash_spec(
                    bearer_token_spec(h@),
                ) && cache_key@ == "fluxgate:auth:"@ + key_hash@)
            } else {
                step == AuthStep::Refuse(AuthRejection::MalformedBearer)
            },
        },
{
    match bearer_token(header) {
        Err(r) => AuthStep::Refuse(r),
        Ok(token) => {
            let key_hash = api_key_hash(token.as_str());
            let cache_key = identity_cache_key(key_hash.as_str());
            AuthStep::ReadCache { key_hash, cache_key }
        },
    }
}

/// After the cache read: a cached identity is admitted as it is (nothing to
/// re-cache), a miss goes to the database.
pub fn auth_after_cache(key_hash: String, cached: Option<AuthenticatedIdentity>) -> (step: AuthStep)
    ensures
        match cached {
            Some(identity) => (step matches AuthStep::Admit { identity: admitted, cache_write, telemetry_key }
                && admitted == identity && cache_write is None && telemetry_key@
                == "fluxgate:telemetry:last_used:"@ + identity.key_hash@),
            None => (step matches AuthStep::QueryDatabase { key_hash: k } && k@ == key_hash@),
        },
{
    match cached {
        Some(identity) => {
            let telemetry_key = telemetry_key(identity.key_hash.as_str());
            AuthStep::Admit { identity, cache_write: None, telemetry_key }
        },
        None => AuthStep::QueryDatabase { key_hash },
    }
}

/// After the database lookup: an active key is admitted and cached under its
/// cache key; otherwise the lookup's refusal answers the request.
pub fn auth_after_lookup(key_hash: String, lookup: KeyLookup) -> (step: AuthStep)
    ensures
        match lookup {
            KeyLookup::Failed => step == AuthStep::Refuse(AuthRejection::LookupFailed),
            KeyLookup::Missing => step == AuthStep::Refuse(AuthRejection::InvalidKey),
            KeyLookup::Found(record) => if is_active(record.status) {
                (step matches AuthStep::Admit { identity, cache_write, telemetry_key }
                    && identity.key_prefix@ == record.key_prefix@ && identity.key_hash@ == key_hash@
                    && identity.capacity == record.capacity && identity.refill_rate
                    == record.refill_rate && cache_write is Some && cache_write.unwrap()@ == "fluxgate:auth:"@
                    + key_hash@ && telemetry_key@ == "fluxgate:telemetry:last_used:"@ + key_hash@)
            } else {
                step == AuthStep::Refuse(AuthRejection::Revoked)
            },
        },
{
    let cache_key = identity_cache_key(key_hash.as_str());
    let stamp_key = telemetry_key(key_hash.as_str());
    match identity_from_lookup(lookup, key_hash) {
        Err(r) => AuthStep::Refuse(r),
        Ok(identity) => AuthStep::Admit { identity, cache_write: Some(cache_key), telemetry_key: stamp_key },
    }
}

} // verus!
