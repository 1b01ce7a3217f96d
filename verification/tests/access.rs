use fluxgate::admin::{
    key_issued_response, metrics_identifier, override_bucket, override_reply, provision_api_key,
    provision_from_secret, GenerateKeyRequest, OverrideOutcome,
};
use fluxgate::auth::{auth_after_cache, auth_after_lookup, auth_start, AuthStep};
use fluxgate::auth::{
    api_key_hash, bearer_token, identity_cache_key, identity_from_lookup, telemetry_key,
    AuthRejection, KeyLookup, KeyRecord,
};
use fluxgate::token_bucket::{admit_request, BucketLimits, StoredBucket};

#[test]
fn missing_header_is_refused() {
    assert_eq!(bearer_token(None), Err(AuthRejection::MissingApiKey));
    assert_eq!(AuthRejection::MissingApiKey.status(), 401);
    assert_eq!(AuthRejection::MissingApiKey.message(), "Missing API Key");
}

#[test]
fn non_bearer_header_is_malformed() {
    assert_eq!(bearer_token(Some("Token abc")), Err(AuthRejection::MalformedBearer));
    assert_eq!(bearer_token(Some("")), Err(AuthRejection::MalformedBearer));
    assert_eq!(bearer_token(Some("bearer abc")), Err(AuthRejection::MalformedBearer));
    assert_eq!(AuthRejection::MalformedBearer.message(), "Malformed Bearer Token");
}

#[test]
fn bearer_token_is_stripped_and_trimmed() {
    assert_eq!(bearer_token(Some("Bearer abc")).unwrap(), "abc");
    assert_eq!(bearer_token(Some("Bearer   abc \t")).unwrap(), "abc");
    assert_eq!(bearer_token(Some("Bearer Bearer abc")).unwrap(), "abc");
    assert_eq!(bearer_token(Some("Bearer \u{3000}abc\u{a0}")).unwrap(), "abc");
    assert_eq!(bearer_token(Some("Bearer ")).unwrap(), "");
}

#[test]
fn key_hash_is_hex_sha256() {
    assert_eq!(api_key_hash("abc"), "ba7816bf8f01cfea414140de5dae2223b00361a396177a9cb410ff61f20015ad");
    assert_eq!(api_key_hash(""), "e3b0c44298fc1c149afbf4c8996fb92427ae41e4649b934ca495991b7852b855");
}

#[test]
fn store_keys() {
    assert_eq!(identity_cache_key("ff"), "fluxgate:auth:ff");
    assert_eq!(telemetry_key("ff"), "fluxgate:telemetry:last_used:ff");
}

fn record(status: Option<&str>) -> KeyRecord {
    KeyRecord {
        key_prefix: "kp_0001".to_string(),
        status: status.map(|s| s.to_string()),
        capacity: 1_000_000,
        refill_rate: 10_000,
    }
}

#[test]
fn active_key_becomes_identity() {
    let id = identity_from_lookup(KeyLookup::Found(record(Some("active"))), "h".to_string()).unwrap();
    assert_eq!(id.key_prefix, "kp_0001");
    assert_eq!(id.key_hash, "h");
    assert_eq!(id.capacity, 1_000_000);
    assert_eq!(id.refill_rate, 10_000);
    let l = id.limits();
    assert_eq!(l.capacity, 1_000_000);
    assert_eq!(l.refill_rate, 10_000);
}

#[test]
fn inactive_key_is_revoked() {
    let r = identity_from_lookup(KeyLookup::Found(record(Some("revoked"))), "h".to_string());
    assert_eq!(r.unwrap_err(), AuthRejection::Revoked);
    let r = identity_from_lookup(KeyLookup::Found(record(None)), "h".to_string());
    assert_eq!(r.unwrap_err(), AuthRejection::Revoked);
    let r = identity_from_lookup(KeyLookup::Found(record(Some("Active"))), "h".to_string());
    assert_eq!(r.unwrap_err(), AuthRejection::Revoked);
    assert_eq!(AuthRejection::Revoked.status(), 403);
    assert_eq!(AuthRejection::Revoked.message(), "API Key Revoked");
}

#[test]
fn unknown_key_and_failed_lookup() {
    let r = identity_from_lookup(KeyLookup::Missing, "h".to_string());
    assert_eq!(r.unwrap_err(), AuthRejection::InvalidKey);
    assert_eq!(AuthRejection::InvalidKey.status(), 401);
    assert_eq!(AuthRejection::InvalidKey.message(), "Invalid API Key");
    let r = identity_from_lookup(KeyLookup::Failed, "h".to_string());
    assert_eq!(r.unwrap_err(), AuthRejection::LookupFailed);
    assert_eq!(AuthRejection::LookupFailed.status(), 500);
    assert_eq!(AuthRejection::StoreUnavailable.status(), 503);
    assert_eq!(AuthRejection::StoreUnavailable.message(), "Auth subsystem degraded");
}

/// The secret `A`..`Z` then `0`..`5`, built at run time.
fn letters_then_digits() -> String {
    ('A'..='Z').chain('0'..='5').collect()
}

#[test]
fn key_from_secret_has_marker_prefix_and_hash() {
    let secret = letters_then_digits();
    assert_eq!(secret.len(), 32);
    let key = provision_from_secret(&secret);
    assert_eq!(key.api_key, format!("{}{}", "sk_live", format!("_{}", secret)));
    assert_eq!(key.key_prefix, format!("{}{}", "sk_live", "_ABCDEFG"));
    assert_eq!(
        key.key_hash.as_str(),
        "ee0fd59f407df16545cc63a5df0534a5f412458b70f7f5a62c01bf97e4555c08"
    );
}

#[test]
fn short_secret_key_prefix_is_whole_key() {
    let short = provision_from_secret("xy");
    assert_eq!(short.api_key, format!("{}{}", "sk_live", "_xy"));
    assert_eq!(short.key_prefix, short.api_key);
}

#[test]
fn random_keys_are_well_formed_and_distinct() {
    let a = provision_api_key();
    let b = provision_api_key();
    assert!(a.api_key.starts_with(&format!("{}{}", "sk_live", "_")));
    assert_eq!(a.api_key.len(), 40);
    assert!(a.api_key[8..].chars().all(|c| c.is_ascii_alphanumeric()));
    assert_eq!(a.key_prefix.len(), 15);
    assert!(a.api_key.starts_with(&a.key_prefix));
    assert_eq!(a.key_hash.len(), 64);
    assert_ne!(a.api_key, b.api_key);
}

#[test]
fn issued_key_authenticates() {
    let key = provision_api_key();
    let header = format!("Bearer {}", key.api_key);
    let token = bearer_token(Some(&header)).unwrap();
    assert_eq!(token, key.api_key);
    assert_eq!(api_key_hash(&token), key.key_hash);
}

#[test]
fn issued_response_and_failure() {
    let key = provision_from_secret("abc");
    let ok = key_issued_response(GenerateKeyRequest { user_id: 7 }, key.clone(), true).unwrap();
    assert_eq!(ok.user_id, 7);
    assert_eq!(ok.api_key, format!("{}{}", "sk_live", "_abc"));
    assert_eq!(ok.message, "CRITICAL: Store this API key immediately. It cannot be recovered.");
    let err = key_issued_response(GenerateKeyRequest { user_id: 7 }, key, false).unwrap_err();
    assert_eq!(err, (500, "Failed to provision credentials".to_string()));
}

#[test]
fn override_fills_bucket_and_admits() {
    let l = BucketLimits { capacity: 20_000, refill_rate: 500 };
    let record = override_bucket(l, 1_234);
    assert_eq!(record.tokens, 20_000);
    assert_eq!(record.last_refill, 1_234);
    assert_eq!(record.capacity, 20_000);
    assert_eq!(record.refill_rate, 500);
    let v = admit_request(
        StoredBucket { tokens: Some(record.tokens), last_refill: Some(record.last_refill) },
        l,
        20_000,
        1_234,
    );
    assert!(v.permitted);
}

#[test]
fn override_replies() {
    assert_eq!(override_reply(OverrideOutcome::StoreUnavailable), (503, "Control Plane Offline"));
    assert_eq!(override_reply(OverrideOutcome::Stored), (200, "Gateway rules overridden in Cache.\n"));
    assert_eq!(override_reply(OverrideOutcome::StoreFailed), (500, "Failed to update cache"));
}

#[test]
fn metrics_identifier_strips_prefix() {
    assert_eq!(metrics_identifier("fluxgate:rate_limit:abc"), "abc");
    assert_eq!(metrics_identifier("fluxgate:rate_limit:a:fluxgate:rate_limit:b"), "a:b");
    assert_eq!(metrics_identifier("other"), "other");
    assert_eq!(metrics_identifier(&fluxgate::rate_limiter::bucket_key("xyz")), "xyz");
}

#[test]
fn guard_steps_follow_cache_then_database() {
    match auth_start(None) {
        AuthStep::Refuse(r) => assert_eq!(r, AuthRejection::MissingApiKey),
        other => panic!("unexpected {:?}", other),
    }
    match auth_start(Some("Basic x")) {
        AuthStep::Refuse(r) => assert_eq!(r, AuthRejection::MalformedBearer),
        other => panic!("unexpected {:?}", other),
    }
    let hash = match auth_start(Some("Bearer abc")) {
        AuthStep::ReadCache { key_hash, cache_key } => {
            assert_eq!(key_hash, api_key_hash("abc"));
            assert_eq!(cache_key, format!("fluxgate:auth:{}", key_hash));
            key_hash
        }
        other => panic!("unexpected {:?}", other),
    };
    match auth_after_cache(hash.clone(), None) {
        AuthStep::QueryDatabase { key_hash } => assert_eq!(key_hash, hash),
        other => panic!("unexpected {:?}", other),
    }
    match auth_after_lookup(hash.clone(), KeyLookup::Found(record(Some("active")))) {
        AuthStep::Admit { identity, cache_write, telemetry_key } => {
            assert_eq!(identity.key_hash, hash);
            assert_eq!(cache_write, Some(format!("fluxgate:auth:{}", hash)));
            assert_eq!(telemetry_key, format!("fluxgate:telemetry:last_used:{}", hash));
            match auth_after_cache(hash.clone(), Some(identity)) {
                AuthStep::Admit { cache_write, .. } => assert_eq!(cache_write, None),
                other => panic!("unexpected {:?}", other),
            }
        }
        other => panic!("unexpected {:?}", other),
    }
    match auth_after_lookup(hash.clone(), KeyLookup::Missing) {
        AuthStep::Refuse(r) => assert_eq!(r, AuthRejection::InvalidKey),
        other => panic!("unexpected {:?}", other),
    }
}
