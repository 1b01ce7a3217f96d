//! The control plane: issuing API keys, overriding a bucket, and reading
//! bucket identifiers back out of store keys.

use vstd::prelude::*;
use crate::auth::{api_key_hash, bearer_prefix, bearer_token_spec, key_hash_spec};
use crate::digest::{is_ascii_alphanumeric_spec, random_alphanumeric};
use crate::rate_limiter::bucket_key_prefix;
use crate::text::{
    contains_spec, is_whitespace_spec, join, remove_all, remove_all_spec, starts_with_spec,
    trim_end_spec, trim_spec, trim_start_matches_spec, trim_start_spec,
};
use crate::token_bucket::{admission, stored_of, BucketLimits, BucketRecord};

verus! {

/// Characters of random secret in an issued key.
pub const SECRET_LEN: usize = 32;

/// Characters of an issued key kept in clear as its display prefix.
pub const KEY_PREFIX_LEN: usize = 15;

pub open spec fn live_key_marker() -> Seq<char> {
    "sk_live_"@
}

/// A freshly issued API key: the cleartext handed out once, the prefix kept
/// for display and the hash kept for authentication.
#[derive(Clone, Debug)]
pub struct ProvisionedKey {
    pub api_key: String,
    pub key_prefix: String,
    pub key_hash: String,
}

/// `key` is the key issued for `secret`.
pub open spec fn provisioned_from(secret: Seq<char>, key: ProvisionedKey) -> bool {
    let cleartext = live_key_marker() + secret;
    &&& key.api_key@ == cleartext
    &&& key.key_prefix@ == cleartext.take(
        if cleartext.len() < KEY_PREFIX_LEN { cleartext.len() as int } else { KEY_PREFIX_LEN as int },
    )
    &&& key.key_hash@ == key_hash_spec(cleartext)
}

/// A secret fit for a key: 32 ASCII letters and digits.
pub open spec fn is_key_secret(secret: Seq<char>) -> bool {
    &&& secret.len() == SECRET_LEN
    &&& forall|i: int| 0 <= i < secret.len() ==> is_ascii_alphanumeric_spec(#[trigger] secret[i])
}

/// Builds the key for a given secret: `"sk_live_"` and the secret, its first
/// fifteen characters, and the hex SHA-256 of the whole.
pub fn provision_from_secret(secret: &str) -> (key: ProvisionedKey)
    ensures
        provisioned_from(secret@, key),
{
    let api_key = join("sk_live_", secret);
    let n = api_key.as_str().unicode_len();
    let shown = if n < KEY_PREFIX_LEN { n } else { KEY_PREFIX_LEN };
    let key_prefix = api_key.as_str().substring_char(0, shown).to_owned();
    let key_hash = api_key_hash(api_key.as_str());
    ProvisionedKey { api_key, key_prefix, key_hash }
}

/// Issues a new API key from 32 random ASCII letters and digits.
pub fn provision_api_key() -> (key: ProvisionedKey)
    ensures
        exists|secret: Seq<char>| is_key_secret(secret) && provisioned_from(secret, key),
{
    let secret = random_alphanumeric(SECRET_LEN);
    let key = provision_from_secret(secret.as_str());
    assert(is_key_secret(secret@) && provisioned_from(secret@, key));
    key
}

/// The request body of key issuance: the owner's id.
#[derive(Clone, Copy, Debug)]
pub struct GenerateKeyRequest {
    pub user_id: u128,
}

/// The response body of key issuance.
#[derive(Clone, Debug)]
pub struct GenerateKeyResponse {
    pub user_id: u128,
    pub api_key: String,
    pub message: String,
}

/// Answers key issuance once the key's hash and prefix were (or failed to be)
/// stored: on success the cleartext key with a warning, else a 500 refusal.
pub fn key_issued_response(request: GenerateKeyRequest, key: ProvisionedKey, stored: bool) -> (response: Result<
    GenerateKeyResponse,
    (u16, String),
>)
    ensures
        stored ==> (response matches Ok(r) && r.user_id == request.user_id && r.api_key@
            == key.api_key@ && r.message@
            == "CRITICAL: Store this API key immediately. It cannot be recovered."@),
        !stored ==> (response matches Err(e) && e.0 == 500 && e.1@
            == "Failed to provision credentials"@),
{
    if stored {
        Ok(
            GenerateKeyResponse {
                user_id: request.user_id,
                api_key: key.api_key,
                message: "CRITICAL: Store this API key immediately. It cannot be recovered.".to_owned(),
            },
        )
    } else {
        Err((500, "Failed to provision credentials".to_owned()))
    }
}

/// An issued key is 40 characters: `sk_live_` followed by the whole secret;
/// its display prefix is its first 15 characters (the marker and the first
/// 7 characters of the secret), so the remaining 25 secret characters are
/// never stored in clear.
pub proof fn lemma_issued_key_shape(secret: Seq<char>, key: ProvisionedKey)
    requires
        is_key_secret(secret),
        provisioned_from(secret, key),
    ensures
        key.api_key@.len() == 40,
        key.api_key@.take(8) =~= seq!['s', 'k', '_', 'l', 'i', 'v', 'e', '_'],
        key.api_key@.skip(8) =~= secret,
        key.key_prefix@ =~= key.api_key@.take(15),
        key.key_prefix@ =~= seq!['s', 'k', '_', 'l', 'i', 'v', 'e', '_'] + secret.take(7),
{
    reveal_strlit("sk_live_");
    assert(live_key_marker() =~= seq!['s', 'k', '_', 'l', 'i', 'v', 'e', '_']);
}

/// A key issued from any fit secret authenticates: sent as `"Bearer <key>"`
/// it passes the header check and hashes to the stored key hash.
pub proof fn lemma_issued_key_authenticates(secret: Seq<char>, key: ProvisionedKey)
    requires
        is_key_secret(secret),
        provisioned_from(secret, key),
    ensures
        starts_with_spec(bearer_prefix() + key.api_key@, bearer_prefix()),
        bearer_token_spec(bearer_prefix() + key.api_key@) == key.api_key@,
        key_hash_spec(bearer_token_spec(bearer_prefix() + key.api_key@)) == key.key_hash@,
{
    reveal_strlit("Bearer ");
    reveal_strlit("sk_live_");
    let k = key.api_key@;
    let header = bearer_prefix() + k;
    assert(header.take(7) =~= bearer_prefix());
    assert(header.skip(7) =~= k);
    assert(k[0] == 's');
    assert(k.take(7)[0] == 's');
    assert(k.take(7) != bearer_prefix());
    assert(trim_start_matches_spec(k, bearer_prefix()) == k);
    assert(trim_start_matches_spec(header, bearer_prefix()) == k);
    assert(!is_whitespace_spec(k[0]));
    assert(trim_start_spec(k) == k);
    assert(k.last() == secret[31]);
    assert(is_ascii_alphanumeric_spec(secret[31]));
    assert(!is_whitespace_spec(k.last()));
    assert(trim_end_spec(k) == k);
}

/// The bucket an override installs: full at the new capacity, refilled now.
pub fn override_bucket(limits: BucketLimits, now: u64) -> (record: BucketRecord)
    ensures
        record.tokens == limits.capacity,
        record.last_refill == now,
        record.capacity == limits.capacity,
        record.refill_rate == limits.refill_rate,
{
    BucketRecord {
        tokens: limits.capacity,
        last_refill: now,
        capacity: limits.capacity,
        refill_rate: limits.refill_rate,
    }
}

/// Right after an override, any request that fits the new capacity is admitted.
pub proof fn lemma_override_admits_within_capacity(limits: BucketLimits, now: u64, later: u64, cost: u64)
    requires
        now <= later,
        cost <= limits.capacity,
    ensures
        ({
            let record = BucketRecord {
                tokens: limits.capacity,
                last_refill: now,
                capacity: limits.capacity,
                refill_rate: limits.refill_rate,
            };
            admission(stored_of(record), limits, cost, later).permitted
        }),
{
}

/// How an override of a bucket ended.
#[derive(Clone, Copy, Debug, PartialEq, Eq)]
pub enum OverrideOutcome {
    /// No store connection within the timeout.
    StoreUnavailable,
    /// The bucket was rewritten.
    Stored,
    /// The store refused the rewrite.
    StoreFailed,
}

/// The status and body that answer an override.
pub fn override_reply(outcome: OverrideOutcome) -> (reply: (u16, &'static str))
    ensures
        match outcome {
            OverrideOutcome::StoreUnavailable => reply.0 == 503 && reply.1@
                == "Control Plane Offline"@,
            OverrideOutcome::Stored => reply.0 == 200 && reply.1@
                == "Gateway rules overridden in Cache.\n"@,
            OverrideOutcome::StoreFailed => reply.0 == 500 && reply.1@ == "Failed to update cache"@,
        },
{
    match outcome {
        OverrideOutcome::StoreUnavailable => (503, "Control Plane Offline"),
        OverrideOutcome::Stored => (200, "Gateway rules overridden in Cache.\n"),
        OverrideOutcome::StoreFailed => (500, "Failed to update cache"),
    }
}

/// The identifier a metrics snapshot lists for a bucket's store key: the key
/// with every occurrence of the bucket prefix removed.
pub fn metrics_identifier(key: &str) -> (identifier: String)
    ensures
        identifier@ == remove_all_spec(key@, bucket_key_prefix()),
{
    proof {
        reveal_strlit("fluxgate:rate_limit:");
    }
    remove_all(key, "fluxgate:rate_limit:")
}

/// A text free of `pat` is left unchanged when `pat` is removed from it.
proof fn lemma_remove_absent(s: Seq<char>, pat: Seq<char>)
    requires
        pat.len() > 0,
        !contains_spec(s, pat),
    ensures
        remove_all_spec(s, pat) == s,
    decreases s.len(),
{
    if s.len() > 0 {
        assert(!(s.len() >= pat.len() && s.take(pat.len() as int) == pat)) by {
            if s.len() >= pat.len() && s.take(pat.len() as int) == pat {
                assert(s.subrange(0int, 0int + pat.len()) == pat);
            }
        }
        let rest = s.drop_first();
        assert(!contains_spec(rest, pat)) by {
            if contains_spec(rest, pat) {
                let i = choose|i: int| 0 <= i <= rest.len() - pat.len() && #[trigger] rest.subrange(i, i + pat.len()) == pat;
                assert(s.subrange(i + 1, i + 1 + pat.len()) =~= rest.subrange(i, i + pat.len()));
            }
        }
        lemma_remove_absent(rest, pat);
        assert(remove_all_spec(s, pat) == seq![s[0]] + remove_all_spec(rest, pat));
        assert(seq![s[0]] + rest =~= s);
    }
}

/// Reading a bucket key back gives the identifier it was made for, provided
/// the identifier does not itself contain the bucket prefix.
pub proof fn lemma_metrics_identifier_round_trip(identifier: Seq<char>)
    requires
        !contains_spec(identifier, bucket_key_prefix()),
    ensures
        remove_all_spec(bucket_key_prefix() + identifier, bucket_key_prefix()) == identifier,
{
    reveal_strlit("fluxgate:rate_limit:");
    let p = bucket_key_prefix();
    let key = p + identifier;
    assert(key.take(p.len() as int) =~= p);
    assert(key.skip(p.len() as int) =~= identifier);
    lemma_remove_absent(identifier, p);
}

} // verus!
