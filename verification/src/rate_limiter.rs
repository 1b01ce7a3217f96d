//! Decisions of the semantic rate-limiting middleware around the token bucket.

use vstd::prelude::*;
use crate::text::join;

verus! {

/// Largest request body, in bytes, the limiter reads before refusing.
pub const MAX_BODY_SIZE: usize = 10 * 1024 * 1024;

/// Milliseconds the limiter waits for a store connection.
pub const STORE_TIMEOUT_MS: u64 = 50;

/// Seconds a bucket survives in the store after its last use.
pub const BUCKET_TTL_SECS: u64 = 86400;

/// Prefix of every bucket's store key.
pub open spec fn bucket_key_prefix() -> Seq<char> {
    "fluxgate:rate_limit:"@
}

/// Store key of the bucket that belongs to `identifier` (a key hash).
pub fn bucket_key(identifier: &str) -> (key: String)
    ensures
        key@ == bucket_key_prefix() + identifier@,
{
    join("fluxgate:rate_limit:", identifier)
}

/// How the limiter answers a request.
#[derive(Clone, Copy, Debug, PartialEq, Eq)]
pub enum LimiterReply {
    /// Pass the request on, tagged with its estimated cost in milli-tokens.
    Forward { cost: u64 },
    /// The body could not be read within the size limit.
    PayloadTooLarge,
    /// The bucket store could not be reached in time.
    StoreUnavailable,
    /// The bucket does not hold enough tokens.
    TooManyRequests,
}

impl LimiterReply {
    /// The HTTP status of a refusal (`None` when the request passes on).
    pub fn status(&self) -> (code: Option<u16>)
        ensures
            code == match self {
                LimiterReply::Forward { .. } => None,
                LimiterReply::PayloadTooLarge => Some(413u16),
                LimiterReply::StoreUnavailable => Some(503u16),
                LimiterReply::TooManyRequests => Some(429u16),
            },
    {
        match self {
            LimiterReply::Forward { .. } => None,
            LimiterReply::PayloadTooLarge => Some(413),
            LimiterReply::StoreUnavailable => Some(503),
            LimiterReply::TooManyRequests => Some(429),
        }
    }

    /// The body of a refusal (empty where none is sent).
    pub fn message(&self) -> (text: &'static str)
        ensures
            text@ == match self {
                LimiterReply::StoreUnavailable => "Rate Limiter Offline"@,
                _ => ""@,
            },
    {
        match self {
            LimiterReply::StoreUnavailable => "Rate Limiter Offline",
            _ => "",
        }
    }
}

/// The limiter's answer once the bucket was consulted: the request passes
/// only when the bucket admitted it; a failed bucket update (`None`) denies it.
pub fn limiter_reply(cost: u64, admitted: Option<bool>) -> (reply: LimiterReply)
    ensures
        admitted == Some(true) ==> reply == (LimiterReply::Forward { cost }),
        admitted != Some(true) ==> reply == LimiterReply::TooManyRequests,
{
    match admitted {
        Some(true) => LimiterReply::Forward { cost },
        _ => LimiterReply::TooManyRequests,
    }
}

} // verus!
