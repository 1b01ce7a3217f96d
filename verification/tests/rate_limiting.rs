use fluxgate::rate_limiter::{bucket_key, limiter_reply, LimiterReply, MAX_BODY_SIZE};
use fluxgate::token_bucket::{
    admit_request, estimate_payload_tokens, BucketLimits, StoredBucket, BASE_TRANSACTION_COST,
};

fn limits(capacity: u64, refill_rate: u64) -> BucketLimits {
    BucketLimits { capacity, refill_rate }
}

#[test]
fn cost_of_unparsed_body_is_base() {
    assert_eq!(estimate_payload_tokens(None), 50_000);
    assert_eq!(BASE_TRANSACTION_COST, 50_000);
}

#[test]
fn cost_counts_a_token_per_four_content_bytes() {
    let lengths = vec![8usize, 4];
    // 50 tokens + 12 bytes / 4 = 53 tokens
    assert_eq!(estimate_payload_tokens(Some(&lengths)), 53_000);
    let empty: Vec<usize> = vec![];
    assert_eq!(estimate_payload_tokens(Some(&empty)), 50_000);
    let odd = vec![3usize];
    assert_eq!(estimate_payload_tokens(Some(&odd)), 50_750);
}

#[test]
fn fresh_bucket_starts_full_and_admits() {
    let fresh = StoredBucket { tokens: None, last_refill: None };
    let v = admit_request(fresh, limits(100_000, 10_000), 53_000, 1_000);
    assert!(v.permitted);
    assert_eq!(v.record.tokens, 47_000);
    assert_eq!(v.record.last_refill, 1_000);
    assert_eq!(v.record.capacity, 100_000);
    assert_eq!(v.record.refill_rate, 10_000);
}

#[test]
fn denied_request_keeps_refilled_level() {
    let stored = StoredBucket { tokens: Some(1_000), last_refill: Some(0) };
    // 2 seconds at 1000 milli-tokens per second adds 2000
    let v = admit_request(stored, limits(100_000, 1_000), 5_000, 2_000);
    assert!(!v.permitted);
    assert_eq!(v.record.tokens, 3_000);
    assert_eq!(v.record.last_refill, 2_000);
}

#[test]
fn refill_is_capped_at_capacity() {
    let stored = StoredBucket { tokens: Some(9_000), last_refill: Some(0) };
    let v = admit_request(stored, limits(10_000, 5_000), 0, 60_000);
    assert!(v.permitted);
    assert_eq!(v.record.tokens, 10_000);
}

#[test]
fn refill_truncates_partial_milli_tokens() {
    let stored = StoredBucket { tokens: Some(0), last_refill: Some(0) };
    // 3 ms at 333 milli-tokens per second = 0.999 milli-tokens, floored to 0
    let v = admit_request(stored, limits(10_000, 333), 1, 3);
    assert!(!v.permitted);
    assert_eq!(v.record.tokens, 0);
}

#[test]
fn clock_going_back_refills_nothing() {
    let stored = StoredBucket { tokens: Some(500), last_refill: Some(10_000) };
    let v = admit_request(stored, limits(10_000, 1_000_000), 400, 5_000);
    assert!(v.permitted);
    assert_eq!(v.record.tokens, 100);
    assert_eq!(v.record.last_refill, 5_000);
}

#[test]
fn missing_timestamp_means_no_elapsed_time() {
    let stored = StoredBucket { tokens: Some(500), last_refill: None };
    let v = admit_request(stored, limits(10_000, 1_000), 600, 99_000);
    assert!(!v.permitted);
    assert_eq!(v.record.tokens, 500);
}

#[test]
fn same_instant_second_request_sees_no_refill() {
    let l = limits(100_000, 50_000);
    let first = admit_request(StoredBucket { tokens: None, last_refill: None }, l, 60_000, 7);
    assert!(first.permitted);
    let stored = StoredBucket { tokens: Some(first.record.tokens), last_refill: Some(first.record.last_refill) };
    let second = admit_request(stored, l, 60_000, 7);
    assert!(!second.permitted);
    assert_eq!(second.record.tokens, 40_000);
}

#[test]
fn burst_is_bounded_by_bucket_plus_refill() {
    // capacity 100 tokens, 10 tokens per second, requests of 30 tokens every 100 ms for 2 s
    let l = limits(100_000, 10_000);
    let mut stored = StoredBucket { tokens: None, last_refill: None };
    let mut admitted: u64 = 0;
    let mut now: u64 = 1_000;
    let start = now;
    for _ in 0..21 {
        let v = admit_request(stored, l, 30_000, now);
        if v.permitted {
            admitted += 30_000;
        }
        stored = StoredBucket { tokens: Some(v.record.tokens), last_refill: Some(v.record.last_refill) };
        now += 100;
    }
    let last = now - 100;
    let budget = 100_000 + 10_000 * (last - start) / 1000;
    assert!(admitted + stored.tokens.unwrap() <= budget);
    assert_eq!(admitted, 120_000);
}

#[test]
fn bucket_key_prefixes_identifier() {
    assert_eq!(bucket_key("abc123"), "fluxgate:rate_limit:abc123");
    assert_eq!(bucket_key(""), "fluxgate:rate_limit:");
}

#[test]
fn limiter_forwards_only_admitted_requests() {
    assert_eq!(limiter_reply(5, Some(true)), LimiterReply::Forward { cost: 5 });
    assert_eq!(limiter_reply(5, Some(false)), LimiterReply::TooManyRequests);
    assert_eq!(limiter_reply(5, None), LimiterReply::TooManyRequests);
}

#[test]
fn limiter_refusal_statuses() {
    assert_eq!(LimiterReply::Forward { cost: 1 }.status(), None);
    assert_eq!(LimiterReply::PayloadTooLarge.status(), Some(413));
    assert_eq!(LimiterReply::StoreUnavailable.status(), Some(503));
    assert_eq!(LimiterReply::TooManyRequests.status(), Some(429));
    assert_eq!(LimiterReply::StoreUnavailable.message(), "Rate Limiter Offline");
    assert_eq!(LimiterReply::TooManyRequests.message(), "");
    assert_eq!(MAX_BODY_SIZE, 10 * 1024 * 1024);
}
