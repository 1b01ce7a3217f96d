//! Semantic token-bucket rate limiting.
//!
//! Token amounts are counted in thousandths of a token ("milli-tokens") and
//! time in milliseconds, so that every quantity is an exact integer.

use vstd::prelude::*;

verus! {

/// Fixed cost, in milli-tokens, charged for every transaction (50 tokens).
pub const BASE_TRANSACTION_COST: u64 = 50_000;

/// Milli-tokens charged per byte of message content (one token per four bytes).
pub const COST_PER_CONTENT_BYTE: u64 = 250;

/// Milliseconds in one second: refill rates are given per second.
pub const MILLIS_PER_SECOND: u64 = 1000;

/// Sum of a sequence of content lengths.
pub open spec fn total_content(lengths: Seq<usize>) -> nat
    decreases lengths.len(),
{
    if lengths.len() == 0 {
        0
    } else {
        total_content(lengths.drop_last()) + lengths.last() as nat
    }
}

/// Estimated cost, in milli-tokens, of a request whose chat messages have
/// the given content lengths (`None` when the body is not a chat request).
pub open spec fn payload_cost(lengths: Option<Seq<usize>>) -> nat {
    match lengths {
        Some(l) => BASE_TRANSACTION_COST as nat + COST_PER_CONTENT_BYTE as nat * total_content(l),
        None => BASE_TRANSACTION_COST as nat,
    }
}

/// Estimates the token cost of a request: a fixed base plus one token per
/// four bytes of message content, when the body parsed as a chat request.
/// A cost beyond `u64::MAX` milli-tokens is held at `u64::MAX`.
pub fn estimate_payload_tokens(content_lengths: Option<&Vec<usize>>) -> (cost: u64)
    ensures
        cost == min_nat(
            payload_cost(match content_lengths {
                Some(l) => Some(l@),
                None => None,
            }),
            u64::MAX as nat,
        ),
{
    match content_lengths {
        None => BASE_TRANSACTION_COST,
        Some(lengths) => {
            let mut total: u64 = 0;
            let mut i: usize = 0;
            while i < lengths.len()
                invariant
                    i <= lengths.len(),
                    total == min_nat(total_content(lengths@.take(i as int)), u64::MAX as nat),
                decreases lengths.len() - i,
            {
                proof {
                    assert(lengths@.take(i + 1).drop_last() =~= lengths@.take(i as int));
                }
                total = total.saturating_add(lengths[i] as u64);
                i = i + 1;
            }
            assert(lengths@.take(i as int) =~= lengths@);
            let wide_total: u128 = total as u128;
            assert(250 * wide_total <= 250 * (u64::MAX as int));
            let full: u128 = 50_000u128 + 250u128 * wide_total;
            proof {
                let whole = total_content(lengths@);
                if whole >= u64::MAX {
                    assert(total == u64::MAX);
                    assert(full > u64::MAX);
                    assert(payload_cost(Some(lengths@)) > u64::MAX);
                }
            }
            if full > u64::MAX as u128 {
                u64::MAX
            } else {
                full as u64
            }
        },
    }
}

/// What the store holds for one bucket; a field that was never written is `None`.
#[derive(Clone, Copy, Debug, PartialEq, Eq)]
pub struct StoredBucket {
    /// Milli-tokens left at the last refill.
    pub tokens: Option<u64>,
    /// Time of the last refill, in milliseconds.
    pub last_refill: Option<u64>,
}

/// The limits of one identity's bucket.
#[derive(Clone, Copy, Debug, PartialEq, Eq)]
pub struct BucketLimits {
    /// Most milli-tokens the bucket can hold.
    pub capacity: u64,
    /// Milli-tokens added per second of elapsed time.
    pub refill_rate: u64,
}

/// The record written back to the store after a request was weighed.
#[derive(Clone, Copy, Debug, PartialEq, Eq)]
pub struct BucketRecord {
    pub tokens: u64,
    pub last_refill: u64,
    pub capacity: u64,
    pub refill_rate: u64,
}

/// Whether a request may pass, and the bucket record to store.
#[derive(Clone, Copy, Debug, PartialEq, Eq)]
pub struct BucketVerdict {
    pub permitted: bool,
    pub record: BucketRecord,
}

pub open spec fn min_nat(a: nat, b: nat) -> nat {
    if a <= b { a } else { b }
}

/// Milli-tokens that flow in over `elapsed` milliseconds.
pub open spec fn refill_amount(refill_rate: nat, elapsed: nat) -> nat {
    (refill_rate * elapsed) / (MILLIS_PER_SECOND as nat)
}

/// Token level a stored bucket starts from (a new bucket starts full).
pub open spec fn start_level(stored: StoredBucket, limits: BucketLimits) -> nat {
    match stored.tokens {
        Some(t) => t as nat,
        None => limits.capacity as nat,
    }
}

/// Time a stored bucket was last refilled (a new bucket refills "now").
pub open spec fn start_time(stored: StoredBucket, now: u64) -> nat {
    match stored.last_refill {
        Some(t) => t as nat,
        None => now as nat,
    }
}

/// Elapsed time since the last refill; a clock that went backwards counts as no time.
pub open spec fn elapsed_since(stored: StoredBucket, now: u64) -> nat {
    if now >= start_time(stored, now) {
        (now - start_time(stored, now)) as nat
    } else {
        0
    }
}

/// Token level after refilling up to `now`, capped at the capacity.
pub open spec fn refilled_level(stored: StoredBucket, limits: BucketLimits, now: u64) -> nat {
    min_nat(
        limits.capacity as nat,
        start_level(stored, limits) + refill_amount(limits.refill_rate as nat, elapsed_since(stored, now)),
    )
}

/// The admission rule: refill, then admit exactly when the refilled level covers the cost.
pub open spec fn admission(stored: StoredBucket, limits: BucketLimits, cost: u64, now: u64) -> BucketVerdict {
    let level = refilled_level(stored, limits, now);
    let permitted = level >= cost;
    BucketVerdict {
        permitted,
        record: BucketRecord {
            tokens: (if permitted { level - cost } else { level as int }) as u64,
            last_refill: now,
            capacity: limits.capacity,
            refill_rate: limits.refill_rate,
        },
    }
}

/// The stored form of a record written back after a request.
pub open spec fn stored_of(record: BucketRecord) -> StoredBucket {
    StoredBucket { tokens: Some(record.tokens), last_refill: Some(record.last_refill) }
}

/// Weighs a request of `cost` milli-tokens at time `now` (milliseconds)
/// against a stored bucket: refills by `refill_rate` per elapsed second,
/// caps at `capacity`, and admits the request exactly when enough tokens
/// remain, deducting its cost. The returned record is what to store.
pub fn admit_request(stored: StoredBucket, limits: BucketLimits, cost: u64, now: u64) -> (verdict: BucketVerdict)
    ensures
        verdict == admission(stored, limits, cost, now),
        verdict.record.tokens <= limits.capacity,
        verdict.permitted <==> refilled_level(stored, limits, now) >= cost,
        verdict.permitted ==> verdict.record.tokens + cost == refilled_level(stored, limits, now),
        !verdict.permitted ==> verdict.record.tokens == refilled_level(stored, limits, now),
        verdict.record.last_refill == now,
{
    let tokens: u64 = match stored.tokens {
        Some(t) => t,
        None => limits.capacity,
    };
    let last_refill: u64 = match stored.last_refill {
        Some(t) => t,
        None => now,
    };
    let elapsed: u64 = if now >= last_refill { now - last_refill } else { 0 };
    proof {
        lemma_product_fits_u128(limits.refill_rate, elapsed);
    }
    let inflow: u128 = (limits.refill_rate as u128 * elapsed as u128) / (MILLIS_PER_SECOND as u128);
    let topped: u128 = tokens as u128 + inflow;
    let level: u64 = if topped <= limits.capacity as u128 { topped as u64 } else { limits.capacity };
    let permitted = level >= cost;
    let remaining: u64 = if permitted { level - cost } else { level };
    BucketVerdict {
        permitted,
        record: BucketRecord {
            tokens: remaining,
            last_refill: now,
            capacity: limits.capacity,
            refill_rate: limits.refill_rate,
        },
    }
}

proof fn lemma_product_fits_u128(a: u64, b: u64)
    ensures
        (a as int) * (b as int) <= u128::MAX,
        (a as int) * (b as int) >= 0,
{
    assert((a as int) * (b as int) <= (u64::MAX as int) * (u64::MAX as int)) by (nonlinear_arith)
        requires
            0 <= a <= u64::MAX,
            0 <= b <= u64::MAX,
    ;
    assert((a as int) * (b as int) >= 0) by (nonlinear_arith)
        requires
            0 <= a,
            0 <= b,
    ;
}


/// Replays a sequence of `(cost, now)` requests against a bucket; yields the
/// final stored state and the total cost of the requests that were admitted.
pub open spec fn replay(start: StoredBucket, limits: BucketLimits, requests: Seq<(u64, u64)>) -> (StoredBucket, nat)
    decreases requests.len(),
{
    if requests.len() == 0 {
        (start, 0)
    } else {
        let (state, admitted) = replay(start, limits, requests.drop_last());
        let (cost, now) = requests.last();
        let verdict = admission(state, limits, cost, now);
        (stored_of(verdict.record), admitted + if verdict.permitted { cost as nat } else { 0 })
    }
}

/// Request times never go backwards and do not precede the last refill.
pub open spec fn times_in_order(start: StoredBucket, requests: Seq<(u64, u64)>) -> bool {
    &&& forall|i: int, j: int| 0 <= i <= j < requests.len() ==> requests[i].1 <= requests[j].1
    &&& (requests.len() > 0 && start.last_refill is Some) ==> start.last_refill->0 <= requests[0].1
}

/// Any run of requests is admitted for at most one full bucket (or the
/// stored level, if lower) plus what refills between the last refill and the
/// last request: what was admitted and what is left together never exceed it.
pub proof fn lemma_admitted_within_refill_budget(start: StoredBucket, limits: BucketLimits, requests: Seq<(u64, u64)>)
    requires
        requests.len() > 0,
        times_in_order(start, requests),
    ensures
        ({
            let (end, admitted) = replay(start, limits, requests);
            let origin = start_time(start, requests[0].1);
            admitted + start_level(end, limits) <= min_nat(start_level(start, limits), limits.capacity as nat)
                + refill_amount(limits.refill_rate as nat, (requests.last().1 - origin) as nat)
        }),
    decreases requests.len(),
{
    let origin = start_time(start, requests[0].1);
    let base = min_nat(start_level(start, limits), limits.capacity as nat);
    let rate = limits.refill_rate as nat;
    let (cost, now) = requests.last();
    if requests.len() == 1 {
        let elapsed = elapsed_since(start, now);
        assert(elapsed == now - origin);
        let verdict = admission(start, limits, cost, now);
        assert(requests.drop_last().len() == 0);
        assert(replay(start, limits, requests.drop_last()) == (start, 0nat));
        assert(refilled_level(start, limits, now) <= base + refill_amount(rate, elapsed));
    } else {
        let prefix = requests.drop_last();
        assert(times_in_order(start, prefix)) by {
            assert forall|i: int, j: int| 0 <= i <= j < prefix.len() implies prefix[i].1 <= prefix[j].1 by {
                assert(prefix[i] == requests[i] && prefix[j] == requests[j]);
            }
        }
        lemma_admitted_within_refill_budget(start, limits, prefix);
        let (state, admitted) = replay(start, limits, prefix);
        let previous = prefix.last().1;
        assert(prefix.last() == requests[requests.len() - 2]);
        assert(prefix[0] == requests[0]);
        assert(previous <= now);
        lemma_replay_stamps_last_time(start, limits, prefix);
        assert(state.last_refill == Some(previous));
        let elapsed = elapsed_since(state, now);
        assert(elapsed == now - previous);
        assert(start_time(start, prefix[0].1) == origin);
        assert(origin <= previous) by {
            if start.last_refill is Some {
                assert(requests[0].1 <= previous);
            } else {
                assert(requests[0].1 <= previous);
            }
        }
        lemma_refill_splits(rate, (previous - origin) as nat, elapsed);
        assert((previous - origin) + elapsed == now - origin);
    }
}

/// After any nonempty replay the bucket was last refilled at the last request's time.
proof fn lemma_replay_stamps_last_time(start: StoredBucket, limits: BucketLimits, requests: Seq<(u64, u64)>)
    requires
        requests.len() > 0,
    ensures
        replay(start, limits, requests).0.last_refill == Some(requests.last().1),
        replay(start, limits, requests).0.tokens is Some,
{
}

/// Refilling in two steps never yields more than refilling once over the whole span.
proof fn lemma_refill_splits(rate: nat, first: nat, second: nat)
    ensures
        refill_amount(rate, first) + refill_amount(rate, second) <= refill_amount(rate, first + second),
{
    let k = MILLIS_PER_SECOND as int;
    let a: int = (rate * first) as int;
    let b: int = (rate * second) as int;
    assert(rate * (first + second) == a + b) by (nonlinear_arith)
        requires
            a == rate * first,
            b == rate * second,
    ;
    assert(a / k + b / k <= (a + b) / k) by (nonlinear_arith)
        requires
            k > 0,
            a >= 0,
            b >= 0,
    ;
}

/// A bucket that was never used admits any request that fits its capacity.
pub proof fn lemma_fresh_bucket_admits(limits: BucketLimits, cost: u64, now: u64)
    requires
        cost <= limits.capacity,
    ensures
        admission(StoredBucket { tokens: None, last_refill: None }, limits, cost, now).permitted,
        admission(StoredBucket { tokens: None, last_refill: None }, limits, cost, now).record.tokens
            == limits.capacity - cost,
{
}

/// A second request at the same instant sees exactly the level the first one left:
/// no time has passed, so nothing refills.
pub proof fn lemma_same_instant_no_refill(stored: StoredBucket, limits: BucketLimits, cost: u64, now: u64)
    ensures
        ({
            let first = admission(stored, limits, cost, now);
            refilled_level(stored_of(first.record), limits, now) == first.record.tokens
        }),
{
    let first = admission(stored, limits, cost, now);
    assert(refill_amount(limits.refill_rate as nat, 0) == 0);
}


/// The cost of a request with no messages is the 50-token base, and adding a
/// message of `n` bytes to any request adds exactly `250 * n` milli-tokens
/// (a quarter token per byte), however many messages it already has; a body
/// that is not a chat request costs the base alone.
pub proof fn lemma_cost_grows_by_each_message(lengths: Seq<usize>, n: usize)
    ensures
        payload_cost(Some(Seq::<usize>::empty())) == 50_000,
        payload_cost(None) == 50_000,
        payload_cost(Some(lengths.push(n))) == payload_cost(Some(lengths)) + 250 * (n as int),
{
    assert(lengths.push(n).drop_last() =~= lengths);
    assert(COST_PER_CONTENT_BYTE as nat * total_content(lengths.push(n)) == COST_PER_CONTENT_BYTE
        as nat * total_content(lengths) + 250 * (n as int)) by (nonlinear_arith)
        requires
            total_content(lengths.push(n)) == total_content(lengths) + n,
            COST_PER_CONTENT_BYTE == 250,
    ;
}

/// The cost of a request is 50 tokens plus a quarter token for every byte of
/// every message: the sum runs over all messages, whatever their number.
pub proof fn lemma_cost_counts_every_message(lengths: Seq<usize>)
    ensures
        payload_cost(Some(lengths)) == 50_000 + 250 * total_content(lengths),
        forall|i: int| 0 <= i < lengths.len() ==> payload_cost(Some(lengths)) >= 50_000 + 250 * (
        #[trigger] lengths[i] as int),
    decreases lengths.len(),
{
    if lengths.len() > 0 {
        let prefix = lengths.drop_last();
        lemma_cost_counts_every_message(prefix);
        assert(prefix.push(lengths.last()) =~= lengths);
        lemma_cost_grows_by_each_message(prefix, lengths.last());
        assert forall|i: int| 0 <= i < lengths.len() implies payload_cost(Some(lengths)) >= 50_000
            + 250 * (#[trigger] lengths[i] as int) by {
            if i < lengths.len() - 1 {
                assert(prefix[i] == lengths[i]);
                assert(payload_cost(Some(prefix)) >= 50_000 + 250 * (prefix[i] as int));
            }
        }
    }
}

/// When the clock has moved forward since the last refill, a stored bucket
/// gains exactly `refill_rate * elapsed / 1000` milli-tokens, limited by the
/// capacity alone: below the capacity the level is the stored level plus that
/// inflow; when the inflow reaches the capacity the bucket is full, so any
/// request up to the capacity is admitted however long the idle time was.
pub proof fn lemma_refill_is_rate_times_elapsed(tokens: u64, last: u64, now: u64, limits: BucketLimits, cost: u64)
    requires
        last <= now,
    ensures
        ({
            let inflow: int = (limits.refill_rate as int * (now - last)) / 1000;
            let level: int = tokens + inflow;
            let v = admission(StoredBucket { tokens: Some(tokens), last_refill: Some(last) }, limits, cost, now);
            &&& v.record.last_refill == now
            &&& level < limits.capacity ==> {
                &&& v.permitted <==> cost <= level
                &&& v.permitted ==> v.record.tokens == level - cost
                &&& !v.permitted ==> v.record.tokens == level
            }
            &&& level >= limits.capacity ==> {
                &&& v.permitted <==> cost <= limits.capacity
                &&& v.permitted ==> v.record.tokens == limits.capacity - cost
                &&& !v.permitted ==> v.record.tokens == limits.capacity
            }
        }),
{
    let stored = StoredBucket { tokens: Some(tokens), last_refill: Some(last) };
    assert(elapsed_since(stored, now) == now - last);
    assert(refill_amount(limits.refill_rate as nat, elapsed_since(stored, now)) == (limits.refill_rate
        as int * (now - last)) / 1000);
}

/// A clock that went backwards refills nothing: the level stays the stored
/// level (capped at the capacity) and the request is weighed against it.
pub proof fn lemma_backward_clock_refills_nothing(tokens: u64, last: u64, now: u64, limits: BucketLimits, cost: u64)
    requires
        now < last,
    ensures
        ({
            let level: int = if tokens <= limits.capacity { tokens as int } else { limits.capacity as int };
            let v = admission(StoredBucket { tokens: Some(tokens), last_refill: Some(last) }, limits, cost, now);
            &&& v.permitted <==> cost <= level
            &&& v.permitted ==> v.record.tokens == level - cost
            &&& !v.permitted ==> v.record.tokens == level
        }),
{
    let stored = StoredBucket { tokens: Some(tokens), last_refill: Some(last) };
    assert(elapsed_since(stored, now) == 0);
    assert(refill_amount(limits.refill_rate as nat, 0) == 0);
}

} // verus!
