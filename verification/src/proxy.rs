//! Reverse proxy: round-robin choice of a downstream node, the headers that
//! are forwarded, and how a downstream answer becomes the gateway's reply.

use vstd::prelude::*;
use crate::text::join;

verus! {

/// Seconds the gateway waits for a downstream node before giving up.
pub const DOWNSTREAM_TIMEOUT_SECS: u64 = 120;

/// The rotation counter after one step; it wraps as an atomic counter does.
pub open spec fn next_rotation(counter: usize) -> usize {
    if counter == usize::MAX { 0 } else { (counter + 1) as usize }
}

/// The downstream nodes and the round-robin position among them.
pub struct ProxyState {
    pub downstream_urls: Vec<String>,
    current_index: usize,
}

impl ProxyState {
    /// The round-robin counter: how many targets have been handed out (wrapping).
    pub closed spec fn rotation(&self) -> usize {
        self.current_index
    }

    /// The downstream base URLs in rotation order.
    pub closed spec fn targets(&self) -> Seq<String> {
        self.downstream_urls@
    }

    /// A proxy over `urls`, starting at the first.
    pub fn new(urls: Vec<String>) -> (state: Self)
        ensures
            state.targets() == urls@,
            state.rotation() == 0,
    {
        ProxyState { downstream_urls: urls, current_index: 0 }
    }

    /// The next downstream base URL in round-robin order, or an empty string
    /// when there are none (the counter then does not move).
    pub fn get_next_target(&mut self) -> (target: String)
        ensures
            final(self).targets() == old(self).targets(),
            old(self).targets().len() == 0 ==> target@ == Seq::<char>::empty()
                && final(self).rotation() == old(self).rotation(),
            old(self).targets().len() > 0 ==> target@ == old(self).targets()[(
            old(self).rotation() as int) % (old(self).targets().len() as int)]@
                && final(self).rotation() == next_rotation(old(self).rotation()),
    {
        let n = self.downstream_urls.len();
        if n == 0 {
            return String::new();
        }
        let index = self.current_index;
        self.current_index = if index == usize::MAX { 0 } else { index + 1 };
        self.downstream_urls[index % n].clone()
    }
}

/// Over any `len` consecutive rotation positions that do not wrap, a
/// round-robin over `len` targets hands out every target exactly once.
pub proof fn lemma_rotation_serves_each_target(start: int, len: int, target: int)
    requires
        start >= 0,
        len > 0,
        0 <= target < len,
    ensures
        exists|k: int| 0 <= k < len && #[trigger] ((start + k) % len) == target,
        forall|k1: int, k2: int|
            0 <= k1 < len && 0 <= k2 < len && #[trigger] ((start + k1) % len) == #[trigger] ((start
                + k2) % len) ==> k1 == k2,
{
    let r = start % len;
    let q = start / len;
    assert(start == q * len + r && 0 <= r < len) by (nonlinear_arith)
        requires
            len > 0,
            r == start % len,
            q == start / len,
    ;
    let k: int = if target >= r { target - r } else { target + len - r };
    if target >= r {
        assert((start + k) % len == target) by (nonlinear_arith)
            requires
                len > 0,
                start + k == q * len + target,
                0 <= target < len,
        ;
    } else {
        assert(start + k == (q + 1) * len + target) by (nonlinear_arith)
            requires
                start == q * len + r,
                k == target + len - r,
        ;
        assert((start + k) % len == target) by (nonlinear_arith)
            requires
                len > 0,
                start + k == (q + 1) * len + target,
                0 <= target < len,
        ;
    }
    assert(0 <= k < len);
    assert forall|k1: int, k2: int|
        0 <= k1 < len && 0 <= k2 < len && #[trigger] ((start + k1) % len) == #[trigger] ((start + k2)
            % len) implies k1 == k2 by {
        assert(k1 == k2) by (nonlinear_arith)
            requires
                len > 0,
                0 <= k1 < len,
                0 <= k2 < len,
                start >= 0,
                (start + k1) % len == (start + k2) % len,
        ;
    }
}

/// The rotation counter after `k` calls starting from `counter`.
pub open spec fn rotation_after(counter: usize, k: nat) -> usize
    decreases k,
{
    if k == 0 {
        counter
    } else {
        next_rotation(rotation_after(counter, (k - 1) as nat))
    }
}

/// Each call moves the rotation counter on by exactly one; it wraps to zero
/// only from `usize::MAX`, as an atomic counter does. So `k` calls from a
/// counter that does not reach the wrap leave it `k` further on.
pub proof fn lemma_rotation_advances_by_one(counter: usize, k: nat)
    ensures
        counter < usize::MAX ==> next_rotation(counter) == counter + 1,
        next_rotation(usize::MAX) == 0,
        counter + k <= usize::MAX ==> rotation_after(counter, k) == counter + k,
    decreases k,
{
    if k > 0 {
        lemma_rotation_advances_by_one(counter, (k - 1) as nat);
    }
}

/// Any `len` consecutive calls over `len` targets, from a counter that does not
/// reach the wrap, hand out every target exactly once: the `k`-th of them
/// serves target `rotation_after(counter, k) % len`, and each target is served
/// by exactly one `k` below `len`.
pub proof fn lemma_consecutive_calls_serve_each_target_once(counter: usize, len: nat, target: int)
    requires
        len > 0,
        counter + len <= usize::MAX,
        0 <= target < len,
    ensures
        exists|k: nat| k < len && #[trigger] (rotation_after(counter, k) as int % (len as int)) == target,
        forall|k1: nat, k2: nat|
            k1 < len && k2 < len && #[trigger] (rotation_after(counter, k1) as int % (len as int))
                == #[trigger] (rotation_after(counter, k2) as int % (len as int)) ==> k1 == k2,
{
    lemma_rotation_serves_each_target(counter as int, len as int, target);
    let k0 = choose|k: int| 0 <= k < len && #[trigger] ((counter + k) % (len as int)) == target;
    lemma_rotation_advances_by_one(counter, k0 as nat);
    assert(rotation_after(counter, k0 as nat) as int % (len as int) == target);
    assert forall|k1: nat, k2: nat|
        k1 < len && k2 < len && #[trigger] (rotation_after(counter, k1) as int % (len as int))
            == #[trigger] (rotation_after(counter, k2) as int % (len as int)) implies k1 == k2 by {
        lemma_rotation_advances_by_one(counter, k1);
        lemma_rotation_advances_by_one(counter, k2);
        assert(((counter + k1) % (len as int)) == ((counter + k2) % (len as int)));
    }
}

/// The downstream URL a request is forwarded to: the node's base URL, then
/// `/v1/`, then the path that followed `/v1/` on the gateway.
pub fn target_url(base: &str, path: &str) -> (url: String)
    ensures
        url@ == base@ + "/v1/"@ + path@,
{
    let with_prefix = join(base, "/v1/");
    join(with_prefix.as_str(), path)
}

/// A byte a header value may hold: visible ASCII, any byte from 0x80 up, or a tab.
pub open spec fn header_byte_allowed(b: u8) -> bool {
    (b >= 32 && b != 127) || b == 9
}

/// Whether `reqwest::header::HeaderValue::from_bytes` accepts `bytes`.
/// Trusted: it accepts exactly when every byte is allowed, as its source checks byte by byte.
#[verifier::external_body]
fn header_value_accepted(bytes: &[u8]) -> (ok: bool)
    ensures
        ok == forall|i: int| 0 <= i < bytes@.len() ==> header_byte_allowed(#[trigger] bytes@[i]),
{
    reqwest::header::HeaderValue::from_bytes(bytes).is_ok()
}

/// Whether `reqwest::StatusCode::from_u16` accepts `code`.
/// Trusted: it accepts exactly the codes from 100 to 999, as its source checks.
#[verifier::external_body]
fn status_code_accepted(code: u16) -> (ok: bool)
    ensures
        ok == (100 <= code <= 999),
{
    reqwest::StatusCode::from_u16(code).is_ok()
}

/// The headers sent downstream: the caller's `Authorization` when it is a
/// valid header value, and always a JSON content type.
#[derive(Debug)]
pub struct ForwardHeaders {
    pub authorization: Option<Vec<u8>>,
    pub content_type: &'static str,
}

/// Chooses the headers forwarded downstream from the caller's `Authorization` bytes.
pub fn prepare_forward_headers(authorization: Option<&[u8]>) -> (headers: ForwardHeaders)
    ensures
        headers.content_type@ == "application/json"@,
        match authorization {
            None => headers.authorization is None,
            Some(a) => if forall|i: int| 0 <= i < a@.len() ==> header_byte_allowed(#[trigger] a@[i]) {
                (headers.authorization matches Some(v) && v@ == a@)
            } else {
                headers.authorization is None
            },
        },
{
    let forwarded = match authorization {
        None => None,
        Some(a) => if header_value_accepted(a) {
            Some(vstd::slice::slice_to_vec(a))
        } else {
            None
        },
    };
    ForwardHeaders { authorization: forwarded, content_type: "application/json" }
}

/// How the downstream call ended.
#[derive(Clone, Debug)]
pub enum DownstreamOutcome {
    /// The node answered with this status, content type and transfer encoding.
    Responded { status: u16, content_type: Option<Vec<u8>>, has_transfer_encoding: bool },
    /// The request could not be assembled.
    BuildFailed,
    /// The node could not be reached.
    Unreachable,
    /// The node did not answer within the timeout.
    TimedOut,
}

/// The reply the gateway sends back to the caller.
#[derive(Clone, Debug)]
pub struct ProxyReply {
    pub status: u16,
    /// Fixed body text; unused when the downstream body is streamed.
    pub message: &'static str,
    /// Whether the downstream body is streamed back as the reply body.
    pub streams_body: bool,
    /// Content type copied from the downstream answer.
    pub content_type: Option<Vec<u8>>,
    /// Whether the reply is marked `Transfer-Encoding: chunked`.
    pub chunked: bool,
}

/// The reply when no downstream node is configured.
pub fn no_target_reply() -> (reply: ProxyReply)
    ensures
        reply.status == 503,
        reply.message@ == "No AI nodes available"@,
        !reply.streams_body,
        reply.content_type is None,
        !reply.chunked,
{
    ProxyReply {
        status: 503,
        message: "No AI nodes available",
        streams_body: false,
        content_type: None,
        chunked: false,
    }
}

/// Maps the downstream call's end to the gateway's reply: an answer is
/// streamed back with its status (500 when that status is not valid), its
/// content type and chunked framing when it had a transfer encoding; a build
/// failure is a 500, an unreachable node a 502, a timeout a 504.
pub fn proxy_reply(outcome: DownstreamOutcome) -> (reply: ProxyReply)
    ensures
        match outcome {
            DownstreamOutcome::Responded { status, content_type, has_transfer_encoding } => {
                &&& reply.status == (if 100 <= status <= 999 { status } else { 500 })
                &&& reply.streams_body
                &&& reply.content_type == content_type
                &&& reply.chunked == has_transfer_encoding
            },
            DownstreamOutcome::BuildFailed => reply.status == 500 && !reply.streams_body
                && reply.message@ == ""@ && reply.content_type is None && !reply.chunked,
            DownstreamOutcome::Unreachable => reply.status == 502 && !reply.streams_body
                && reply.message@ == "Downstream service unreachable"@ && reply.content_type is None
                && !reply.chunked,
            DownstreamOutcome::TimedOut => reply.status == 504 && !reply.streams_body
                && reply.message@ == "Request timed out waiting for AI node"@
                && reply.content_type is None && !reply.chunked,
        },
{
    match outcome {
        DownstreamOutcome::Responded { status, content_type, has_transfer_encoding } => {
            let status = if status_code_accepted(status) { status } else { 500 };
            ProxyReply {
                status,
                message: "",
                streams_body: true,
                content_type,
                chunked: has_transfer_encoding,
            }
        },
        DownstreamOutcome::BuildFailed => ProxyReply {
            status: 500,
            message: "",
            streams_body: false,
            content_type: None,
            chunked: false,
        },
        DownstreamOutcome::Unreachable => ProxyReply {
            status: 502,
            message: "Downstream service unreachable",
            streams_body: false,
            content_type: None,
            chunked: false,
        },
        DownstreamOutcome::TimedOut => ProxyReply {
            status: 504,
            message: "Request timed out waiting for AI node",
            streams_body: false,
            content_type: None,
            chunked: false,
        },
    }
}

} // verus!
