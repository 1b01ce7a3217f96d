//! The DNS-over-HTTPS resolution chain: a request's questions are put to a
//! primary provider and, when it has no answer, to a fallback provider; the
//! cluster provider answers the gateway's own domain round-robin, the
//! upstream provider reads public JSON resolvers.

use vstd::prelude::*;
use crate::dns::{
    copy_questions, decode_dns_request, dns_decode, dns_encode, encode_dns_response, DnsAnswer,
    DnsAnswerView, DnsQuestionView, DnsRequest, DnsRequestView, DnsResponse, DnsResponseView,
    DohReply, IpAddress, RCODE_NO_ERROR, RCODE_NX_DOMAIN,
};
use crate::proxy::next_rotation;
use crate::text::{join, same_text, trim_end_char_spec, trim_end_matches_char};

verus! {

/// The address `text` denotes, as `core::net::IpAddr`'s `FromStr` parses it.
pub uninterp spec fn ip_text_parse(text: Seq<char>) -> Option<IpAddress>;

/// Parses an IPv4 or IPv6 address with `core::net::IpAddr`'s `FromStr`.
/// Trusted: the result is `ip_text_parse(text)`, named, not restated.
#[verifier::external_body]
pub fn parse_ip_address(text: &str) -> (address: Option<IpAddress>)
    ensures
        address == ip_text_parse(text@),
{
    match text.parse::<core::net::IpAddr>().ok()? {
        core::net::IpAddr::V4(a) => Some(IpAddress::V4(a.into())),
        core::net::IpAddr::V6(a) => Some(IpAddress::V6(a.into())),
    }
}

/// The addresses among `texts` that parse, in order.
pub open spec fn parsed_addresses(texts: Seq<Seq<char>>) -> Seq<IpAddress>
    decreases texts.len(),
{
    if texts.len() == 0 {
        Seq::empty()
    } else {
        parsed_addresses(texts.drop_last()) + match ip_text_parse(texts.last()) {
            Some(a) => seq![a],
            None => Seq::<IpAddress>::empty(),
        }
    }
}

fn parse_addresses(texts: &Vec<String>) -> (addresses: Vec<IpAddress>)
    ensures
        addresses@ == parsed_addresses(texts.deep_view()),
{
    let mut addresses: Vec<IpAddress> = Vec::new();
    let mut i: usize = 0;
    while i < texts.len()
        invariant
            i <= texts@.len(),
            addresses@ == parsed_addresses(texts.deep_view().take(i as int)),
        decreases texts@.len() - i,
    {
        proof {
            assert(texts.deep_view().take(i + 1).drop_last() =~= texts.deep_view().take(i as int));
            assert(texts.deep_view().take(i + 1).last() == texts@[i as int]@);
        }
        match parse_ip_address(texts[i].as_str()) {
            Some(a) => addresses.push(a),
            None => {},
        }
        proof {
            assert(addresses@ =~= parsed_addresses(texts.deep_view().take(i + 1)));
        }
        i = i + 1;
    }
    assert(texts.deep_view().take(i as int) =~= texts.deep_view());
    addresses
}

/// Resolves one domain of the cluster to its gateway nodes, round-robin.
pub struct LocalClusterProvider {
    target_domain: String,
    node_ips: Vec<IpAddress>,
    current_index: usize,
}

impl LocalClusterProvider {
    /// The domain this provider answers (without trailing dot).
    pub closed spec fn domain(&self) -> Seq<char> {
        self.target_domain@
    }

    /// The gateway nodes it currently knows.
    pub closed spec fn nodes(&self) -> Seq<IpAddress> {
        self.node_ips@
    }

    /// How many answers it has handed out (wrapping).
    pub closed spec fn rotation(&self) -> usize {
        self.current_index
    }

    /// A provider for `domain` that knows no nodes yet.
    pub fn new(domain: &str) -> (provider: Self)
        ensures
            provider.domain() == domain@,
            provider.nodes() == Seq::<IpAddress>::empty(),
            provider.rotation() == 0,
    {
        LocalClusterProvider { target_domain: domain.to_owned(), node_ips: Vec::new(), current_index: 0 }
    }

    /// Takes in the node list the registry returned: the addresses that parse
    /// replace the known nodes, unless none parses, when the old list stays.
    pub fn refresh(&mut self, fetched: &Vec<String>)
        ensures
            final(self).domain() == old(self).domain(),
            final(self).rotation() == old(self).rotation(),
            parsed_addresses(fetched.deep_view()).len() > 0 ==> final(self).nodes() == parsed_addresses(
                fetched.deep_view(),
            ),
            parsed_addresses(fetched.deep_view()).len() == 0 ==> final(self).nodes() == old(self).nodes(),
    {
        let fresh = parse_addresses(fetched);
        if fresh.len() > 0 {
            self.node_ips = fresh;
        }
    }

    /// Answers `domain`: the next node in round-robin order when it is the
    /// cluster's domain and some node is known, otherwise nothing (and the
    /// rotation does not move).
    pub fn resolve(&mut self, domain: &str) -> (answer: Option<Vec<IpAddress>>)
        ensures
            final(self).domain() == old(self).domain(),
            final(self).nodes() == old(self).nodes(),
            (domain@ == old(self).domain() && old(self).nodes().len() > 0) ==> (answer matches Some(ips)
                && ips@ == seq![old(self).nodes()[(old(self).rotation() as int) % (old(self).nodes().len() as int)]]
                && final(self).rotation() == next_rotation(old(self).rotation())),
            !(domain@ == old(self).domain() && old(self).nodes().len() > 0) ==> (answer is None
                && final(self).rotation() == old(self).rotation()),
    {
        if !same_text(domain, self.target_domain.as_str()) || self.node_ips.len() == 0 {
            return None;
        }
        let index = self.current_index;
        self.current_index = if index == usize::MAX { 0 } else { index + 1 };
        let selected = self.node_ips[index % self.node_ips.len()];
        let mut answer: Vec<IpAddress> = Vec::new();
        answer.push(selected);
        Some(answer)
    }
}

/// Public JSON DNS-over-HTTPS endpoints.
pub const PROVIDER_CLOUDFLARE: &'static str = "https://cloudflare-dns.com/dns-query";
pub const PROVIDER_GOOGLE: &'static str = "https://dns.google/resolve";
pub const PROVIDER_QUAD9: &'static str = "https://dns.quad9.net:5053/dns-query";

/// Record type number of an IPv4 address record.
pub const RECORD_TYPE_A: u16 = 1;

/// Record type number of an IPv6 address record.
pub const RECORD_TYPE_AAAA: u16 = 28;

/// A resolver reached over a public JSON DNS-over-HTTPS API.
pub struct UpstreamProvider {
    endpoint_url: String,
}

impl UpstreamProvider {
    /// The endpoint's URL.
    pub closed spec fn endpoint(&self) -> Seq<char> {
        self.endpoint_url@
    }

    /// A provider for the endpoint at `endpoint_url`.
    pub fn new(endpoint_url: &str) -> (provider: Self)
        ensures
            provider.endpoint() == endpoint_url@,
    {
        UpstreamProvider { endpoint_url: endpoint_url.to_owned() }
    }

    /// The URL asking the endpoint for `domain`'s records of `record_type` (`"A"` or `"AAAA"`).
    pub fn query_url(&self, domain: &str, record_type: &str) -> (url: String)
        ensures
            url@ == self.endpoint() + "?name="@ + domain@ + "&type="@ + record_type@,
    {
        let a = join(self.endpoint_url.as_str(), "?name=");
        let b = join(a.as_str(), domain);
        let c = join(b.as_str(), "&type=");
        join(c.as_str(), record_type)
    }
}

/// One entry of a JSON answer section: its record type and data text.
#[derive(Clone, Debug)]
pub struct UpstreamAnswer {
    pub record_type: u16,
    pub data: String,
}

/// The addresses a JSON answer section yields: address records whose data parses.
pub open spec fn answer_addresses(answers: Seq<UpstreamAnswer>) -> Seq<IpAddress>
    decreases answers.len(),
{
    if answers.len() == 0 {
        Seq::empty()
    } else {
        let a = answers.last();
        answer_addresses(answers.drop_last()) + if a.record_type == RECORD_TYPE_A || a.record_type
            == RECORD_TYPE_AAAA {
            match ip_text_parse(a.data@) {
                Some(ip) => seq![ip],
                None => Seq::<IpAddress>::empty(),
            }
        } else {
            Seq::<IpAddress>::empty()
        }
    }
}

/// The addresses of all answer sections, in order; a failed query (`None`) yields none.
pub open spec fn batch_addresses(batches: Seq<Option<Vec<UpstreamAnswer>>>) -> Seq<IpAddress>
    decreases batches.len(),
{
    if batches.len() == 0 {
        Seq::empty()
    } else {
        batch_addresses(batches.drop_last()) + match batches.last() {
            Some(answers) => answer_addresses(answers@),
            None => Seq::<IpAddress>::empty(),
        }
    }
}

fn collect_answer_addresses(answers: &Vec<UpstreamAnswer>, out: &mut Vec<IpAddress>)
    ensures
        final(out)@ == old(out)@ + answer_addresses(answers@),
{
    let mut i: usize = 0;
    let ghost start = out@;
    while i < answers.len()
        invariant
            i <= answers@.len(),
            out@ == start + answer_addresses(answers@.take(i as int)),
        decreases answers@.len() - i,
    {
        proof {
            assert(answers@.take(i + 1).drop_last() =~= answers@.take(i as int));
        }
        let a = &answers[i];
        if a.record_type == RECORD_TYPE_A || a.record_type == RECORD_TYPE_AAAA {
            match parse_ip_address(a.data.as_str()) {
                Some(ip) => out.push(ip),
                None => {},
            }
        }
        proof {
            assert(out@ =~= start + answer_addresses(answers@.take(i + 1)));
        }
        i = i + 1;
    }
    assert(answers@.take(i as int) =~= answers@);
}

/// The addresses of answer sections are read record by record, each on its
/// own: a single record gives its address when it is an A (1) or AAAA (28)
/// record whose data parses, and nothing otherwise; and the addresses of two
/// runs of records, one after the other, are those of the first run followed
/// by those of the second. So no record, wherever it stands, is skipped.
pub proof fn lemma_answer_addresses_record_by_record(first: Seq<UpstreamAnswer>, second: Seq<UpstreamAnswer>)
    ensures
        answer_addresses(first + second) == answer_addresses(first) + answer_addresses(second),
        first.len() == 1 ==> answer_addresses(first) == if first[0].record_type == 1 || first[0].record_type == 28 {
            match ip_text_parse(first[0].data@) {
                Some(ip) => seq![ip],
                None => Seq::<IpAddress>::empty(),
            }
        } else {
            Seq::<IpAddress>::empty()
        },
    decreases second.len(),
{
    if first.len() == 1 {
        assert(first.drop_last() =~= Seq::<UpstreamAnswer>::empty());
        assert(answer_addresses(first.drop_last()) =~= Seq::<IpAddress>::empty());
    }
    if second.len() == 0 {
        assert(first + second =~= first);
        assert(answer_addresses(first) + answer_addresses(second) =~= answer_addresses(first));
    } else {
        lemma_answer_addresses_record_by_record(first, second.drop_last());
        assert((first + second).drop_last() =~= first + second.drop_last());
        assert((first + second).last() == second.last());
    }
}

/// Every answer section counts, in order: the addresses of two runs of query
/// results, one after the other, are those of the first run followed by those
/// of the second; a failed query gives none, an answered one its section's addresses.
pub proof fn lemma_batch_addresses_section_by_section(
    first: Seq<Option<Vec<UpstreamAnswer>>>,
    second: Seq<Option<Vec<UpstreamAnswer>>>,
)
    ensures
        batch_addresses(first + second) == batch_addresses(first) + batch_addresses(second),
        first.len() == 1 ==> batch_addresses(first) == match first[0] {
            Some(answers) => answer_addresses(answers@),
            None => Seq::<IpAddress>::empty(),
        },
    decreases second.len(),
{
    if first.len() == 1 {
        assert(first.drop_last() =~= Seq::<Option<Vec<UpstreamAnswer>>>::empty());
        assert(batch_addresses(first.drop_last()) =~= Seq::<IpAddress>::empty());
        assert(batch_addresses(first) =~= match first[0] {
            Some(answers) => answer_addresses(answers@),
            None => Seq::<IpAddress>::empty(),
        });
    }
    if second.len() == 0 {
        assert(first + second =~= first);
        assert(batch_addresses(first) + batch_addresses(second) =~= batch_addresses(first));
    } else {
        lemma_batch_addresses_section_by_section(first, second.drop_last());
        assert((first + second).drop_last() =~= first + second.drop_last());
        assert((first + second).last() == second.last());
    }
}

/// Gathers what the endpoint answered to the address-record queries: every
/// parsed address of every answer section, or nothing when there is none.
pub fn gather_upstream_answers(batches: &Vec<Option<Vec<UpstreamAnswer>>>) -> (addresses: Option<Vec<IpAddress>>)
    ensures
        batch_addresses(batches@).len() > 0 ==> (addresses matches Some(ips) && ips@ == batch_addresses(batches@)),
        batch_addresses(batches@).len() == 0 ==> addresses is None,
{
    let mut out: Vec<IpAddress> = Vec::new();
    let mut i: usize = 0;
    while i < batches.len()
        invariant
            i <= batches@.len(),
            out@ == batch_addresses(batches@.take(i as int)),
        decreases batches@.len() - i,
    {
        proof {
            assert(batches@.take(i + 1).drop_last() =~= batches@.take(i as int));
        }
        match &batches[i] {
            Some(answers) => collect_answer_addresses(answers, &mut out),
            None => {},
        }
        proof {
            assert(out@ =~= batch_addresses(batches@.take(i + 1)));
        }
        i = i + 1;
    }
    assert(batches@.take(i as int) =~= batches@);
    if out.len() > 0 {
        Some(out)
    } else {
        None
    }
}

/// TTL, in seconds, of answers from the resolution chain (short, for fast failover).
pub const CHAIN_TTL: u32 = 30;

/// Which provider of the chain a lookup goes to.
#[derive(Clone, Copy, Debug, PartialEq, Eq, Structural)]
pub enum ResolverTier {
    Primary,
    Fallback,
}

/// What the chain asks its driver to do next.
#[derive(Debug)]
pub enum DohStep {
    /// Resolve `domain` with the provider of `tier` and deliver the result.
    Lookup { tier: ResolverTier, domain: String },
    /// All questions are settled: send this reply.
    Reply(DohReply),
}

/// The domain a question asks a provider for: its name without trailing dots.
pub open spec fn question_domain(q: DnsQuestionView) -> Seq<char> {
    trim_end_char_spec(q.text, '.')
}

/// The answer records for one question's outcome.
pub open spec fn answers_for(labels: Seq<Seq<u8>>, outcome: Option<Seq<IpAddress>>) -> Seq<DnsAnswerView> {
    match outcome {
        Some(ips) => Seq::new(ips.len(), |j: int| DnsAnswerView { labels, ttl: CHAIN_TTL, address: ips[j] }),
        None => Seq::empty(),
    }
}

/// All answer records, question by question.
pub open spec fn chain_answers(queries: Seq<DnsQuestionView>, outcomes: Seq<Option<Seq<IpAddress>>>) -> Seq<DnsAnswerView>
    decreases outcomes.len(),
{
    if outcomes.len() == 0 {
        Seq::empty()
    } else {
        chain_answers(queries, outcomes.drop_last()) + answers_for(
            queries[outcomes.len() - 1].labels,
            outcomes.last(),
        )
    }
}

/// The chain's response once every question has an outcome: the request's
/// id and questions, op code "query", the answers in question order, and no
/// error exactly when every question was resolved ("no such domain" otherwise).
pub open spec fn chain_response(request: DnsRequestView, outcomes: Seq<Option<Seq<IpAddress>>>) -> DnsResponseView {
    DnsResponseView {
        id: request.id,
        op_code: 0,
        response_code: if forall|i: int| 0 <= i < outcomes.len() ==> (#[trigger] outcomes[i]) is Some {
            RCODE_NO_ERROR
        } else {
            RCODE_NX_DOMAIN
        },
        queries: request.queries,
        answers: chain_answers(request.queries, outcomes),
    }
}

/// The chain answers "no error" exactly when every question was resolved:
/// with all outcomes present the code is 0, and one unresolved question,
/// wherever it stands among the others, makes it 3 ("no such domain").
pub proof fn lemma_chain_code_needs_every_question_resolved(
    request: DnsRequestView,
    outcomes: Seq<Option<Seq<IpAddress>>>,
)
    ensures
        (forall|i: int| 0 <= i < outcomes.len() ==> (#[trigger] outcomes[i]) is Some) ==> chain_response(
            request,
            outcomes,
        ).response_code == 0,
        forall|i: int| 0 <= i < outcomes.len() && (#[trigger] outcomes[i]) is None ==> chain_response(
            request,
            outcomes,
        ).response_code == 3,
{
}

/// An unresolved question is never made good by the questions after it:
/// once the outcomes so far give "no such domain", so do they with any
/// further outcomes appended, resolved or not.
pub proof fn lemma_later_outcomes_keep_no_such_domain(
    request: DnsRequestView,
    outcomes: Seq<Option<Seq<IpAddress>>>,
    later: Seq<Option<Seq<IpAddress>>>,
)
    requires
        chain_response(request, outcomes).response_code == 3,
    ensures
        chain_response(request, outcomes + later).response_code == 3,
{
    let i = choose|i: int| 0 <= i < outcomes.len() && !((#[trigger] outcomes[i]) is Some);
    assert((outcomes + later)[i] == outcomes[i]);
}

/// One DNS-over-HTTPS exchange in progress through the resolution chain.
pub struct DohExchange {
    request: DnsRequest,
    has_fallback: bool,
    tier: ResolverTier,
    outcomes: Vec<Option<Vec<IpAddress>>>,
}

impl DohExchange {
    /// The exchange's consistency: no more outcomes than questions, and the
    /// fallback is waited on only when one is configured and a question is open.
    #[verifier::type_invariant]
    spec fn consistent(&self) -> bool {
        &&& self.outcomes@.len() <= self.request.queries@.len()
        &&& self.tier == ResolverTier::Fallback ==> self.has_fallback && self.outcomes@.len()
            < self.request.queries@.len()
    }

    pub closed spec fn request_view(&self) -> DnsRequestView {
        self.request.deep_view()
    }

    pub closed spec fn has_fallback(&self) -> bool {
        self.has_fallback
    }

    /// How many questions are settled.
    pub closed spec fn cursor(&self) -> nat {
        self.outcomes@.len()
    }

    /// Which provider the current question waits on.
    pub closed spec fn tier(&self) -> ResolverTier {
        self.tier
    }

    /// The settled questions' outcomes, in order.
    pub closed spec fn outcomes(&self) -> Seq<Option<Seq<IpAddress>>> {
        self.outcomes@.map_values(|o: Option<Vec<IpAddress>>| match o {
            Some(v) => Some(v@),
            None => None,
        })
    }

    /// Starts an exchange for a wire query; a query that does not decode is
    /// refused with 400.
    pub fn start(wire: &[u8], has_fallback: bool) -> (exchange: Result<DohExchange, DohReply>)
        ensures
            match dns_decode(wire@) {
                None => (exchange matches Err(DohReply::Refused { status, message }) && status == 400
                    && message@ == ""@),
                Some(request) => (exchange matches Ok(e) && e.request_view() == request
                    && e.has_fallback() == has_fallback && e.cursor() == 0 && e.tier()
                    == ResolverTier::Primary && e.outcomes() == Seq::<Option<Seq<IpAddress>>>::empty()),
            },
    {
        match decode_dns_request(wire) {
            None => Err(DohReply::Refused { status: 400, message: "" }),
            Some(request) => {
                let e = DohExchange {
                    request,
                    has_fallback,
                    tier: ResolverTier::Primary,
                    outcomes: Vec::new(),
                };
                assert(e.outcomes() =~= Seq::<Option<Seq<IpAddress>>>::empty());
                Ok(e)
            },
        }
    }

    /// The next thing to do: look up the open question's domain with the
    /// waited-on provider, or, when all are settled, reply with the encoded
    /// chain response (500 when it cannot be encoded).
    pub fn next_step(&self) -> (step: DohStep)
        ensures
            self.cursor() <= self.request_view().queries.len(),
            self.tier() == ResolverTier::Fallback ==> self.has_fallback(),
            self.cursor() < self.request_view().queries.len() ==> (step matches DohStep::Lookup { tier, domain }
                && tier == self.tier() && domain@ == question_domain(
                self.request_view().queries[self.cursor() as int],
            )),
            self.cursor() == self.request_view().queries.len() ==> match dns_encode(
                chain_response(self.request_view(), self.outcomes()),
            ) {
                None => (step matches DohStep::Reply(DohReply::Refused { status, message })
                    && status == 500 && message@ == ""@),
                Some(wire) => (step matches DohStep::Reply(DohReply::Answer(bytes)) && bytes@ == wire),
            },
    {
        proof {
            use_type_invariant(self);
        }
        let settled = self.outcomes.len();
        if settled < self.request.queries.len() {
            let q = &self.request.queries[settled];
            assert(self.request_view().queries[settled as int] == q.deep_view());
            let domain = trim_end_matches_char(q.text.as_str(), '.').to_owned();
            return DohStep::Lookup { tier: self.tier, domain };
        }
        let response = self.build_response();
        match encode_dns_response(&response) {
            Some(wire) => DohStep::Reply(DohReply::Answer(wire)),
            None => DohStep::Reply(DohReply::Refused { status: 500, message: "" }),
        }
    }

    /// Delivers the waited-on provider's answer for the open question. An
    /// answer from the primary settles it; no answer from the primary passes it
    /// to the fallback when there is one (and settles it unresolved otherwise);
    /// the fallback's answer, or lack of one, settles it. With every question
    /// settled there is nothing to deliver to, and nothing changes.
    pub fn deliver(&mut self, result: Option<Vec<IpAddress>>)
        ensures
            final(self).request_view() == old(self).request_view(),
            final(self).has_fallback() == old(self).has_fallback(),
            ({
                let settled = match result {
                    Some(v) => Some(v@),
                    None => None::<Seq<IpAddress>>,
                };
                if old(self).cursor() >= old(self).request_view().queries.len() {
                    &&& final(self).tier() == old(self).tier()
                    &&& final(self).outcomes() == old(self).outcomes()
                } else if old(self).tier() == ResolverTier::Primary && result is None && old(self).has_fallback() {
                    &&& final(self).tier() == ResolverTier::Fallback
                    &&& final(self).outcomes() == old(self).outcomes()
                } else {
                    &&& final(self).tier() == ResolverTier::Primary
                    &&& final(self).outcomes() == old(self).outcomes().push(settled)
                }
            }),
    {
        proof {
            use_type_invariant(&*self);
        }
        let n = self.request.queries.len();
        assert(self.request.queries@.len() == self.request_view().queries.len());
        if self.outcomes.len() >= n {
            return;
        }
        if self.tier == ResolverTier::Primary && result.is_none() && self.has_fallback {
            self.tier = ResolverTier::Fallback;
            return;
        }
        let ghost before = self.outcomes@;
        let ghost settled = match &result {
            Some(v) => Some(v@),
            None => None::<Seq<IpAddress>>,
        };
        self.tier = ResolverTier::Primary;
        let mut outcomes: Vec<Option<Vec<IpAddress>>> = Vec::new();
        std::mem::swap(&mut outcomes, &mut self.outcomes);
        outcomes.push(result);
        self.outcomes = outcomes;
        proof {
            assert(self.outcomes() =~= before.map_values(|o: Option<Vec<IpAddress>>| match o {
                Some(v) => Some(v@),
                None => None,
            }).push(settled));
        }
    }

    fn build_response(&self) -> (response: DnsResponse)
        requires
            self.cursor() == self.request_view().queries.len(),
        ensures
            response.deep_view() == chain_response(self.request_view(), self.outcomes()),
    {
        let queries = copy_questions(&self.request.queries);
        let mut answers: Vec<DnsAnswer> = Vec::new();
        let mut all_resolved = true;
        let mut i: usize = 0;
        let ghost qs = self.request_view().queries;
        let ghost outs = self.outcomes();
        while i < self.outcomes.len()
            invariant
                qs == self.request_view().queries,
                outs == self.outcomes(),
                outs.len() == qs.len(),
                outs.len() == self.outcomes@.len(),
                qs.len() == self.request.queries@.len(),
                i <= outs.len(),
                answers.deep_view() == chain_answers(qs, outs.take(i as int)),
                all_resolved <==> forall|k: int| 0 <= k < i ==> (#[trigger] outs[k]) is Some,
            decreases outs.len() - i,
        {
            proof {
                assert(outs.take(i + 1).drop_last() =~= outs.take(i as int));
                assert(outs.take(i + 1).last() == outs[i as int]);
            }
            let labels = &self.request.queries[i].labels;
            assert(qs[i as int].labels == labels.deep_view());
            match &self.outcomes[i] {
                Some(ips) => {
                    let ghost before = answers.deep_view();
                    let mut j: usize = 0;
                    while j < ips.len()
                        invariant
                            i < qs.len(),
                            j <= ips@.len(),
                            answers.deep_view() == before + answers_for(qs[i as int].labels, Some(ips@)).take(j as int),
                            qs[i as int].labels == labels.deep_view(),
                        decreases ips@.len() - j,
                    {
                        let copy = crate::dns::copy_question_labels(labels);
                        let answer = DnsAnswer { labels: copy, ttl: CHAIN_TTL, address: ips[j] };
                        assert(answer.deep_view() == answers_for(qs[i as int].labels, Some(ips@))[j as int]);
                        let ghost prev = answers.deep_view();
                        let ghost added = answer.deep_view();
                        answers.push(answer);
                        proof {
                            assert(answers.deep_view() =~= prev.push(added));
                            assert(answers.deep_view() =~= before + answers_for(qs[i as int].labels, Some(ips@)).take(j + 1));
                        }
                        j = j + 1;
                    }
                    assert(answers_for(qs[i as int].labels, Some(ips@)).take(j as int) =~= answers_for(qs[i as int].labels, Some(ips@)));
                    assert(outs[i as int] == Some(ips@));
                },
                None => {
                    all_resolved = false;
                    assert(outs[i as int] is None);
                    assert(answers_for(qs[i as int].labels, None) =~= Seq::<DnsAnswerView>::empty());
                },
            }
            proof {
                assert(answers.deep_view() =~= chain_answers(qs, outs.take(i + 1)));
            }
            i = i + 1;
        }
        assert(outs.take(i as int) =~= outs);
        let response_code = if all_resolved { RCODE_NO_ERROR } else { RCODE_NX_DOMAIN };
        DnsResponse { id: self.request.id, op_code: 0, response_code, queries, answers }
    }
}

} // verus!
