//! DNS messages as plain values, their wire form (through `trust_dns_proto`),
//! domain-name matching, and the local-zone resolver that answers only the
//! gateway's own domain.

use vstd::prelude::*;
use trust_dns_proto::op::MessageType::Response;
use trust_dns_proto::op::{Message, OpCode, Query};
use trust_dns_proto::rr::rdata::{A, AAAA};
use trust_dns_proto::rr::{DNSClass, Name, RData, Record};
use crate::text::same_text;

verus! {

/// An IP address: IPv4 as its 32-bit number, IPv6 as its 128-bit number.
#[derive(Clone, Copy, Debug, PartialEq, Eq)]
pub enum IpAddress {
    V4(u32),
    V6(u128),
}

/// One entry of a message's question section.
#[derive(Debug)]
pub struct DnsQuestion {
    /// The name's labels as raw bytes, leftmost first (always fully qualified).
    pub labels: Vec<Vec<u8>>,
    /// The name as `trust_dns_proto` displays it, with its trailing dot.
    pub text: String,
    pub query_type: u16,
    pub query_class: u16,
}

/// A decoded query message: what the resolvers read of it.
#[derive(Debug)]
pub struct DnsRequest {
    pub id: u16,
    pub op_code: u8,
    pub queries: Vec<DnsQuestion>,
}

/// One address record of an answer section.
#[derive(Debug)]
pub struct DnsAnswer {
    pub labels: Vec<Vec<u8>>,
    pub ttl: u32,
    pub address: IpAddress,
}

/// A response message (its type is always "response").
#[derive(Debug)]
pub struct DnsResponse {
    pub id: u16,
    pub op_code: u8,
    pub response_code: u16,
    pub queries: Vec<DnsQuestion>,
    pub answers: Vec<DnsAnswer>,
}

pub struct DnsQuestionView {
    pub labels: Seq<Seq<u8>>,
    pub text: Seq<char>,
    pub query_type: u16,
    pub query_class: u16,
}

pub struct DnsRequestView {
    pub id: u16,
    pub op_code: u8,
    pub queries: Seq<DnsQuestionView>,
}

pub struct DnsAnswerView {
    pub labels: Seq<Seq<u8>>,
    pub ttl: u32,
    pub address: IpAddress,
}

pub struct DnsResponseView {
    pub id: u16,
    pub op_code: u8,
    pub response_code: u16,
    pub queries: Seq<DnsQuestionView>,
    pub answers: Seq<DnsAnswerView>,
}

impl DeepView for DnsQuestion {
    type V = DnsQuestionView;

    open spec fn deep_view(&self) -> DnsQuestionView {
        DnsQuestionView {
            labels: self.labels.deep_view(),
            text: self.text@,
            query_type: self.query_type,
            query_class: self.query_class,
        }
    }
}

impl DeepView for DnsRequest {
    type V = DnsRequestView;

    open spec fn deep_view(&self) -> DnsRequestView {
        DnsRequestView { id: self.id, op_code: self.op_code, queries: self.queries.deep_view() }
    }
}

impl DeepView for DnsAnswer {
    type V = DnsAnswerView;

    open spec fn deep_view(&self) -> DnsAnswerView {
        DnsAnswerView { labels: self.labels.deep_view(), ttl: self.ttl, address: self.address }
    }
}

impl DeepView for DnsResponse {
    type V = DnsResponseView;

    open spec fn deep_view(&self) -> DnsResponseView {
        DnsResponseView {
            id: self.id,
            op_code: self.op_code,
            response_code: self.response_code,
            queries: self.queries.deep_view(),
            answers: self.answers.deep_view(),
        }
    }
}

/// The message `trust_dns_proto::op::Message::from_vec` decodes from `wire`, as plain values.
pub uninterp spec fn dns_decode(wire: Seq<u8>) -> Option<DnsRequestView>;

/// The bytes `trust_dns_proto::op::Message::to_vec` encodes for a response
/// message with this id, op code, response code and question section and no records.
pub uninterp spec fn dns_encode_head(id: u16, op_code: u8, response_code: u16, queries: Seq<DnsQuestionView>) -> Option<Seq<u8>>;

/// The bytes `Message::to_vec` encodes after `Message::from_vec(wire)` had
/// these address records appended to its answer section.
pub uninterp spec fn dns_append_answers(wire: Seq<u8>, answers: Seq<DnsAnswerView>) -> Option<Seq<u8>>;

/// The wire form of a response: its header and questions encoded, then its answers appended.
pub open spec fn dns_encode(response: DnsResponseView) -> Option<Seq<u8>> {
    match dns_encode_head(response.id, response.op_code, response.response_code, response.queries) {
        Some(head) => dns_append_answers(head, response.answers),
        None => None,
    }
}

/// Decodes a DNS wire message with `Message::from_vec` and reads out its id,
/// op code and questions (each name's labels, its displayed text, type and class).
/// Trusted: the result is `dns_decode(wire)`, named, not restated.
#[verifier::external_body]
pub fn decode_dns_request(wire: &[u8]) -> (request: Option<DnsRequest>)
    ensures
        request.deep_view() == dns_decode(wire@),
{
    let message = Message::from_vec(wire).ok()?;
    let queries = message.queries().iter().map(|q| DnsQuestion {
        labels: q.name().iter().map(|label| label.to_vec()).collect(),
        text: q.name().to_string(),
        query_type: q.query_type().into(),
        query_class: q.query_class().into(),
    }).collect();
    Some(DnsRequest { id: message.id(), op_code: message.op_code().into(), queries })
}

/// Builds a `trust_dns_proto` response message (type "response") with this
/// id, op code, response code and questions, and encodes it with `Message::to_vec`.
/// Trusted: the result is `dns_encode_head(..)` of the arguments, named, not restated.
#[verifier::external_body]
fn encode_dns_head(id: u16, op_code: u8, response_code: u16, queries: &Vec<DnsQuestion>) -> (wire: Option<Vec<u8>>)
    ensures
        wire.deep_view() == dns_encode_head(id, op_code, response_code, queries.deep_view()),
{
    let mut m = Message::new();
    m.set_id(id).set_message_type(Response).set_op_code(OpCode::from_u8(op_code).ok()?).set_response_code(response_code.into());
    for q in queries.iter() {
        let name = Name::from_labels(q.labels.iter().map(|l| l.as_slice())).ok()?;
        m.add_query(Query::query(name, q.query_type.into()).set_query_class(DNSClass::from_u16(q.query_class).ok()?).clone());
    }
    m.to_vec().ok()
}

/// Decodes `wire` with `Message::from_vec`, appends these address records to
/// its answer section and encodes it again with `Message::to_vec`.
/// Trusted: the result is `dns_append_answers(wire, answers)`, named, not restated.
#[verifier::external_body]
fn append_dns_answers(wire: &[u8], answers: &Vec<DnsAnswer>) -> (out: Option<Vec<u8>>)
    ensures
        out.deep_view() == dns_append_answers(wire@, answers.deep_view()),
{
    let mut m = Message::from_vec(wire).ok()?;
    for a in answers.iter() {
        let data = match a.address { IpAddress::V4(v) => RData::A(A(v.into())), IpAddress::V6(v) => RData::AAAA(AAAA(v.into())) };
        m.add_answer(Record::from_rdata(Name::from_labels(a.labels.iter().map(|l| l.as_slice())).ok()?, a.ttl, data));
    }
    m.to_vec().ok()
}

/// Encodes a response message: header and questions first, then its answers.
pub fn encode_dns_response(response: &DnsResponse) -> (wire: Option<Vec<u8>>)
    ensures
        wire.deep_view() == dns_encode(response.deep_view()),
{
    match encode_dns_head(response.id, response.op_code, response.response_code, &response.queries) {
        Some(head) => {
            assert(head.deep_view() =~= head@);
            append_dns_answers(head.as_slice(), &response.answers)
        },
        None => None,
    }
}

/// `b` with ASCII capitals lowered, as `u8::to_ascii_lowercase` gives it.
pub open spec fn ascii_lower(b: u8) -> u8 {
    if 65 <= b <= 90 { (b + 32) as u8 } else { b }
}

/// Two labels are equal when their bytes agree up to ASCII case.
pub open spec fn labels_match(a: Seq<u8>, b: Seq<u8>) -> bool {
    a.len() == b.len() && forall|i: int| 0 <= i < a.len() ==> ascii_lower(#[trigger] a[i]) == ascii_lower(b[i])
}

/// Two names are equal, as `trust_dns_proto`'s `Name` compares them: the same
/// number of labels, each matching up to ASCII case.
pub open spec fn names_match(a: Seq<Seq<u8>>, b: Seq<Seq<u8>>) -> bool {
    a.len() == b.len() && forall|i: int| 0 <= i < a.len() ==> labels_match(#[trigger] a[i], b[i])
}

fn lower_byte(b: u8) -> (r: u8)
    ensures
        r == ascii_lower(b),
{
    if 65 <= b && b <= 90 { b + 32 } else { b }
}

fn label_matches(a: &Vec<u8>, b: &Vec<u8>) -> (r: bool)
    ensures
        r == labels_match(a@, b@),
{
    if a.len() != b.len() {
        return false;
    }
    let mut i: usize = 0;
    while i < a.len()
        invariant
            a@.len() == b@.len(),
            i <= a@.len(),
            forall|k: int| 0 <= k < i ==> ascii_lower(#[trigger] a@[k]) == ascii_lower(b@[k]),
        decreases a@.len() - i,
    {
        if lower_byte(a[i]) != lower_byte(b[i]) {
            return false;
        }
        i = i + 1;
    }
    true
}

/// Whether two names are equal up to ASCII case, as DNS compares names.
pub fn name_matches(a: &Vec<Vec<u8>>, b: &Vec<Vec<u8>>) -> (r: bool)
    ensures
        r == names_match(a.deep_view(), b.deep_view()),
{
    if a.len() != b.len() {
        return false;
    }
    let mut i: usize = 0;
    while i < a.len()
        invariant
            a@.len() == b@.len(),
            i <= a@.len(),
            forall|k: int| 0 <= k < i ==> labels_match(#[trigger] a.deep_view()[k], b.deep_view()[k]),
        decreases a@.len() - i,
    {
        assert(a.deep_view()[i as int] =~= a@[i as int]@);
        assert(b.deep_view()[i as int] =~= b@[i as int]@);
        if !label_matches(&a[i], &b[i]) {
            return false;
        }
        i = i + 1;
    }
    true
}

/// Names are compared in full, label by label and byte by byte: two names
/// match exactly when they have as many labels, each pair of labels has as
/// many bytes, and each pair of bytes is equal once ASCII capitals are lowered.
/// No label, wherever it stands, is left out of the comparison.
pub proof fn lemma_names_match_compares_every_label(a: Seq<Seq<u8>>, b: Seq<Seq<u8>>)
    ensures
        names_match(a, b) <==> {
            &&& a.len() == b.len()
            &&& forall|i: int| 0 <= i < a.len() ==> (#[trigger] a[i]).len() == b[i].len()
            &&& forall|i: int, j: int|
                #![trigger a[i][j], b[i][j]]
                0 <= i < a.len() && 0 <= j < a[i].len() ==> (if 65 <= a[i][j] <= 90 {
                    a[i][j] + 32
                } else {
                    a[i][j] as int
                }) == (if 65 <= b[i][j] <= 90 {
                    b[i][j] + 32
                } else {
                    b[i][j] as int
                })
        },
{
    let lowered_equal = forall|i: int, j: int|
        #![trigger a[i][j], b[i][j]]
        0 <= i < a.len() && 0 <= j < a[i].len() ==> (if 65 <= a[i][j] <= 90 {
            a[i][j] + 32
        } else {
            a[i][j] as int
        }) == (if 65 <= b[i][j] <= 90 {
            b[i][j] + 32
        } else {
            b[i][j] as int
        });
    if names_match(a, b) {
        assert forall|i: int| 0 <= i < a.len() implies (#[trigger] a[i]).len() == b[i].len() by {
            assert(labels_match(a[i], b[i]));
        }
        assert forall|i: int, j: int| 0 <= i < a.len() && 0 <= j < a[i].len() implies (if 65 <= a[i][j] <= 90 {
            a[i][j] + 32
        } else {
            a[i][j] as int
        }) == (if 65 <= b[i][j] <= 90 {
            b[i][j] + 32
        } else {
            b[i][j] as int
        }) by {
            assert(labels_match(a[i], b[i]));
            assert(ascii_lower(a[i][j]) == ascii_lower(b[i][j]));
        }
    }
    if a.len() == b.len() && (forall|i: int| 0 <= i < a.len() ==> (#[trigger] a[i]).len() == b[i].len())
        && lowered_equal {
        assert forall|i: int| 0 <= i < a.len() implies labels_match(#[trigger] a[i], b[i]) by {
            assert forall|j: int| 0 <= j < a[i].len() implies ascii_lower(#[trigger] a[i][j]) == ascii_lower(
                b[i][j],
            ) by {
                assert(a[i][j] == a[i][j]);
                assert(b[i][j] == b[i][j]);
            }
        }
    }
}

/// A copy of a name's labels.
pub fn copy_question_labels(labels: &Vec<Vec<u8>>) -> (copy: Vec<Vec<u8>>)
    ensures
        copy.deep_view() == labels.deep_view(),
{
    let mut copy: Vec<Vec<u8>> = Vec::new();
    let mut i: usize = 0;
    while i < labels.len()
        invariant
            i <= labels@.len(),
            copy@.len() == i,
            forall|k: int| 0 <= k < i ==> (#[trigger] copy@[k])@ == labels@[k]@,
        decreases labels@.len() - i,
    {
        copy.push(vstd::slice::slice_to_vec(labels[i].as_slice()));
        i = i + 1;
    }
    assert(copy.deep_view() =~= labels.deep_view());
    copy
}

/// A copy of a question.
pub fn copy_question(question: &DnsQuestion) -> (copy: DnsQuestion)
    ensures
        copy.deep_view() == question.deep_view(),
{
    DnsQuestion {
        labels: copy_question_labels(&question.labels),
        text: question.text.clone(),
        query_type: question.query_type,
        query_class: question.query_class,
    }
}

/// A copy of a question section.
pub fn copy_questions(questions: &Vec<DnsQuestion>) -> (copy: Vec<DnsQuestion>)
    ensures
        copy.deep_view() == questions.deep_view(),
{
    let mut copy: Vec<DnsQuestion> = Vec::new();
    let mut i: usize = 0;
    while i < questions.len()
        invariant
            i <= questions@.len(),
            copy@.len() == i,
            forall|k: int| 0 <= k < i ==> (#[trigger] copy@[k]).deep_view() == questions@[k].deep_view(),
        decreases questions@.len() - i,
    {
        copy.push(copy_question(&questions[i]));
        i = i + 1;
    }
    assert(copy.deep_view() =~= questions.deep_view());
    copy
}

/// Response code: no error.
pub const RCODE_NO_ERROR: u16 = 0;

/// Response code: the name does not exist.
pub const RCODE_NX_DOMAIN: u16 = 3;

/// TTL, in seconds, of the local zone's answer.
pub const LOCAL_ZONE_TTL: u32 = 300;

/// The loopback address the local zone resolves to (127.0.0.1).
pub const LOCAL_PROXY_IPV4: u32 = 0x7F00_0001;

/// The labels of the gateway's own zone, `api.fluxgate.local.`.
pub open spec fn local_zone_labels() -> Seq<Seq<u8>> {
    seq![
        seq![97u8, 112u8, 105u8],
        seq![102u8, 108u8, 117u8, 120u8, 103u8, 97u8, 116u8, 101u8],
        seq![108u8, 111u8, 99u8, 97u8, 108u8],
    ]
}

fn local_zone_name() -> (labels: Vec<Vec<u8>>)
    ensures
        labels.deep_view() == local_zone_labels(),
{
    let api: Vec<u8> = vec![97u8, 112u8, 105u8];
    let fluxgate: Vec<u8> = vec![102u8, 108u8, 117u8, 120u8, 103u8, 97u8, 116u8, 101u8];
    let local: Vec<u8> = vec![108u8, 111u8, 99u8, 97u8, 108u8];
    assert(api.deep_view() =~= local_zone_labels()[0]);
    assert(fluxgate.deep_view() =~= local_zone_labels()[1]);
    assert(local.deep_view() =~= local_zone_labels()[2]);
    let mut labels: Vec<Vec<u8>> = Vec::new();
    labels.push(api);
    labels.push(fluxgate);
    labels.push(local);
    assert(labels.deep_view() =~= local_zone_labels());
    labels
}

/// Whether some question of `request` asks for the gateway's own zone.
pub open spec fn asks_local_zone(queries: Seq<DnsQuestionView>) -> bool {
    exists|i: int| 0 <= i < queries.len() && names_match(#[trigger] queries[i].labels, local_zone_labels())
}

/// The local zone's answer to a request: the request's id, op code and
/// questions mirrored; one A record `api.fluxgate.local. 300 IN A 127.0.0.1`
/// with no error when some question asks for that name, else no answer and
/// "no such domain", so that the gateway never resolves foreign names.
pub open spec fn local_zone_response(request: DnsRequestView) -> DnsResponseView {
    let hit = asks_local_zone(request.queries);
    DnsResponseView {
        id: request.id,
        op_code: request.op_code,
        response_code: if hit { RCODE_NO_ERROR } else { RCODE_NX_DOMAIN },
        queries: request.queries,
        answers: if hit {
            seq![DnsAnswerView { labels: local_zone_labels(), ttl: LOCAL_ZONE_TTL, address: IpAddress::V4(LOCAL_PROXY_IPV4) }]
        } else {
            Seq::empty()
        },
    }
}

/// The local zone never resolves a foreign name: whatever it is asked, each
/// answer it gives is `api.fluxgate.local.` at 127.0.0.1; a request that does
/// not ask for that name gets no answer and "no such domain"; and the reply
/// always carries the request's id and questions.
pub proof fn lemma_local_zone_answers_only_its_domain(request: DnsRequestView)
    ensures
        ({
            let response = local_zone_response(request);
            &&& response.id == request.id
            &&& response.queries == request.queries
            &&& forall|i: int| 0 <= i < response.answers.len() ==> (#[trigger] response.answers[i]).labels
                == local_zone_labels() && response.answers[i].address == IpAddress::V4(LOCAL_PROXY_IPV4)
            &&& !asks_local_zone(request.queries) ==> response.answers.len() == 0
                && response.response_code == RCODE_NX_DOMAIN
            &&& asks_local_zone(request.queries) ==> response.answers.len() == 1
                && response.response_code == RCODE_NO_ERROR
        }),
{
}

/// A request none of whose questions names `api.fluxgate.local.` (three
/// labels, `api`, `fluxgate` and `local`, each in any ASCII case) is answered
/// "no such domain" with no answer record, whichever name it asks for and
/// whatever else that name shares with the zone; a request with such a
/// question gets "no error" and the one local answer.
pub proof fn lemma_foreign_names_get_no_such_domain(request: DnsRequestView)
    ensures
        ({
            let zone = local_zone_labels();
            let names_zone = exists|i: int|
                0 <= i < request.queries.len() && {
                    let l = #[trigger] request.queries[i].labels;
                    &&& l.len() == 3
                    &&& forall|k: int| 0 <= k < 3 ==> (#[trigger] l[k]).len() == zone[k].len()
                    &&& forall|k: int, j: int|
                        #![trigger l[k][j]]
                        0 <= k < 3 && 0 <= j < l[k].len() ==> (if 65 <= l[k][j] <= 90 {
                            l[k][j] + 32
                        } else {
                            l[k][j] as int
                        }) == zone[k][j]
                };
            let response = local_zone_response(request);
            &&& !names_zone ==> response.response_code == 3 && response.answers.len() == 0
            &&& names_zone ==> response.response_code == 0 && response.answers.len() == 1
        }),
{
    let zone = local_zone_labels();
    assert forall|i: int| 0 <= i < request.queries.len() implies names_match(
        #[trigger] request.queries[i].labels,
        zone,
    ) == {
        let l = request.queries[i].labels;
        &&& l.len() == 3
        &&& forall|k: int| 0 <= k < 3 ==> (#[trigger] l[k]).len() == zone[k].len()
        &&& forall|k: int, j: int|
            #![trigger l[k][j]]
            0 <= k < 3 && 0 <= j < l[k].len() ==> (if 65 <= l[k][j] <= 90 {
                l[k][j] + 32
            } else {
                l[k][j] as int
            }) == zone[k][j]
    } by {
        let l = request.queries[i].labels;
        lemma_names_match_compares_every_label(l, zone);
        assert forall|k: int, j: int| 0 <= k < 3 && 0 <= j < zone[k].len() implies (if 65 <= zone[k][j] <= 90 {
            zone[k][j] + 32
        } else {
            zone[k][j] as int
        }) == zone[k][j] by {
            assert(0 <= k < 3);
            if k == 0 {
                assert(zone[0] =~= seq![97u8, 112u8, 105u8]);
            } else if k == 1 {
                assert(zone[1] =~= seq![102u8, 108u8, 117u8, 120u8, 103u8, 97u8, 116u8, 101u8]);
            } else {
                assert(zone[2] =~= seq![108u8, 111u8, 99u8, 97u8, 108u8]);
            }
        }
    }
}

/// Answers a request from the local zone alone.
pub fn process_dns_message(request: &DnsRequest) -> (response: DnsResponse)
    ensures
        response.deep_view() == local_zone_response(request.deep_view()),
{
    let target = local_zone_name();
    let mut hit = false;
    let mut i: usize = 0;
    while i < request.queries.len()
        invariant
            i <= request.queries@.len(),
            target.deep_view() == local_zone_labels(),
            hit <==> exists|k: int| 0 <= k < i && names_match(
                #[trigger] request.queries.deep_view()[k].labels,
                local_zone_labels(),
            ),
        decreases request.queries@.len() - i,
    {
        assert(request.queries.deep_view()[i as int].labels == request.queries@[i as int].labels.deep_view());
        if name_matches(&request.queries[i].labels, &target) {
            hit = true;
        }
        i = i + 1;
    }
    let queries = copy_questions(&request.queries);
    let mut answers: Vec<DnsAnswer> = Vec::new();
    let response_code = if hit {
        answers.push(DnsAnswer { labels: target, ttl: LOCAL_ZONE_TTL, address: IpAddress::V4(LOCAL_PROXY_IPV4) });
        RCODE_NO_ERROR
    } else {
        RCODE_NX_DOMAIN
    };
    let response = DnsResponse { id: request.id, op_code: request.op_code, response_code, queries, answers };
    assert(response.answers.deep_view() =~= local_zone_response(request.deep_view()).answers);
    response
}

/// The media type of DNS wire messages carried over HTTPS.
pub open spec fn dns_message_media_type() -> Seq<char> {
    "application/dns-message"@
}

/// The HTTP answer of a DNS-over-HTTPS endpoint.
#[derive(Debug)]
pub enum DohReply {
    /// 200 with an `application/dns-message` body.
    Answer(Vec<u8>),
    /// A refusal with this status and text body.
    Refused { status: u16, message: &'static str },
}

/// Serves a DNS-over-HTTPS query from the local zone: the content type must
/// be `application/dns-message` (415 otherwise), the body must decode (400
/// otherwise), and the encoded local-zone answer is returned (500 when it
/// cannot be encoded).
pub fn serve_local_zone(content_type: Option<&str>, body: &[u8]) -> (reply: DohReply)
    ensures
        !(content_type matches Some(t) && t@ == dns_message_media_type()) ==> (reply matches DohReply::Refused { status, message }
            && status == 415 && message@ == "Expected application/dns-message"@),
        (content_type matches Some(t) && t@ == dns_message_media_type()) ==> match dns_decode(body@) {
            None => (reply matches DohReply::Refused { status, message } && status == 400
                && message@ == "Malformed DNS payload"@),
            Some(request) => match dns_encode(local_zone_response(request)) {
                None => (reply matches DohReply::Refused { status, message } && status == 500
                    && message@ == "DNS Serialization failed"@),
                Some(wire) => (reply matches DohReply::Answer(bytes) && bytes@ == wire),
            },
        },
{
    let expected = match content_type {
        Some(t) => same_text(t, "application/dns-message"),
        None => false,
    };
    if !expected {
        return DohReply::Refused { status: 415, message: "Expected application/dns-message" };
    }
    let request = match decode_dns_request(body) {
        Some(r) => r,
        None => return DohReply::Refused { status: 400, message: "Malformed DNS payload" },
    };
    let response = process_dns_message(&request);
    match encode_dns_response(&response) {
        Some(wire) => DohReply::Answer(wire),
        None => DohReply::Refused { status: 500, message: "DNS Serialization failed" },
    }
}

} // verus!
