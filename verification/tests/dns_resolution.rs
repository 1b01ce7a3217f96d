use fluxgate::dns::{decode_dns_request, process_dns_message, serve_local_zone, DohReply, IpAddress};
use fluxgate::doh::{
    gather_upstream_answers, parse_ip_address, DohExchange, DohStep, LocalClusterProvider,
    ResolverTier, UpstreamAnswer, UpstreamProvider,
};
use trust_dns_proto::op::{Message, ResponseCode};
use trust_dns_proto::rr::RData;

fn query_wire(id: u16, names: &[&str]) -> Vec<u8> {
    let mut w = vec![(id >> 8) as u8, id as u8, 0x01, 0x00, 0, names.len() as u8, 0, 0, 0, 0, 0, 0];
    for name in names {
        for label in name.split('.') {
            w.push(label.len() as u8);
            w.extend_from_slice(label.as_bytes());
        }
        w.extend_from_slice(&[0, 0, 1, 0, 1]);
    }
    w
}

#[test]
fn local_zone_resolves_to_loopback() {
    // the wire query from the project's validation notes
    let wire = b"\x00\x01\x01\x00\x00\x01\x00\x00\x00\x00\x00\x00\x03api\x08fluxgate\x05local\x00\x00\x01\x00\x01";
    match serve_local_zone(Some("application/dns-message"), wire) {
        DohReply::Answer(bytes) => {
            assert_eq!(&bytes[bytes.len() - 4..], &[0x7f, 0, 0, 1]);
            let m = Message::from_vec(&bytes).unwrap();
            assert_eq!(m.id(), 1);
            assert_eq!(m.response_code(), ResponseCode::NoError);
            assert_eq!(m.queries().len(), 1);
            assert_eq!(m.answers().len(), 1);
            assert_eq!(m.answers()[0].ttl(), 300);
            assert_eq!(m.answers()[0].data(), Some(&RData::A("127.0.0.1".parse().unwrap())));
        }
        other => panic!("unexpected {:?}", other),
    }
}

#[test]
fn local_zone_match_ignores_case() {
    let wire = query_wire(9, &["API.FluxGate.LOCAL"]);
    match serve_local_zone(Some("application/dns-message"), &wire) {
        DohReply::Answer(bytes) => {
            let m = Message::from_vec(&bytes).unwrap();
            assert_eq!(m.response_code(), ResponseCode::NoError);
            assert_eq!(m.answers()[0].name().to_string(), "api.fluxgate.local.");
        }
        other => panic!("unexpected {:?}", other),
    }
}

#[test]
fn foreign_names_get_nxdomain() {
    let wire = query_wire(77, &["example.com"]);
    match serve_local_zone(Some("application/dns-message"), &wire) {
        DohReply::Answer(bytes) => {
            let m = Message::from_vec(&bytes).unwrap();
            assert_eq!(m.id(), 77);
            assert_eq!(m.response_code(), ResponseCode::NXDomain);
            assert_eq!(m.answers().len(), 0);
            assert_eq!(m.queries()[0].name().to_string(), "example.com.");
        }
        other => panic!("unexpected {:?}", other),
    }
}

#[test]
fn wrong_content_type_and_garbage_are_refused() {
    let wire = query_wire(1, &["api.fluxgate.local"]);
    match serve_local_zone(Some("application/json"), &wire) {
        DohReply::Refused { status, message } => {
            assert_eq!(status, 415);
            assert_eq!(message, "Expected application/dns-message");
        }
        other => panic!("unexpected {:?}", other),
    }
    match serve_local_zone(None, &wire) {
        DohReply::Refused { status, .. } => assert_eq!(status, 415),
        other => panic!("unexpected {:?}", other),
    }
    match serve_local_zone(Some("application/dns-message"), &[1, 2, 3]) {
        DohReply::Refused { status, message } => {
            assert_eq!(status, 400);
            assert_eq!(message, "Malformed DNS payload");
        }
        other => panic!("unexpected {:?}", other),
    }
}

#[test]
fn decoded_request_exposes_questions() {
    let wire = query_wire(0x1234, &["api.fluxgate.local", "b.example"]);
    let r = decode_dns_request(&wire).unwrap();
    assert_eq!(r.id, 0x1234);
    assert_eq!(r.op_code, 0);
    assert_eq!(r.queries.len(), 2);
    assert_eq!(r.queries[0].labels, vec![b"api".to_vec(), b"fluxgate".to_vec(), b"local".to_vec()]);
    assert_eq!(r.queries[0].text, "api.fluxgate.local.");
    assert_eq!(r.queries[1].query_type, 1);
    assert_eq!(r.queries[1].query_class, 1);
    let resp = process_dns_message(&r);
    assert_eq!(resp.response_code, 0);
    assert_eq!(resp.answers.len(), 1);
    assert_eq!(resp.answers[0].address, IpAddress::V4(0x7f00_0001));
    assert_eq!(resp.queries.len(), 2);
}

fn run_exchange(
    wire: &[u8],
    primary: &mut LocalClusterProvider,
    fallback: Option<&dyn Fn(&str) -> Option<Vec<IpAddress>>>,
) -> (DohReply, Vec<(ResolverTier, String)>) {
    let mut ex = DohExchange::start(wire, fallback.is_some()).unwrap();
    let mut lookups = vec![];
    loop {
        match ex.next_step() {
            DohStep::Lookup { tier, domain } => {
                let result = match tier {
                    ResolverTier::Primary => primary.resolve(&domain),
                    ResolverTier::Fallback => (fallback.unwrap())(&domain),
                };
                lookups.push((tier, domain));
                ex.deliver(result);
            }
            DohStep::Reply(r) => return (r, lookups),
        }
    }
}

#[test]
fn chain_tries_fallback_only_after_primary_misses() {
    let mut primary = LocalClusterProvider::new("api.fluxgate.local");
    primary.refresh(&vec!["10.0.0.1".to_string(), "bogus".to_string(), "10.0.0.2".to_string()]);
    let fallback = |d: &str| if d == "example.com" { Some(vec![IpAddress::V6(1)]) } else { None };
    let wire = query_wire(5, &["api.fluxgate.local", "example.com", "nowhere.test"]);
    let (reply, lookups) = run_exchange(&wire, &mut primary, Some(&fallback));
    assert_eq!(
        lookups,
        vec![
            (ResolverTier::Primary, "api.fluxgate.local".to_string()),
            (ResolverTier::Primary, "example.com".to_string()),
            (ResolverTier::Fallback, "example.com".to_string()),
            (ResolverTier::Primary, "nowhere.test".to_string()),
            (ResolverTier::Fallback, "nowhere.test".to_string()),
        ]
    );
    match reply {
        DohReply::Answer(bytes) => {
            let m = Message::from_vec(&bytes).unwrap();
            assert_eq!(m.id(), 5);
            assert_eq!(m.response_code(), ResponseCode::NXDomain);
            assert_eq!(m.answers().len(), 2);
            assert_eq!(m.answers()[0].ttl(), 30);
            assert_eq!(m.answers()[0].data(), Some(&RData::A("10.0.0.1".parse().unwrap())));
            assert_eq!(m.answers()[1].data(), Some(&RData::AAAA("::1".parse().unwrap())));
        }
        other => panic!("unexpected {:?}", other),
    }
}

#[test]
fn chain_without_fallback_and_all_resolved() {
    let mut primary = LocalClusterProvider::new("api.fluxgate.local");
    primary.refresh(&vec!["10.0.0.1".to_string()]);
    let wire = query_wire(6, &["api.fluxgate.local"]);
    let (reply, lookups) = run_exchange(&wire, &mut primary, None);
    assert_eq!(lookups.len(), 1);
    match reply {
        DohReply::Answer(bytes) => {
            let m = Message::from_vec(&bytes).unwrap();
            assert_eq!(m.response_code(), ResponseCode::NoError);
        }
        other => panic!("unexpected {:?}", other),
    }
    let mut empty = LocalClusterProvider::new("api.fluxgate.local");
    let (reply, _) = run_exchange(&wire, &mut empty, None);
    match reply {
        DohReply::Answer(bytes) => {
            assert_eq!(Message::from_vec(&bytes).unwrap().response_code(), ResponseCode::NXDomain)
        }
        other => panic!("unexpected {:?}", other),
    }
    assert!(DohExchange::start(&[0], false).is_err());
}

#[test]
fn cluster_provider_round_robin_and_refresh() {
    let mut p = LocalClusterProvider::new("api.fluxgate.local");
    assert_eq!(p.resolve("api.fluxgate.local"), None);
    p.refresh(&vec!["10.0.0.1".to_string(), "::2".to_string()]);
    assert_eq!(p.resolve("api.fluxgate.local"), Some(vec![IpAddress::V4(0x0a00_0001)]));
    assert_eq!(p.resolve("other.local"), None);
    assert_eq!(p.resolve("api.fluxgate.local"), Some(vec![IpAddress::V6(2)]));
    assert_eq!(p.resolve("api.fluxgate.local"), Some(vec![IpAddress::V4(0x0a00_0001)]));
    p.refresh(&vec!["junk".to_string()]);
    assert_eq!(p.resolve("api.fluxgate.local"), Some(vec![IpAddress::V6(2)]));
    assert_eq!(p.resolve("API.fluxgate.local"), None);
}

#[test]
fn ip_parsing() {
    assert_eq!(parse_ip_address("1.2.3.4"), Some(IpAddress::V4(0x0102_0304)));
    assert_eq!(parse_ip_address("::ffff:1.2.3.4"), Some(IpAddress::V6(0xffff_0102_0304)));
    assert_eq!(parse_ip_address("1.2.3"), None);
    assert_eq!(parse_ip_address(" 1.2.3.4"), None);
}

#[test]
fn upstream_urls_and_answers() {
    let p = UpstreamProvider::new(fluxgate::doh::PROVIDER_GOOGLE);
    assert_eq!(p.query_url("example.com", "AAAA"), "https://dns.google/resolve?name=example.com&type=AAAA");
    let batches = vec![
        Some(vec![
            UpstreamAnswer { record_type: 5, data: "alias.example.".to_string() },
            UpstreamAnswer { record_type: 1, data: "93.184.216.34".to_string() },
            UpstreamAnswer { record_type: 1, data: "garbage".to_string() },
        ]),
        None,
        Some(vec![UpstreamAnswer { record_type: 28, data: "::1".to_string() }]),
    ];
    assert_eq!(
        gather_upstream_answers(&batches),
        Some(vec![IpAddress::V4(0x5db8_d822), IpAddress::V6(1)])
    );
    let nothing = vec![None, Some(vec![UpstreamAnswer { record_type: 5, data: "1.1.1.1".to_string() }])];
    assert_eq!(gather_upstream_answers(&nothing), None);
}
