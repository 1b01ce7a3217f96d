use fluxgate::proxy::{
    no_target_reply, prepare_forward_headers, proxy_reply, target_url, DownstreamOutcome,
    ProxyState,
};

#[test]
fn round_robin_cycles_through_targets() {
    let mut state = ProxyState::new(vec!["http://a".to_string(), "http://b".to_string(), "http://c".to_string()]);
    let picks: Vec<String> = (0..7).map(|_| state.get_next_target()).collect();
    assert_eq!(picks, vec!["http://a", "http://b", "http://c", "http://a", "http://b", "http://c", "http://a"]);
}

#[test]
fn no_targets_gives_empty_string() {
    let mut state = ProxyState::new(vec![]);
    assert_eq!(state.get_next_target(), "");
    assert_eq!(state.get_next_target(), "");
    let r = no_target_reply();
    assert_eq!(r.status, 503);
    assert_eq!(r.message, "No AI nodes available");
}

#[test]
fn downstream_url_joins_path() {
    assert_eq!(target_url("http://node:11434", "chat/completions"), "http://node:11434/v1/chat/completions");
    assert_eq!(target_url("", ""), "/v1/");
}

#[test]
fn forward_headers_copy_valid_authorization() {
    let h = prepare_forward_headers(Some(b"Bearer abc\tdef"));
    assert_eq!(h.authorization, Some(b"Bearer abc\tdef".to_vec()));
    assert_eq!(h.content_type, "application/json");
    let h = prepare_forward_headers(Some(b"Bearer \x7fabc"));
    assert_eq!(h.authorization, None);
    let h = prepare_forward_headers(Some(b"a\nb"));
    assert_eq!(h.authorization, None);
    let h = prepare_forward_headers(Some(&[0xC3, 0xA9]));
    assert_eq!(h.authorization, Some(vec![0xC3, 0xA9]));
    let h = prepare_forward_headers(None);
    assert_eq!(h.authorization, None);
}

#[test]
fn downstream_answer_is_streamed_back() {
    let r = proxy_reply(DownstreamOutcome::Responded {
        status: 201,
        content_type: Some(b"text/event-stream".to_vec()),
        has_transfer_encoding: true,
    });
    assert_eq!(r.status, 201);
    assert!(r.streams_body);
    assert_eq!(r.content_type, Some(b"text/event-stream".to_vec()));
    assert!(r.chunked);
    let r = proxy_reply(DownstreamOutcome::Responded { status: 1000, content_type: None, has_transfer_encoding: false });
    assert_eq!(r.status, 500);
    assert!(!r.chunked);
    let r = proxy_reply(DownstreamOutcome::Responded { status: 99, content_type: None, has_transfer_encoding: false });
    assert_eq!(r.status, 500);
}

#[test]
fn downstream_failures_map_to_gateway_errors() {
    let r = proxy_reply(DownstreamOutcome::BuildFailed);
    assert_eq!((r.status, r.streams_body), (500, false));
    let r = proxy_reply(DownstreamOutcome::Unreachable);
    assert_eq!((r.status, r.message), (502, "Downstream service unreachable"));
    let r = proxy_reply(DownstreamOutcome::TimedOut);
    assert_eq!((r.status, r.message), (504, "Request timed out waiting for AI node"));
}
