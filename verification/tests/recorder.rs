//! The recording proxy: what it remembers, what it relays, and how it reads a
//! request off the wire.

use vpndetection::integration::recorder::{
    from_hex, push_head, read_head, read_head_text, split, to_hex, Forward, ForwardAction,
    ForwardEvent, HeadState, Recorder, Reply, Request, MAX_BODY, MAX_CAPTURED_BODY, MAX_HEAD,
};

fn recorder() -> Recorder {
    Recorder::start(8080, "https://api.example.test//", Some("secret-key".to_owned()))
}

fn pairs(headers: &[(&str, &str)]) -> Vec<(String, String)> {
    headers.iter().map(|(k, v)| ((*k).to_owned(), (*v).to_owned())).collect()
}

fn request(target: &str, headers: &[(&str, &str)]) -> Request {
    Request { target: target.to_owned(), headers: pairs(headers) }
}

fn answered(status: u16, content_type: Option<&str>, location: Option<&str>) -> ForwardEvent {
    ForwardEvent::Answered {
        status,
        content_type: content_type.map(str::to_owned),
        retry_after: None,
        location: location.map(str::to_owned),
    }
}

fn reply(action: ForwardAction) -> Reply {
    match action {
        ForwardAction::Reply(reply) => reply,
        other => panic!("{other:?}"),
    }
}

#[test]
fn a_recorder_stands_at_its_port_before_its_upstream() {
    let recorder = recorder();
    assert_eq!(recorder.base_url, "http://127.0.0.1:8080");
    assert_eq!(recorder.upstream, "https://api.example.test");
    assert!(recorder.facts().is_empty());
    assert!(!recorder.carried_key());
    assert_eq!(recorder.json_body("/1.1.1.1"), None);
}

#[test]
fn a_url_is_split_without_its_query() {
    for (url, origin, path) in [
        ("https://a.test/b/c?d=e", "https://a.test", "/b/c"),
        ("https://a.test", "https://a.test", "/"),
        ("a.test/b", "http://a.test", "/b"),
        ("https://a.test?x=/y", "https://a.test", "/"),
        ("https://a.test?sig=x", "https://a.test", "/"),
        ("https://a.test/b?to=https://c.test/d", "https://a.test", "/b"),
        ("a.test?to=https://c.test/d", "http://a.test", "/"),
        ("", "http://", "/"),
    ] {
        assert_eq!(split(url), (origin.to_owned(), path.to_owned()), "{url}");
    }
}

#[test]
fn hex_reads_back() {
    for value in ["", "a", "https://s.test/x?sig=%2F", "\u{e9}\u{1f600}"] {
        assert_eq!(from_hex(&to_hex(value)), value);
    }
    assert_eq!(to_hex("Az\u{e9}"), "417ac3a9");
}

#[test]
fn what_is_not_hex_is_left_out() {
    assert_eq!(from_hex("41zz42"), "AB");
    assert_eq!(from_hex("414"), "A\u{4}");
    assert_eq!(from_hex("+f"), "\u{f}");
    assert_eq!(from_hex("-f41"), "A");
    assert_eq!(from_hex("ff"), "\u{fffd}");
    assert_eq!(from_hex("e9AC"), "\u{fffd}");
}

#[test]
fn a_redirect_leads_where_it_did() {
    let recorder = recorder();
    let headers =
        recorder.relayed(Some("text/plain".to_owned()), None, Some("https://s.test/x".to_owned()));
    assert_eq!(headers[0], ("content-type".to_owned(), "text/plain".to_owned()));
    let (name, value) = &headers[1];
    assert_eq!(name, "location");
    let target = value.strip_prefix("http://127.0.0.1:8080").expect("back to the recorder");
    assert_eq!(recorder.target(target), "https://s.test/x");
    assert_eq!(recorder.target("/1.1.1.1"), "https://api.example.test/1.1.1.1");
}

#[test]
fn a_carried_key_is_a_fact_and_never_the_key() {
    let mut recorder = recorder();
    recorder.note(&request("/x", &[("accept", "*/*")]), "https://api.example.test/x?y=1");
    assert!(!recorder.carried_key());
    let bearer = request("/x", &[("authorization", "Bearer secret-key")]);
    recorder.note(&bearer, "https://api.example.test/x");
    assert!(recorder.carried_key());
    let facts = recorder.facts();
    assert_eq!(facts.len(), 2);
    assert_eq!(facts[0].origin, "https://api.example.test");
    assert_eq!(facts[0].path, "/x");
    assert!(!facts[0].carried_key);
    assert!(facts[1].carried_key);
    assert!(!format!("{facts:?}").contains("secret-key"));

    let mut signed = Recorder::start(1, "https://a.test", None);
    signed.note(&request("/", &[]), "https://s.test?sig=abc");
    assert_eq!(signed.facts()[0].origin, "https://s.test");
    assert_eq!(signed.facts()[0].path, "/");
    assert!(!format!("{:?}", signed.facts()).contains("abc"), "a signature is no fact");

    let mut keyed = Recorder::start(1, "https://a.test", Some("k".to_owned()));
    keyed.note(&request("/", &[]), "https://a.test/?apikey=k");
    assert!(keyed.carried_key());

    let mut keyless = Recorder::start(1, "https://a.test", None);
    keyless.note(&bearer, "https://a.test/");
    assert!(!keyless.carried_key());
}

#[test]
fn what_belongs_to_this_hop_is_not_forwarded() {
    let sent = request(
        "/x",
        &[
            ("host", "127.0.0.1"),
            ("accept", "*/*"),
            ("connection", "close"),
            ("content-length", "0"),
            ("transfer-encoding", "chunked"),
            ("accept-encoding", "gzip"),
            ("authorization", "Bearer k"),
        ],
    );
    assert_eq!(sent.outbound(), pairs(&[("accept", "*/*"), ("authorization", "Bearer k")]));
}

#[test]
fn only_small_json_is_kept() {
    let mut recorder = recorder();
    let json = pairs(&[("content-type", "application/json; charset=utf-8")]);
    let url = "https://api.example.test/1.1.1.1?x=1";
    recorder.capture(url, &json, &b"{\"ip\":\"1.1.1.1\"}".to_vec());
    assert_eq!(recorder.json_body("/1.1.1.1").as_deref(), Some("{\"ip\":\"1.1.1.1\"}"));

    recorder.capture("https://a.test/html", &pairs(&[("content-type", "text/html")]), &vec![b'x']);
    assert_eq!(recorder.json_body("/html"), None);
    recorder.capture("https://a.test/bad", &json, &vec![0xff]);
    assert_eq!(recorder.json_body("/bad"), None);
    recorder.capture("https://a.test/torn", &json, &b"{\"ip\":".to_vec());
    assert_eq!(recorder.json_body("/torn"), None, "it does not read as JSON");
    let mut most = vec![b' '; MAX_CAPTURED_BODY];
    most[0] = b'1';
    recorder.capture("https://a.test/most", &json, &most);
    assert!(recorder.json_body("/most").is_some());
    most.push(b' ');
    recorder.capture("https://a.test/big", &json, &most);
    assert_eq!(recorder.json_body("/big"), None);
}

#[test]
fn a_forwarded_answer_is_relayed_and_kept() {
    let mut recorder = recorder();
    let mut call = Forward::start("https://api.example.test/1.1.1.1".to_owned());
    let first = recorder.forward(&mut call, answered(200, Some("application/json"), None));
    assert!(matches!(first, ForwardAction::Read));
    for part in [b"{\"ip\":".to_vec(), b"1}".to_vec()] {
        let next = recorder.forward(&mut call, ForwardEvent::Chunk(part));
        assert!(matches!(next, ForwardAction::Read));
    }
    let reply = reply(recorder.forward(&mut call, ForwardEvent::Ended));
    assert_eq!(reply.status, 200);
    assert_eq!(reply.headers, pairs(&[("content-type", "application/json")]));
    assert_eq!(reply.body, b"{\"ip\":1}");
    assert_eq!(recorder.json_body("/1.1.1.1").as_deref(), Some("{\"ip\":1}"));
}

#[test]
fn a_failed_forward_is_a_gateway_failure() {
    let mut recorder = recorder();
    let url = "https://a.test/x";
    let mut call = Forward::start(url.to_owned());
    let failed = ForwardEvent::Failed("refused".to_owned());
    let answer = reply(recorder.forward(&mut call, failed));
    assert_eq!(answer.status, 502);
    assert_eq!(answer.headers, pairs(&[("content-type", "application/json")]));
    assert_eq!(answer.body, b"{\"error\":\"forwarding to https://a.test/x failed: refused\"}");

    let mut call = Forward::start(url.to_owned());
    recorder.forward(&mut call, answered(200, None, None));
    let answer = reply(recorder.forward(&mut call, ForwardEvent::Failed("reset".to_owned())));
    assert_eq!(answer.body, b"{\"error\":\"reading https://a.test/x failed: reset\"}");
}

#[test]
fn nothing_larger_than_the_limit_is_proxied() {
    let mut recorder = recorder();
    let mut call = Forward::start("https://a.test/x".to_owned());
    recorder.forward(&mut call, answered(200, None, None));
    let full = ForwardEvent::Chunk(vec![0; MAX_BODY]);
    assert!(matches!(recorder.forward(&mut call, full), ForwardAction::Read));
    let answer = reply(recorder.forward(&mut call, ForwardEvent::Chunk(vec![0])));
    assert_eq!(answer.status, 502);
    assert_eq!(
        answer.body,
        b"{\"error\":\"https://a.test/x answered more than 33554432 bytes\"}"
    );
}

#[test]
fn a_gateway_message_is_quoted() {
    let reply = Reply::gateway("a \"b\"\n\u{1}\u{e9}".to_owned());
    assert_eq!(reply.body, "{\"error\":\"a \\\"b\\\"\\n\\u0001\u{e9}\"}".as_bytes());
}

#[test]
fn a_reply_starts_with_its_head() {
    let reply = Reply {
        status: 302,
        headers: pairs(&[("content-type", "text/plain"), ("location", "/x")]),
        body: b"abc".to_vec(),
    };
    assert_eq!(
        reply.head(),
        "HTTP/1.1 302 X\r\nContent-Length: 3\r\nConnection: close\r\n\
         content-type: text/plain\r\nlocation: /x\r\n\r\n"
    );
}

#[test]
fn a_head_ends_at_its_blank_line() {
    let mut raw = Vec::new();
    let text = b"GET /x HTTP/1.1\r\nHost: a\r\n\r\n";
    for (place, byte) in text.iter().enumerate() {
        let state = push_head(&mut raw, *byte);
        let want = if place + 1 == text.len() { HeadState::Whole } else { HeadState::More };
        assert_eq!(state, want, "{place}");
    }
    let request = read_head(&raw).expect("a request");
    assert_eq!(request.target, "/x");
    assert_eq!(request.headers, pairs(&[("host", "a")]));
}

#[test]
fn a_head_longer_than_any_request_is_refused() {
    let mut raw = Vec::new();
    for _ in 0..MAX_HEAD {
        assert_eq!(push_head(&mut raw, b'x'), HeadState::More);
    }
    assert_eq!(push_head(&mut raw, b'x'), HeadState::TooLong);
}

#[test]
fn headers_are_named_in_lower_case() {
    let text = "GET  /y?z HTTP/1.1\r\nX-Api-Key :  a:b \r\nnot a header\r\n\u{c9}T: \u{c9}\r\n\r\n";
    let request = read_head_text(text).expect("a request");
    assert_eq!(request.target, "/y?z");
    assert_eq!(request.headers, pairs(&[("x-api-key", "a:b"), ("\u{e9}t", "\u{c9}")]));
}

#[test]
fn a_head_without_a_target_is_no_request() {
    assert!(read_head_text("").is_none());
    assert!(read_head_text("GET\r\n\r\n").is_none());
    assert!(read_head_text("  \r\nGET /x\r\n").is_none());
    assert!(read_head(&vec![b'G', b' ', 0xff]).is_some_and(|r| r.target == "\u{fffd}"));
}

#[test]
fn hex_is_two_digits_a_byte() {
    for value in ["", "a", "\u{e9}", "https://s.test/x?sig=%2F"] {
        let hex = to_hex(value);
        assert_eq!(hex.len(), 2 * value.len());
        assert!(hex.chars().all(|c| matches!(c, '0'..='9' | 'a'..='f')), "{hex}");
    }
}

#[test]
fn a_head_is_the_one_its_text_says() {
    let text = "GET /caf\u{e9} HTTP/1.1\r\nX-ID: Caf\u{e9}\r\nACCEPT: */*\r\n";
    let read = read_head(&text.as_bytes().to_vec()).expect("a head");
    assert_eq!(read.target, "/caf\u{e9}");
    assert_eq!(read.headers, pairs(&[("x-id", "Caf\u{e9}"), ("accept", "*/*")]));
    let spelled = read_head_text(text).expect("a head");
    assert_eq!(spelled.target, read.target);
    assert_eq!(spelled.headers, read.headers);
}
