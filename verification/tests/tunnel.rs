use http::HeaderMap;
use locho::attach::{http_head, Download, DownloadStep, HttpAction, HttpEvent, HttpExchange};
use locho::config::{Config, ServiceConfig, ServiceType};
use locho::host::{handle_stream, HostAction, HostEvent, HostServices, HostStage};
use locho::http_utils::response_headers;
use locho::protocol::{read_body_chunk, ReadStep, StreamRequestHead, BODY_CHUNK_LEN};
use locho::state::ServiceSecrets;
use locho::upstream::UpstreamUrl;

fn services() -> HostServices {
    let mut secrets = ServiceSecrets::new();
    secrets.insert("api", "secret");
    HostServices {
        config: Config {
            services: vec![ServiceConfig {
                name: "api".into(),
                service_type: ServiceType::Http,
                upstream: UpstreamUrl::parse("https://example.com"),
                endpoint: None,
                ca_cert: None,
            }],
        },
        secrets,
    }
}

/// The bytes that an attachment writes behind the head for a body in pieces.
fn upload(declared: Option<u64>, pieces: &[&[u8]]) -> (HttpExchange, Vec<u8>) {
    let mut exchange = HttpExchange::new("POST", declared).unwrap();
    let mut stream = Vec::new();
    let mut left = pieces.iter();
    let mut event = HttpEvent::Acquired;
    loop {
        event = match exchange.step(event) {
            HttpAction::Open => HttpEvent::Opened,
            HttpAction::SendHead => HttpEvent::Written,
            HttpAction::NextPiece => match left.next() {
                Some(piece) => HttpEvent::Piece(piece.to_vec()),
                None => HttpEvent::BodyEnded,
            },
            HttpAction::Write(bytes) => {
                stream.extend_from_slice(&bytes);
                HttpEvent::Written
            }
            HttpAction::ReadHead => return (exchange, stream),
            other => panic!("{other:?}"),
        };
    }
}

/// What the host has forwarded for a head and the bytes behind it.
fn forwarded(declared: Option<u64>, stream: &[u8]) -> Vec<u8> {
    let services = services();
    let head = http_head("api", "secret", "POST", Some("/x"), vec![], declared);
    let mut event = HostEvent::HeadRead(StreamRequestHead::Http(head));
    let mut stage = HostStage::Head;
    let mut at = 0;
    loop {
        let (next, action) = handle_stream(&services, stage, event);
        stage = next;
        event = match action {
            HostAction::ReadBody(len) => HostEvent::BodyRead(stream[at..at + len].to_vec()),
            HostAction::ReadChunk => match read_body_chunk(&stream[at..]) {
                Ok(ReadStep::Done(len)) => {
                    let chunk = stream[at + 4..at + 4 + len].to_vec();
                    at += 4 + len;
                    HostEvent::ChunkRead(chunk)
                }
                other => panic!("{other:?}"),
            },
            HostAction::Forward { service, request } => {
                assert_eq!(service, 0);
                assert_eq!(request.url.as_str(), "https://example.com/x");
                return request.body;
            }
            other => panic!("{other:?}"),
        };
    }
}

#[test]
fn declared_request_body_reaches_upstream() {
    let (_, stream) = upload(Some(6), &[b"ab", b"", b"cdef"]);
    assert_eq!(stream, b"abcdef");
    assert_eq!(forwarded(Some(6), &stream), b"abcdef");
}

#[test]
fn chunked_request_body_reaches_upstream() {
    let large = vec![7u8; 2 * BODY_CHUNK_LEN + 3];
    let (_, stream) = upload(None, &[b"ab", b"", &large]);
    let mut expected = b"ab".to_vec();
    expected.extend_from_slice(&large);
    assert_eq!(forwarded(None, &stream), expected);
}

#[test]
fn answer_reaches_the_client() {
    let mut headers = HeaderMap::new();
    headers.insert("x-upstream", "yes".parse().unwrap());
    headers.insert("connection", "close".parse().unwrap());
    let (_, action) = handle_stream(
        &services(),
        HostStage::Upstream,
        HostEvent::UpstreamAnswered { status: 201, headers, body: b"hello".to_vec() },
    );
    let (head, sent) = match action {
        HostAction::Answer { head, body } => (head, body),
        other => panic!("{other:?}"),
    };
    let (mut exchange, _) = upload(Some(0), &[]);
    match exchange.step(HttpEvent::HeadRead(head)) {
        HttpAction::Respond { status, headers, body_len } => {
            assert_eq!(status, 201);
            assert_eq!(headers, vec![("x-upstream".to_string(), "yes".to_string())]);
            assert_eq!(
                response_headers(headers).unwrap(),
                vec![("x-upstream".to_string(), b"yes".to_vec())]
            );
            let download = Download::new(body_len);
            assert_eq!(download.next(), DownloadStep::Read(sent.len()));
        }
        other => panic!("{other:?}"),
    }
}

#[test]
fn refusal_reaches_the_client() {
    let head = http_head("api", "wrong", "GET", None, vec![], Some(0));
    let (_, action) = handle_stream(
        &services(),
        HostStage::Head,
        HostEvent::HeadRead(StreamRequestHead::Http(head)),
    );
    let head = match action {
        HostAction::Answer { head, .. } => head,
        other => panic!("{other:?}"),
    };
    let (mut exchange, _) = upload(Some(0), &[]);
    assert!(matches!(
        exchange.step(HttpEvent::HeadRead(head)),
        HttpAction::Respond { status: 403, .. }
    ));
}
