use http::HeaderMap;
use locho::auth;
use locho::config::{Config, ServiceConfig, ServiceType};
use locho::host::{
    answer_of_upstream, authorize, forward_to_upstream, handle_stream, HostAction, HostEvent,
    HostServices, HostStage,
};
use locho::net::{IpAddress, SocketAddress};
use locho::protocol::{
    LochoRequestHead, StreamRequestHead, TcpRequestHead, MAX_BODY_LEN, PROTOCOL_VERSION,
};
use locho::state::ServiceSecrets;
use locho::upstream::UpstreamUrl;

fn services() -> HostServices {
    let mut secrets = ServiceSecrets::new();
    secrets.insert("api", "correct");
    secrets.insert("database", "db-secret");
    HostServices {
        config: Config {
            services: vec![
                ServiceConfig {
                    name: "api".into(),
                    service_type: ServiceType::Http,
                    upstream: UpstreamUrl::parse("https://example.com"),
                    endpoint: None,
                    ca_cert: None,
                },
                ServiceConfig {
                    name: "database".into(),
                    service_type: ServiceType::Tcp,
                    upstream: None,
                    endpoint: Some(endpoint()),
                    ca_cert: None,
                },
                ServiceConfig {
                    name: "secretless".into(),
                    service_type: ServiceType::Http,
                    upstream: UpstreamUrl::parse("https://example.com"),
                    endpoint: None,
                    ca_cert: None,
                },
            ],
        },
        secrets,
    }
}

fn endpoint() -> SocketAddress {
    SocketAddress::new(IpAddress::V4([127, 0, 0, 1]), 5432)
}

fn request(service: &str, proof: &str) -> LochoRequestHead {
    LochoRequestHead {
        version: PROTOCOL_VERSION,
        service: service.into(),
        secret_proof: proof.into(),
        method: "GET".into(),
        path_and_query: "/".into(),
        headers: vec![],
        body_len: Some(0),
    }
}

fn tcp(service: &str, secret: &str) -> StreamRequestHead {
    StreamRequestHead::Tcp(TcpRequestHead {
        version: PROTOCOL_VERSION,
        service: service.into(),
        secret_proof: auth::secret_proof(secret),
    })
}

fn open(head: StreamRequestHead) -> (HostStage, HostAction) {
    handle_stream(&services(), HostStage::Head, HostEvent::HeadRead(head))
}

fn status_of(action: HostAction) -> u16 {
    match action {
        HostAction::Answer { head, .. } => head.status,
        other => panic!("{other:?}"),
    }
}

fn refused(request: LochoRequestHead) -> u16 {
    let (stage, action) = open(StreamRequestHead::Http(request));
    assert!(matches!(stage, HostStage::Done));
    status_of(action)
}

#[test]
fn capability_is_scoped_to_service() {
    assert_eq!(refused(request("api", &auth::secret_proof("wrong"))), 403);
    assert_eq!(refused(request("api", &auth::secret_proof("db-secret"))), 403);
}

#[test]
fn unknown_service_is_rejected() {
    assert_eq!(refused(request("missing", &auth::secret_proof("correct"))), 404);
}

#[test]
fn unsupported_request_version_is_rejected() {
    let mut request = request("api", &auth::secret_proof("correct"));
    request.version = PROTOCOL_VERSION + 1;
    assert_eq!(refused(request), 400);
}

#[test]
fn service_without_secret_is_closed() {
    assert_eq!(refused(request("secretless", &auth::secret_proof(""))), 403);
}

#[test]
fn authorization_names_the_service() {
    let services = services();
    let proof = auth::secret_proof("db-secret");
    assert_eq!(authorize(&services, PROTOCOL_VERSION, "database", &proof), Ok(1));
    assert_eq!(authorize(&services, 1, "database", &proof), Err(400));
    assert_eq!(authorize(&services, PROTOCOL_VERSION, "x", &proof), Err(404));
    assert_eq!(authorize(&services, PROTOCOL_VERSION, "api", &proof), Err(403));
}

#[test]
fn malformed_head_is_rejected() {
    let (_, action) = handle_stream(&services(), HostStage::Head, HostEvent::HeadFailed);
    assert_eq!(status_of(action), 400);
}

#[test]
fn long_body_is_rejected_before_it_is_read() {
    let mut long = request("api", &auth::secret_proof("correct"));
    long.body_len = Some(MAX_BODY_LEN as u64 + 1);
    assert_eq!(refused(long), 413);
}

#[test]
fn request_is_forwarded_and_answered() {
    let services = services();
    let mut head = request("api", &auth::secret_proof("correct"));
    head.method = "POST".into();
    head.path_and_query = "/hello?value=1".into();
    head.headers = vec![
        ("X-Client".into(), "integration".into()),
        ("connection".into(), "close".into()),
    ];
    head.body_len = Some(7);
    let (stage, action) = open(StreamRequestHead::Http(head));
    assert!(matches!(action, HostAction::ReadBody(7)));
    let (stage, action) =
        handle_stream(&services, stage, HostEvent::BodyRead(b"request".to_vec()));
    match action {
        HostAction::Forward { service, request } => {
            assert_eq!(service, 0);
            assert_eq!(request.url.as_str(), "https://example.com/hello?value=1");
            assert_eq!(request.method, "POST");
            assert_eq!(request.headers, vec![("x-client".to_string(), "integration".to_string())]);
            assert_eq!(request.body, b"request");
        }
        other => panic!("{other:?}"),
    }
    let mut headers = HeaderMap::new();
    headers.insert("x-upstream", "yes".parse().unwrap());
    headers.insert("connection", "close".parse().unwrap());
    let (stage, action) = handle_stream(
        &services,
        stage,
        HostEvent::UpstreamAnswered { status: 200, headers, body: b"hello world".to_vec() },
    );
    assert!(matches!(stage, HostStage::Done));
    match action {
        HostAction::Answer { head, body } => {
            assert_eq!(head.status, 200);
            assert_eq!(head.body_len, Some(11));
            assert_eq!(head.headers, vec![("x-upstream".to_string(), "yes".to_string())]);
            assert_eq!(body, b"hello world");
        }
        other => panic!("{other:?}"),
    }
    let (_, action) = handle_stream(&services, stage, HostEvent::Connected);
    assert!(matches!(action, HostAction::End));
}

#[test]
fn chunked_body_is_gathered() {
    let services = services();
    let mut head = request("api", &auth::secret_proof("correct"));
    head.body_len = None;
    let (mut stage, mut action) = open(StreamRequestHead::Http(head));
    for chunk in [&b"ab"[..], &b"c"[..], &b""[..]] {
        assert!(matches!(action, HostAction::ReadChunk));
        (stage, action) = handle_stream(&services, stage, HostEvent::ChunkRead(chunk.to_vec()));
    }
    match action {
        HostAction::Forward { request, .. } => assert_eq!(request.body, b"abc"),
        other => panic!("{other:?}"),
    }
    let (_, action) = handle_stream(&services, stage, HostEvent::UpstreamFailed { timed_out: true });
    assert_eq!(status_of(action), 504);
}

#[test]
fn long_chunked_body_is_rejected() {
    let services = services();
    let stage = HostStage::Chunks {
        request: request("api", ""),
        service: 0,
        received: vec![0; MAX_BODY_LEN],
    };
    let (_, action) = handle_stream(&services, stage, HostEvent::ChunkRead(vec![1]));
    assert_eq!(status_of(action), 413);
}

#[test]
fn broken_body_is_rejected() {
    let services = services();
    let stage = HostStage::Body { request: request("api", ""), service: 0 };
    let (_, action) = handle_stream(&services, stage, HostEvent::BodyFailed);
    assert_eq!(status_of(action), 400);
}

#[test]
fn upstream_failures_are_gateway_errors() {
    let services = services();
    let (_, action) = handle_stream(
        &services,
        HostStage::Upstream,
        HostEvent::UpstreamFailed { timed_out: false },
    );
    assert_eq!(status_of(action), 502);
    let (_, action) = handle_stream(
        &services,
        HostStage::Upstream,
        HostEvent::UpstreamAnswered {
            status: 200,
            headers: HeaderMap::new(),
            body: vec![0; MAX_BODY_LEN + 1],
        },
    );
    assert_eq!(status_of(action), 502);
}

#[test]
fn http_request_to_a_tcp_service_is_not_implemented() {
    let services = services();
    let head = request("database", &auth::secret_proof("db-secret"));
    let (stage, action) = open(StreamRequestHead::Http(head));
    assert!(matches!(action, HostAction::ReadBody(0)));
    let (_, action) = handle_stream(&services, stage, HostEvent::BodyRead(vec![]));
    assert_eq!(status_of(action), 501);
}

#[test]
fn body_of_another_length_is_a_bad_request() {
    let services = services();
    for body in [&b"reques"[..], b"requests", b""] {
        let mut head = request("api", &auth::secret_proof("correct"));
        head.body_len = Some(7);
        let (stage, action) = open(StreamRequestHead::Http(head));
        assert!(matches!(action, HostAction::ReadBody(7)));
        let (_, action) = handle_stream(&services, stage, HostEvent::BodyRead(body.to_vec()));
        assert_eq!(status_of(action), 400);
    }
}

#[test]
fn tcp_stream_is_relayed_to_its_endpoint() {
    let services = services();
    let (stage, action) = open(tcp("database", "db-secret"));
    match action {
        HostAction::Connect(address) => assert_eq!(address, endpoint()),
        other => panic!("{other:?}"),
    }
    let (stage, action) = handle_stream(&services, stage, HostEvent::Connected);
    assert!(matches!(stage, HostStage::Done));
    match action {
        HostAction::Relay(head) => assert_eq!((head.status, head.body_len), (200, Some(0))),
        other => panic!("{other:?}"),
    }
}

#[test]
fn tcp_failures() {
    let services = services();
    assert_eq!(status_of(open(tcp("api", "correct")).1), 501);
    assert_eq!(status_of(open(tcp("database", "correct")).1), 403);
    let failed = |event: HostEvent| {
        status_of(handle_stream(&services, HostStage::Connecting, event).1)
    };
    assert_eq!(failed(HostEvent::ConnectFailed { timed_out: false }), 502);
    assert_eq!(failed(HostEvent::ConnectFailed { timed_out: true }), 504);
    assert_eq!(failed(HostEvent::RelaysFull), 503);
}

#[test]
fn bad_requests_do_not_go_upstream() {
    let base = UpstreamUrl::parse("https://example.com").unwrap();
    let mut bad = request("api", "");
    bad.path_and_query = "relative".into();
    assert!(forward_to_upstream(&base, bad, vec![]).is_none());
    let mut bad = request("api", "");
    bad.method = "BAD METHOD".into();
    assert!(forward_to_upstream(&base, bad, vec![]).is_none());
    let mut bad = request("api", "");
    bad.method = "".into();
    assert!(forward_to_upstream(&base, bad, vec![]).is_none());
    let services = services();
    let mut bad = request("api", "");
    bad.path_and_query = "/a\\b".into();
    let stage = HostStage::Body { request: bad, service: 0 };
    let (_, action) = handle_stream(&services, stage, HostEvent::BodyRead(vec![]));
    assert_eq!(status_of(action), 502);
}

#[test]
fn incomplete_services_are_server_errors() {
    let mut services = services();
    services.config.services[0].upstream = None;
    services.config.services[1].endpoint = None;
    let stage = HostStage::Body { request: request("api", ""), service: 0 };
    let (_, action) = handle_stream(&services, stage, HostEvent::BodyRead(vec![]));
    assert_eq!(status_of(action), 500);
    let (_, action) = handle_stream(
        &services,
        HostStage::Head,
        HostEvent::HeadRead(tcp("database", "db-secret")),
    );
    assert_eq!(status_of(action), 500);
}

#[test]
fn rotated_secret_replaces_the_former_one() {
    let mut services = services();
    services.secrets.insert("api", "replacement");
    let former = auth::secret_proof("correct");
    let current = auth::secret_proof("replacement");
    assert_eq!(authorize(&services, PROTOCOL_VERSION, "api", &former), Err(403));
    assert_eq!(authorize(&services, PROTOCOL_VERSION, "api", &current), Ok(0));
}

#[test]
fn upstream_body_has_its_length() {
    let (head, body) = answer_of_upstream(204, &HeaderMap::new(), vec![]);
    assert_eq!((head.status, head.body_len), (204, Some(0)));
    assert!(body.is_empty());
}
