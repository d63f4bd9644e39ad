use locho::attach::{
    http_head, tcp_head, Download, DownloadStep, HttpAction, HttpEvent, HttpExchange, TcpAction,
    TcpEvent, TcpExchange, TunnelFailure,
};
use locho::auth;
use locho::lifecycle::{
    accept_client, release_client, AttachmentRun, ClientDecision, Places, RunAction, RunEvent,
};
use locho::protocol::{
    bare_head, StreamRequestHead, BODY_CHUNK_LEN, MAX_BODY_LEN, PROTOCOL_VERSION,
    RECONNECT_INITIAL_BACKOFF, RECONNECT_MAX_BACKOFF, SHUTDOWN_TIMEOUT,
};
use locho::supervisor::{
    next_backoff, reconnect_delay, CloseReason, ConnectionLease, HttpBodyLeaseGuard, Supervisor,
    SupervisorAction, SupervisorEvent,
};
use locho::transport::{
    format_transport_paths, is_relayed, strip_transport_prefix, transport_path_changed,
    MonitorAction, TransportMonitor, TransportMonitorExit,
};

#[test]
fn transport_path_labels() {
    assert_eq!(
        format_transport_paths(&vec![("ip:127.0.0.1:1".into(), true, false, true)]),
        "direct(127.0.0.1:1)"
    );
    assert_eq!(
        format_transport_paths(&vec![("relay:relay.example".into(), false, true, true)]),
        "relay(relay.example)"
    );
    assert_eq!(
        format_transport_paths(&vec![
            ("ip:127.0.0.1:1".into(), true, false, true),
            ("relay:relay.example".into(), false, true, false),
        ]),
        "mixed(direct: 127.0.0.1:1, relay: relay.example)"
    );
    assert_eq!(format_transport_paths(&vec![]), "none");
    assert!(!transport_path_changed("direct", "direct"));
    assert!(transport_path_changed("direct", "relay"));
}

#[test]
fn reconnect_backoff_is_capped() {
    let mut backoff = RECONNECT_INITIAL_BACKOFF;
    for expected in [500, 1_000, 2_000, 4_000] {
        backoff = next_backoff(backoff);
        assert_eq!(backoff, expected);
    }
    assert_eq!(next_backoff(RECONNECT_MAX_BACKOFF), RECONNECT_MAX_BACKOFF);
}

#[test]
fn established_connection_loss_uses_initial_retry_delay() {
    assert_eq!(reconnect_delay(true, RECONNECT_MAX_BACKOFF), RECONNECT_INITIAL_BACKOFF);
    assert_eq!(reconnect_delay(false, RECONNECT_MAX_BACKOFF), RECONNECT_MAX_BACKOFF);
}

#[test]
fn backoff_does_not_overflow() {
    assert_eq!(next_backoff(u64::MAX), RECONNECT_MAX_BACKOFF);
}

#[test]
fn unselected_paths_are_listed() {
    assert_eq!(
        format_transport_paths(&vec![
            ("ip:1.1.1.1:1".into(), true, false, false),
            ("ip:2.2.2.2:2".into(), true, false, false),
        ]),
        "direct(1.1.1.1:1, 2.2.2.2:2)"
    );
    assert_eq!(
        format_transport_paths(&vec![
            ("ip:1.1.1.1:1".into(), true, false, true),
            ("ip:2.2.2.2:2".into(), true, false, true),
        ]),
        "direct(2.2.2.2:2)"
    );
    assert_eq!(strip_transport_prefix("relay:x"), "x");
    assert_eq!(strip_transport_prefix("ip:relay:x"), "relay:x");
    assert_eq!(strip_transport_prefix("other"), "other");
    assert!(is_relayed("relay(x)"));
    assert!(!is_relayed("direct(x)"));
}

#[test]
fn monitor_reports_changes() {
    let (mut monitor, report) = TransportMonitor::new("direct(a)".into());
    assert!(report);
    assert_eq!(monitor.observe("direct(a)"), MonitorAction::Keep);
    assert_eq!(monitor.observe("relay(b)"), MonitorAction::Report);
    assert_eq!(monitor.observe("relay(b)"), MonitorAction::Keep);
    assert_eq!(
        monitor.observe("none"),
        MonitorAction::Exit(TransportMonitorExit::PathLost)
    );
    let (mut pending, report) = TransportMonitor::new("none".into());
    assert!(!report);
    assert_eq!(pending.observe("none"), MonitorAction::Keep);
    assert_eq!(pending.observe("direct(a)"), MonitorAction::Report);
}

#[test]
fn supervisor_backs_off_and_recovers() {
    let mut supervisor = Supervisor::new();
    for expected in [250, 500, 1_000, 2_000, 4_000, 5_000, 5_000] {
        assert_eq!(
            supervisor.step(SupervisorEvent::ConnectFailed),
            SupervisorAction::Wait(expected)
        );
        assert_eq!(supervisor.step(SupervisorEvent::DelayOver), SupervisorAction::Connect);
    }
    assert_eq!(supervisor.step(SupervisorEvent::Connected), SupervisorAction::Publish(1));
    assert_eq!(supervisor.step(SupervisorEvent::Stable), SupervisorAction::Keep);
    assert_eq!(supervisor.backoff, RECONNECT_INITIAL_BACKOFF);
    assert_eq!(
        supervisor.step(SupervisorEvent::Closed),
        SupervisorAction::Lose { withdraw: true, close: None, delay: 250 }
    );
    assert_eq!(supervisor.step(SupervisorEvent::DelayOver), SupervisorAction::Connect);
    assert_eq!(
        supervisor.step(SupervisorEvent::ConnectFailed),
        SupervisorAction::Wait(250)
    );
    supervisor.step(SupervisorEvent::DelayOver);
    assert_eq!(supervisor.step(SupervisorEvent::Connected), SupervisorAction::Publish(2));
    assert_eq!(
        supervisor.step(SupervisorEvent::Changed { withdrawn: false }),
        SupervisorAction::Keep
    );
    assert_eq!(
        supervisor.step(SupervisorEvent::Changed { withdrawn: true }),
        SupervisorAction::Lose {
            withdraw: false,
            close: Some(CloseReason::Invalidated),
            delay: 250
        }
    );
    supervisor.step(SupervisorEvent::DelayOver);
    supervisor.step(SupervisorEvent::Connected);
    assert_eq!(
        supervisor.step(SupervisorEvent::MonitorEnded),
        SupervisorAction::Lose {
            withdraw: true,
            close: Some(CloseReason::MonitorEnded),
            delay: 250
        }
    );
    assert_eq!(
        supervisor.step(SupervisorEvent::Shutdown),
        SupervisorAction::Stop { close: None }
    );
    assert_eq!(supervisor.step(SupervisorEvent::DelayOver), SupervisorAction::Keep);
}

#[test]
fn shutdown_closes_the_connection() {
    let mut supervisor = Supervisor::new();
    supervisor.step(SupervisorEvent::Connected);
    assert_eq!(
        supervisor.step(SupervisorEvent::Shutdown),
        SupervisorAction::Stop { close: Some(CloseReason::Shutdown) }
    );
    assert_eq!(CloseReason::Shutdown.as_str(), "locho shutdown");
    assert_eq!(CloseReason::Invalidated.as_str(), "tunnel connection invalidated");
    assert_eq!(CloseReason::MonitorEnded.as_str(), "transport monitor ended");
}

#[test]
fn old_leases_are_harmless() {
    let lease = ConnectionLease { generation: 1 };
    assert!(lease.invalidate(Some(1)));
    assert!(!lease.invalidate(Some(2)));
    assert!(!lease.invalidate(None));
    let mut guard = HttpBodyLeaseGuard::new(lease);
    assert!(guard.invalidate(Some(1)));
    guard.complete();
    assert!(!guard.invalidate(Some(1)));
}

#[test]
fn heads_carry_proofs() {
    let head = http_head("api", "secret", "GET", None, vec![], Some(0));
    assert_eq!(head.version, PROTOCOL_VERSION);
    assert_eq!(head.path_and_query, "/");
    assert_eq!(head.secret_proof, auth::secret_proof("secret"));
    let head = http_head("api", "secret", "POST", Some("/x?y"), vec![("a".into(), "b".into())], None);
    assert_eq!(head.path_and_query, "/x?y");
    assert_eq!(head.headers.len(), 1);
    match tcp_head("db", "secret") {
        StreamRequestHead::Tcp(head) => {
            assert_eq!(head.service, "db");
            assert_eq!(head.secret_proof, auth::secret_proof("secret"));
        }
        other => panic!("{other:?}"),
    }
}

fn started(declared: Option<u64>) -> HttpExchange {
    let mut exchange = HttpExchange::new("POST", declared).unwrap();
    assert!(matches!(exchange.step(HttpEvent::Acquired), HttpAction::Open));
    assert!(matches!(exchange.step(HttpEvent::Opened), HttpAction::SendHead));
    assert!(matches!(exchange.step(HttpEvent::Written), HttpAction::NextPiece));
    exchange
}

fn written(action: HttpAction) -> Vec<u8> {
    match action {
        HttpAction::Write(bytes) => bytes,
        other => panic!("{other:?}"),
    }
}

fn failure(action: HttpAction) -> TunnelFailure {
    match action {
        HttpAction::Fail(failure) => failure,
        other => panic!("{other:?}"),
    }
}

#[test]
fn declared_body_is_sent_as_it_is() {
    let mut exchange = started(Some(5));
    assert_eq!(written(exchange.step(HttpEvent::Piece(b"abc".to_vec()))), b"abc");
    assert!(matches!(exchange.step(HttpEvent::Written), HttpAction::NextPiece));
    assert_eq!(written(exchange.step(HttpEvent::Piece(b"de".to_vec()))), b"de");
    exchange.step(HttpEvent::Written);
    assert!(matches!(exchange.step(HttpEvent::BodyEnded), HttpAction::ReadHead));
    match exchange.step(HttpEvent::HeadRead(bare_head(201))) {
        HttpAction::Respond { status, headers, body_len } => {
            assert_eq!((status, body_len), (201, Some(0)));
            assert!(headers.is_empty());
        }
        other => panic!("{other:?}"),
    }
}

#[test]
fn undeclared_body_is_sent_in_chunks() {
    let mut exchange = started(None);
    assert_eq!(
        written(exchange.step(HttpEvent::Piece(b"abc".to_vec()))),
        [0, 0, 0, 3, b'a', b'b', b'c']
    );
    exchange.step(HttpEvent::Written);
    assert_eq!(written(exchange.step(HttpEvent::BodyEnded)), [0, 0, 0, 0]);
    assert!(matches!(exchange.step(HttpEvent::Written), HttpAction::ReadHead));
}

#[test]
fn body_failures() {
    let mut exchange = started(Some(2));
    let f = failure(exchange.step(HttpEvent::Piece(b"abc".to_vec())));
    assert_eq!(f.message(), "request body exceeds declared length");
    assert_eq!(f.status(), 502);
    let mut exchange = started(Some(2));
    let f = failure(exchange.step(HttpEvent::BodyEnded));
    assert_eq!(f.message(), "request body length changed during upload");
    let mut exchange = started(None);
    let f = failure(exchange.step(HttpEvent::Piece(vec![0; MAX_BODY_LEN + 1])));
    assert_eq!(f.message(), "request body exceeds limit");
    assert_eq!(f.status(), 413);
    let f = failure(started(None).step(HttpEvent::Trailers));
    assert_eq!(f.message(), "request body contains trailers");
    let f = failure(started(None).step(HttpEvent::BodyFailed("reset".into())));
    assert_eq!(f.message(), "reset");
    let mut exchange = HttpExchange::new("POST", Some(MAX_BODY_LEN as u64 + 1)).unwrap();
    exchange.step(HttpEvent::Acquired);
    let f = failure(exchange.step(HttpEvent::Opened));
    assert_eq!(f.status(), 413);
}

#[test]
fn connection_failures() {
    assert_eq!(HttpExchange::new("CONNECT", None).unwrap_err(), 405);
    let fresh = || HttpExchange::new("GET", Some(0)).unwrap();
    let f = failure(fresh().step(HttpEvent::AcquireTimedOut));
    assert_eq!((f.status(), f.is_transport_failure()), (503, false));
    assert_eq!(f.message(), "tunnel unavailable while reconnecting");
    let f = failure(fresh().step(HttpEvent::SupervisorStopped));
    assert_eq!(f.status(), 502);
    let mut opening = fresh();
    opening.step(HttpEvent::Acquired);
    let f = failure(opening.step(HttpEvent::OpenTimedOut));
    assert_eq!(f.message(), "HTTP tunnel stream open timed out");
    let mut opening = fresh();
    opening.step(HttpEvent::Acquired);
    let f = failure(opening.step(HttpEvent::Failed("closed".into())));
    assert_eq!(f.message(), "transport failure: closed");
    assert!(f.is_transport_failure());
    assert_eq!(f.status(), 502);
}

#[test]
fn answers_are_checked() {
    let awaiting = || {
        let mut exchange = started(Some(0));
        exchange.step(HttpEvent::BodyEnded);
        exchange
    };
    let mut head = bare_head(200);
    head.version = 3;
    let f = failure(awaiting().step(HttpEvent::HeadRead(head)));
    assert_eq!(f.message(), "unsupported tunnel response version 3");
    let f = failure(awaiting().step(HttpEvent::HeadRead(bare_head(99))));
    assert_eq!(f.message(), "invalid response status");
    assert!(matches!(
        awaiting().step(HttpEvent::HeadRead(bare_head(999))),
        HttpAction::Respond { .. }
    ));
    let f = failure(awaiting().step(HttpEvent::HeadRead(bare_head(1000))));
    assert_eq!(f.status(), 502);
    let f = failure(awaiting().step(HttpEvent::HeadTimedOut));
    assert_eq!(f.message(), "HTTP attachment handshake timed out");
    assert!(!f.is_transport_failure());
    let f = failure(awaiting().step(HttpEvent::Failed("eof".into())));
    assert!(f.is_transport_failure());
    assert!(matches!(awaiting().step(HttpEvent::Acquired), HttpAction::Keep));
}

#[test]
fn messages_decide_the_status() {
    assert_eq!(TunnelFailure::BodyFailed("got 403".into()).status(), 403);
    assert_eq!(TunnelFailure::Transport("status 501".into()).status(), 501);
    assert_eq!(TunnelFailure::Transport("body exceeds limit".into()).status(), 413);
    assert_eq!(TunnelFailure::TooManyHeaders.status(), 502);
    assert_eq!(
        TunnelFailure::Rejected(403).message(),
        "TCP attachment rejected with status 403"
    );
    assert!(TunnelFailure::IdleTimeout.is_idle_timeout());
    assert!(!TunnelFailure::HandshakeTimedOut.is_idle_timeout());
}

#[test]
fn downloads_read_the_announced_length() {
    let len = 2 * BODY_CHUNK_LEN as u64 + 5;
    let mut download = Download::new(Some(len));
    let mut total = 0;
    while let DownloadStep::Read(n) = download.next() {
        assert!(n <= BODY_CHUNK_LEN);
        total += n as u64;
        download.took(n);
    }
    assert_eq!(total, len);
    assert_eq!(download.next(), DownloadStep::Complete);
    let mut download = Download::new(None);
    assert_eq!(download.next(), DownloadStep::ReadChunk);
    download.took(9);
    assert_eq!(download.next(), DownloadStep::ReadChunk);
    download.took(0);
    assert_eq!(download.next(), DownloadStep::Complete);
}

fn answered(status: u16, body_len: Option<u64>) -> (TcpExchange, TcpAction) {
    let mut exchange = TcpExchange::new();
    assert!(matches!(exchange.step(TcpEvent::Acquired), TcpAction::Open));
    assert!(matches!(exchange.step(TcpEvent::Opened), TcpAction::SendHead));
    assert!(matches!(exchange.step(TcpEvent::Written), TcpAction::ReadHead));
    let mut head = bare_head(status);
    head.body_len = body_len;
    let action = exchange.step(TcpEvent::HeadRead(head));
    (exchange, action)
}

fn tcp_failure(action: TcpAction) -> TunnelFailure {
    match action {
        TcpAction::Fail(failure) => failure,
        other => panic!("{other:?}"),
    }
}

#[test]
fn tcp_clients_are_relayed_after_consent() {
    let (mut exchange, action) = answered(200, Some(0));
    assert!(matches!(action, TcpAction::ReadBody(0)));
    assert!(matches!(exchange.step(TcpEvent::BodyRead), TcpAction::Relay));
    assert!(matches!(exchange.step(TcpEvent::Relayed), TcpAction::Done));
}

#[test]
fn tcp_clients_are_refused() {
    let f = tcp_failure(answered(403, Some(0)).1);
    assert_eq!(f.message(), "TCP attachment rejected with status 403");
    assert!(!f.is_transport_failure());
    let f = tcp_failure(answered(200, None).1);
    assert_eq!(f.message(), "transport failure: body length is required");
    let f = tcp_failure(answered(200, Some(MAX_BODY_LEN as u64 + 1)).1);
    assert_eq!(f.message(), "transport failure: body exceeds limit");
    let mut exchange = TcpExchange::new();
    let f = tcp_failure(exchange.step(TcpEvent::AcquireTimedOut));
    assert_eq!(f.status(), 503);
    let (mut exchange, _) = answered(200, Some(0));
    exchange.step(TcpEvent::BodyRead);
    let f = tcp_failure(exchange.step(TcpEvent::IdleTimedOut));
    assert!(f.is_idle_timeout());
    let (mut exchange, _) = answered(200, Some(0));
    exchange.step(TcpEvent::BodyRead);
    let f = tcp_failure(exchange.step(TcpEvent::Failed("reset".into())));
    assert!(f.is_transport_failure());
    let mut exchange = TcpExchange::new();
    exchange.step(TcpEvent::Acquired);
    exchange.step(TcpEvent::Opened);
    exchange.step(TcpEvent::Written);
    let f = tcp_failure(exchange.step(TcpEvent::HeadTimedOut));
    assert_eq!(f.message(), "TCP attachment handshake timed out");
}

#[test]
fn clients_are_limited() {
    let mut own = Places::new(2);
    let mut total = Places::new(3);
    assert_eq!(accept_client(&mut own, &mut total), ClientDecision::Serve);
    assert_eq!(accept_client(&mut own, &mut total), ClientDecision::Serve);
    assert_eq!(accept_client(&mut own, &mut total), ClientDecision::ServiceFull);
    let mut other = Places::new(2);
    assert_eq!(accept_client(&mut other, &mut total), ClientDecision::Serve);
    assert_eq!(accept_client(&mut other, &mut total), ClientDecision::TotalFull);
    assert_eq!((own.taken(), other.taken(), total.taken()), (2, 1, 3));
    release_client(&mut own, &mut total);
    assert_eq!((own.taken(), total.taken()), (1, 2));
    assert_eq!(accept_client(&mut other, &mut total), ClientDecision::Serve);
}

#[test]
fn interrupted_attachment_drains() {
    let mut run = AttachmentRun::new(2);
    assert_eq!(run.step(RunEvent::Interrupted), RunAction::Drain(SHUTDOWN_TIMEOUT));
    assert_eq!(run.step(RunEvent::ListenerEnded { failed: true }), RunAction::Keep);
    assert_eq!(run.step(RunEvent::Deadline), RunAction::Abort);
    assert_eq!(
        run.step(RunEvent::ListenerEnded { failed: false }),
        RunAction::Close { failed: false }
    );
}

#[test]
fn failed_listener_ends_the_attachment() {
    let mut run = AttachmentRun::new(2);
    assert_eq!(
        run.step(RunEvent::ListenerEnded { failed: true }),
        RunAction::Drain(SHUTDOWN_TIMEOUT)
    );
    assert_eq!(
        run.step(RunEvent::ListenerEnded { failed: false }),
        RunAction::Close { failed: true }
    );
    let mut run = AttachmentRun::new(2);
    assert_eq!(run.step(RunEvent::ListenerEnded { failed: false }), RunAction::Keep);
    assert_eq!(
        run.step(RunEvent::ListenerEnded { failed: false }),
        RunAction::Close { failed: false }
    );
    assert_eq!(run.step(RunEvent::Interrupted), RunAction::Keep);
}
