use locho::protocol::{
    bare_head, read_body_chunk, read_body_with_limit, read_json_head, write_body_chunks,
    write_body_end, write_json_head, BodyError, FrameError, LochoRequestHead, ReadStep,
    StreamRequestHead, TcpRequestHead, BODY_CHUNK_LEN, MAX_BODY_LEN, MAX_HEAD_LEN,
    PROTOCOL_VERSION,
};
use locho::relay::{Relay, RelayAction, RelayEvent};

#[test]
fn headers_and_body_roundtrip() {
    let json = br#"{"version":2,"status":200,"headers":[["x-test","yes"]],"body_len":3}"#;
    let mut stream = write_json_head(json).unwrap();
    stream.extend_from_slice(b"abc");

    assert_eq!(read_json_head(&[], MAX_HEAD_LEN), Ok(ReadStep::More(4)));
    assert_eq!(
        read_json_head(&stream[..4], MAX_HEAD_LEN),
        Ok(ReadStep::More(json.len()))
    );
    let end = 4 + json.len();
    assert_eq!(read_json_head(&stream[..end], MAX_HEAD_LEN), Ok(ReadStep::Done(json.len())));
    let head: serde_json::Value = serde_json::from_slice(&stream[4..end]).unwrap();
    assert_eq!(head["status"], 200);
    let len = read_body_with_limit(head["body_len"].as_u64(), MAX_BODY_LEN).unwrap();
    assert_eq!(&stream[end..end + len], b"abc");
}

#[test]
fn oversized_body_is_rejected() {
    let stream = write_json_head(br#"{"version":2,"status":200}"#).unwrap();
    assert!(read_json_head(&stream, 2).is_err());
    assert_eq!(read_json_head(&stream[..4], 2), Err(FrameError::HeadExceedsLimit));
}

#[test]
fn body_limit_is_enforced() {
    assert!(read_body_with_limit(Some(3), 2).is_err());
    assert_eq!(read_body_with_limit(Some(3), 2), Err(BodyError::ExceedsLimit));
    assert_eq!(read_body_with_limit(Some(2), 2), Ok(2));
    assert_eq!(read_body_with_limit(None, 2), Err(BodyError::LengthRequired));
}

#[test]
fn prefixes_are_big_endian() {
    let stream = write_json_head(&vec![b' '; 0x0102]).unwrap();
    assert_eq!(&stream[..4], &[0, 0, 1, 2]);
    assert_eq!(stream.len(), 4 + 0x0102);
}

#[test]
fn reads_ask_for_what_is_missing() {
    assert_eq!(read_json_head(&[0, 0], 10), Ok(ReadStep::More(2)));
    assert_eq!(read_json_head(&[0, 0, 0, 3, 1], 10), Ok(ReadStep::More(2)));
    assert_eq!(read_json_head(&[0, 0, 0, 0], 10), Ok(ReadStep::Done(0)));
}

#[test]
fn chunked_body_reads_back() {
    let data: Vec<u8> = (0..BODY_CHUNK_LEN + 10).map(|i| i as u8).collect();
    let mut stream = write_body_chunks(&data);
    stream.extend(write_body_chunks(b"tail"));
    stream.extend(write_body_end());

    let mut body = Vec::new();
    let mut at = 0;
    loop {
        let n = match read_body_chunk(&stream[at..]) {
            Ok(ReadStep::Done(n)) => n,
            other => panic!("{other:?}"),
        };
        body.extend_from_slice(&stream[at + 4..at + 4 + n]);
        at += 4 + n;
        if n == 0 {
            break;
        }
    }
    let mut expected = data;
    expected.extend_from_slice(b"tail");
    assert_eq!(body, expected);
    assert_eq!(at, stream.len());
}

#[test]
fn chunks_are_bounded() {
    let len = (BODY_CHUNK_LEN as u32 + 1).to_be_bytes();
    assert_eq!(read_body_chunk(&len), Err(FrameError::ChunkExceedsLimit));
    assert!(write_body_chunks(b"").is_empty());
    assert_eq!(write_body_end(), vec![0, 0, 0, 0]);
}

#[test]
fn heads_of_both_kinds_hold_what_was_put_in() {
    let tcp = StreamRequestHead::Tcp(TcpRequestHead {
        version: PROTOCOL_VERSION,
        service: "database".into(),
        secret_proof: "proof".into(),
    });
    match tcp {
        StreamRequestHead::Tcp(head) => assert_eq!(head.service, "database"),
        StreamRequestHead::Http(_) => panic!("decoded wrong stream kind"),
    }
    let http = LochoRequestHead {
        version: PROTOCOL_VERSION,
        service: "api".into(),
        secret_proof: "proof".into(),
        method: "GET".into(),
        path_and_query: "/".into(),
        headers: vec![],
        body_len: None,
    };
    assert_eq!(http.clone(), http);
    let bare = bare_head(404);
    assert_eq!((bare.version, bare.status, bare.body_len), (2, 404, Some(0)));
    assert!(bare.headers.is_empty());
}

#[test]
fn relay_half_closes() {
    let mut relay = Relay::new(0);
    assert_eq!(
        relay.step(RelayEvent::FirstRead(b"hello".to_vec())),
        RelayAction::WriteSecond(b"hello".to_vec())
    );
    assert!(relay.writing);
    assert_eq!(relay.step(RelayEvent::Written { now: 1 }), RelayAction::Wait);
    assert_eq!(relay.step(RelayEvent::FirstRead(vec![])), RelayAction::ShutdownSecond);
    assert!(relay.is_running());
    assert_eq!(
        relay.step(RelayEvent::SecondRead(b"goodbye".to_vec())),
        RelayAction::WriteFirst(b"goodbye".to_vec())
    );
    assert_eq!(relay.step(RelayEvent::Written { now: 2 }), RelayAction::Wait);
    assert_eq!(relay.step(RelayEvent::SecondRead(vec![])), RelayAction::ShutdownFirst);
    assert!(!relay.is_running());
}

#[test]
fn relay_passes_the_same_bytes_in_order() {
    let mut relay = Relay::new(0);
    let mut first: Vec<u8> = vec![];
    let mut second: Vec<u8> = vec![];
    let reads = vec![
        RelayEvent::FirstRead(b"ab".to_vec()),
        RelayEvent::SecondRead(b"xyz".to_vec()),
        RelayEvent::FirstRead(b"c".to_vec()),
        RelayEvent::SecondRead(vec![]),
        RelayEvent::FirstRead(b"de".to_vec()),
        RelayEvent::FirstRead(vec![]),
    ];
    for read in reads {
        match relay.step(read) {
            RelayAction::WriteSecond(bytes) => second.extend(bytes),
            RelayAction::WriteFirst(bytes) => first.extend(bytes),
            _ => continue,
        }
        relay.step(RelayEvent::Written { now: 0 });
    }
    assert!(!relay.is_running());
    assert_eq!(second, b"abcde".to_vec());
    assert_eq!(first, b"xyz".to_vec());
}

#[test]
fn idle_relay_gives_up() {
    let mut relay = Relay::new(1_000);
    assert_eq!(relay.idle_left(1_000), 300_000);
    assert_eq!(relay.idle_left(500), 300_000);
    assert_eq!(relay.step(RelayEvent::Tick { now: 300_999 }), RelayAction::Wait);
    assert_eq!(relay.idle_left(300_999), 1);
    assert!(relay.is_running());
    assert_eq!(relay.step(RelayEvent::Tick { now: 301_000 }), RelayAction::IdleTimeout);
    assert!(!relay.is_running());
}

#[test]
fn idle_time_starts_anew_with_every_transfer() {
    let mut relay = Relay::new(0);
    relay.step(RelayEvent::FirstRead(b"x".to_vec()));
    relay.step(RelayEvent::Written { now: 299_000 });
    assert_eq!(relay.step(RelayEvent::Tick { now: 300_000 }), RelayAction::Wait);
    relay.step(RelayEvent::FirstRead(vec![]));
    assert_eq!(relay.idle_left(599_000), 0);
    assert_eq!(relay.step(RelayEvent::Tick { now: 598_999 }), RelayAction::Wait);
    assert_eq!(relay.step(RelayEvent::Tick { now: 599_000 }), RelayAction::IdleTimeout);
}
