//! The tunnel protocol: stream heads, frames, and chunked bodies.

use crate::http_utils;
use vstd::prelude::*;

verus! {

/// The application protocol that both peers announce.
pub const ALPN: &'static str = "locho/2";

/// The protocol version in every stream head.
pub const PROTOCOL_VERSION: u8 = 2;

/// The longest body of a request or a response.
pub const MAX_BODY_LEN: usize = 33_554_432;

/// The longest stream head.
pub const MAX_HEAD_LEN: usize = 1_048_576;

/// The longest piece of a body that is framed at once.
pub const BODY_CHUNK_LEN: usize = 65_536;

/// How many bytes the relay reads at once.
pub const RELAY_BUFFER_LEN: usize = 16_384;

/// How many TCP connections a host or an attachment carries at once.
pub const MAX_TCP_CONNECTIONS: usize = 128;

/// How many HTTP connections an attachment carries at once.
pub const MAX_HTTP_CONNECTIONS: usize = 256;

/// How long a tunnel handshake may take, in milliseconds.
pub const HANDSHAKE_TIMEOUT: u64 = 10_000;

/// How long a TCP service may take to accept, in milliseconds.
pub const TCP_CONNECT_TIMEOUT: u64 = 10_000;

/// How long a TCP tunnel may carry nothing, in milliseconds.
pub const TCP_IDLE_TIMEOUT: u64 = 300_000;

/// How long an upstream may take for a request and its response, in
/// milliseconds.
pub const HTTP_UPSTREAM_TIMEOUT: u64 = 30_000;

/// How long an attachment waits for the host's reply, in milliseconds.
pub const HTTP_ATTACHMENT_SAFETY_TIMEOUT: u64 = 35_000;

/// How long active tasks may take to finish at shutdown, in milliseconds.
pub const SHUTDOWN_TIMEOUT: u64 = 10_000;

/// The first delay before another connection attempt, in milliseconds.
pub const RECONNECT_INITIAL_BACKOFF: u64 = 250;

/// The longest delay before another connection attempt, in milliseconds.
pub const RECONNECT_MAX_BACKOFF: u64 = 5_000;

/// How long a connection lasts before it counts as stable, in milliseconds.
pub const RECONNECT_STABLE_DURATION: u64 = 30_000;

/// How long a local request waits for a connection, in milliseconds.
pub const ATTACH_RECONNECT_TIMEOUT: u64 = 10_000;

// ---------------------------------------------------------------------------
// Stream heads
// ---------------------------------------------------------------------------

/// What opens a TCP stream.
#[derive(Debug, Clone, PartialEq, Eq)]
pub struct TcpRequestHead {
    pub version: u8,
    pub service: String,
    pub secret_proof: String,
}

/// What opens an HTTP stream. Without a length, the body is chunked.
#[derive(Debug, Clone, PartialEq, Eq)]
pub struct LochoRequestHead {
    pub version: u8,
    pub service: String,
    pub secret_proof: String,
    pub method: String,
    pub path_and_query: String,
    pub headers: Vec<(String, String)>,
    pub body_len: Option<u64>,
}

/// What opens a stream.
#[derive(Debug, Clone, PartialEq, Eq)]
pub enum StreamRequestHead {
    Http(LochoRequestHead),
    Tcp(TcpRequestHead),
}

/// What answers a stream. Without a length, the body is chunked.
#[derive(Debug, Clone, PartialEq, Eq)]
pub struct LochoResponseHead {
    pub version: u8,
    pub status: u16,
    pub headers: Vec<(String, String)>,
    pub body_len: Option<u64>,
}

/// The content of a head that opens an HTTP stream.
pub struct RequestView {
    pub version: u8,
    pub service: Seq<char>,
    pub secret_proof: Seq<char>,
    pub method: Seq<char>,
    pub path_and_query: Seq<char>,
    pub headers: Seq<http_utils::Pair>,
    pub body_len: Option<u64>,
}

impl View for LochoRequestHead {
    type V = RequestView;

    open spec fn view(&self) -> RequestView {
        RequestView {
            version: self.version,
            service: self.service@,
            secret_proof: self.secret_proof@,
            method: self.method@,
            path_and_query: self.path_and_query@,
            headers: http_utils::pair_views(self.headers@),
            body_len: self.body_len,
        }
    }
}

/// The content of a head that opens a TCP stream.
pub struct TcpRequestView {
    pub version: u8,
    pub service: Seq<char>,
    pub secret_proof: Seq<char>,
}

impl View for TcpRequestHead {
    type V = TcpRequestView;

    open spec fn view(&self) -> TcpRequestView {
        TcpRequestView {
            version: self.version,
            service: self.service@,
            secret_proof: self.secret_proof@,
        }
    }
}

/// The content of a head that opens a stream.
pub enum StreamRequestView {
    Http(RequestView),
    Tcp(TcpRequestView),
}

impl View for StreamRequestHead {
    type V = StreamRequestView;

    open spec fn view(&self) -> StreamRequestView {
        match self {
            StreamRequestHead::Http(head) => StreamRequestView::Http(head@),
            StreamRequestHead::Tcp(head) => StreamRequestView::Tcp(head@),
        }
    }
}

/// The content of a head that answers a stream.
pub struct ResponseView {
    pub version: u8,
    pub status: u16,
    pub headers: Seq<http_utils::Pair>,
    pub body_len: Option<u64>,
}

impl View for LochoResponseHead {
    type V = ResponseView;

    open spec fn view(&self) -> ResponseView {
        ResponseView {
            version: self.version,
            status: self.status,
            headers: http_utils::pair_views(self.headers@),
            body_len: self.body_len,
        }
    }
}

/// An answer without headers and without a body.
pub open spec fn bare_response(status: u16) -> ResponseView {
    ResponseView { version: PROTOCOL_VERSION, status, headers: Seq::empty(), body_len: Some(0) }
}

/// The head of an answer without headers and without a body.
pub fn bare_head(status: u16) -> (out: LochoResponseHead)
    ensures
        out@ == bare_response(status),
{
    let out = LochoResponseHead {
        version: PROTOCOL_VERSION,
        status,
        headers: Vec::new(),
        body_len: Some(0),
    };
    assert(http_utils::pair_views(out.headers@) =~= Seq::empty());
    out
}

// ---------------------------------------------------------------------------
// Length prefixes
// ---------------------------------------------------------------------------

/// How many bytes a length prefix takes.
pub const PREFIX_LEN: usize = 4;

/// A length prefix: four bytes, most significant first.
pub open spec fn prefix(n: nat) -> Seq<u8> {
    seq![
        ((n / 0x100_0000) % 0x100) as u8,
        ((n / 0x1_0000) % 0x100) as u8,
        ((n / 0x100) % 0x100) as u8,
        (n % 0x100) as u8,
    ]
}

/// The length that a prefix stands for.
pub open spec fn prefix_value(bytes: Seq<u8>) -> nat {
    bytes[0] as nat * 0x100_0000 + bytes[1] as nat * 0x1_0000 + bytes[2] as nat * 0x100
        + bytes[3] as nat
}

/// A prefix stands for the length it was written for.
pub proof fn law_prefix_round_trip(n: nat)
    requires
        n <= 0xffff_ffff,
    ensures
        prefix(n).len() == PREFIX_LEN,
        prefix_value(prefix(n)) == n,
{
    assert(n == (n / 0x100) * 0x100 + n % 0x100);
    assert(n / 0x100 == (n / 0x1_0000) * 0x100 + (n / 0x100) % 0x100);
    assert(n / 0x1_0000 == (n / 0x100_0000) * 0x100 + (n / 0x1_0000) % 0x100);
    assert(n / 0x100_0000 < 0x100);
}

/// Every four bytes are the prefix of the length they stand for.
pub proof fn law_prefix_is_unique(bytes: Seq<u8>)
    requires
        bytes.len() == PREFIX_LEN,
    ensures
        prefix_value(bytes) <= 0xffff_ffff,
        prefix(prefix_value(bytes)) == bytes,
{
    let n = prefix_value(bytes);
    let a = bytes[0] as nat;
    let b = bytes[1] as nat;
    let c = bytes[2] as nat;
    let d = bytes[3] as nat;
    assert(n / 0x100 == a * 0x1_0000 + b * 0x100 + c);
    assert(n / 0x1_0000 == a * 0x100 + b);
    assert(n / 0x100_0000 == a);
    assert(prefix(n) =~= bytes);
}

fn push_prefix(out: &mut Vec<u8>, n: u32)
    ensures
        final(out)@ == old(out)@ + prefix(n as nat),
{
    out.push(((n / 0x100_0000) % 0x100) as u8);
    out.push(((n / 0x1_0000) % 0x100) as u8);
    out.push(((n / 0x100) % 0x100) as u8);
    out.push((n % 0x100) as u8);
    assert(out@ =~= old(out)@ + prefix(n as nat));
}

fn read_prefix(bytes: &[u8]) -> (n: u32)
    requires
        bytes@.len() >= PREFIX_LEN,
    ensures
        n == prefix_value(bytes@),
{
    bytes[0] as u32 * 0x100_0000 + bytes[1] as u32 * 0x1_0000 + bytes[2] as u32 * 0x100
        + bytes[3] as u32
}

fn push_bytes(out: &mut Vec<u8>, bytes: &[u8])
    ensures
        final(out)@ == old(out)@ + bytes@,
{
    for i in 0..bytes.len()
        invariant
            out@ == old(out)@ + bytes@.take(i as int),
    {
        out.push(bytes[i]);
        assert(out@ =~= old(out)@ + bytes@.take(i + 1));
    }
    assert(bytes@.take(bytes@.len() as int) =~= bytes@);
}

// ---------------------------------------------------------------------------
// Head frames
// ---------------------------------------------------------------------------

/// Why bytes cannot be framed or read.
#[derive(Debug, Clone, Copy, PartialEq, Eq, Structural)]
pub enum FrameError {
    /// The head is longer than a prefix can say.
    HeadTooLarge,
    /// The announced head is longer than the reader accepts.
    HeadExceedsLimit,
    /// The announced chunk is longer than a chunk may be.
    ChunkExceedsLimit,
}

/// What a reader does next.
#[derive(Debug, Clone, Copy, PartialEq, Eq, Structural)]
pub enum ReadStep {
    /// Read this many bytes more, and never fewer than one.
    More(usize),
    /// The frame is complete and carries this many bytes behind its prefix.
    Done(usize),
}

/// A frame: the length of its content, then the content.
pub open spec fn frame(content: Seq<u8>) -> Seq<u8> {
    prefix(content.len()) + content
}

/// Frames the JSON text of a head.
pub fn write_json_head(json: &[u8]) -> (out: Result<Vec<u8>, FrameError>)
    ensures
        json@.len() <= u32::MAX ==> (out matches Ok(bytes) && bytes@ == frame(json@)),
        json@.len() > u32::MAX ==> out == Err::<Vec<u8>, FrameError>(FrameError::HeadTooLarge),
{
    if json.len() > u32::MAX as usize {
        return Err(FrameError::HeadTooLarge);
    }
    let mut out: Vec<u8> = Vec::new();
    push_prefix(&mut out, json.len() as u32);
    push_bytes(&mut out, json);
    assert(out@ =~= frame(json@));
    Ok(out)
}

/// What a reader does after it received some bytes of a frame whose content
/// may have `limit` bytes.
pub open spec fn next_read(received: Seq<u8>, limit: nat) -> Option<ReadStep> {
    if received.len() < PREFIX_LEN {
        Some(ReadStep::More((PREFIX_LEN - received.len()) as usize))
    } else if prefix_value(received) > limit {
        None
    } else if received.len() < PREFIX_LEN + prefix_value(received) {
        Some(ReadStep::More((PREFIX_LEN + prefix_value(received) - received.len()) as usize))
    } else {
        Some(ReadStep::Done(prefix_value(received) as usize))
    }
}

fn step_frame(received: &[u8], limit: usize) -> (out: Option<ReadStep>)
    ensures
        out == next_read(received@, limit as nat),
{
    if received.len() < PREFIX_LEN {
        return Some(ReadStep::More(PREFIX_LEN - received.len()));
    }
    let len = read_prefix(received) as usize;
    if len > limit {
        None
    } else if received.len() - PREFIX_LEN < len {
        Some(ReadStep::More(len - (received.len() - PREFIX_LEN)))
    } else {
        Some(ReadStep::Done(len))
    }
}

/// What to do after the bytes in `received` came in: read on, take the JSON
/// text of the head, or give up on a head that is too long.
pub fn read_json_head(received: &[u8], max_len: usize) -> (out: Result<ReadStep, FrameError>)
    ensures
        match next_read(received@, max_len as nat) {
            Some(step) => out == Ok::<ReadStep, FrameError>(step),
            None => out == Err::<ReadStep, FrameError>(FrameError::HeadExceedsLimit),
        },
{
    match step_frame(received, max_len) {
        Some(step) => Ok(step),
        None => Err(FrameError::HeadExceedsLimit),
    }
}

/// A reader that follows the steps reads exactly the frame that was written
/// and gets its content: after any part of the frame it is told to read on
/// and not past the end, and after all of it the content is complete.
pub proof fn law_frame_round_trip(content: Seq<u8>, limit: nat, k: int)
    requires
        content.len() <= limit,
        content.len() <= u32::MAX,
        content.len() + PREFIX_LEN <= usize::MAX,
        0 <= k <= frame(content).len(),
    ensures
        k < frame(content).len() ==> (next_read(frame(content).take(k), limit) matches Some(
            ReadStep::More(n),
        ) && 0 < n <= frame(content).len() - k),
        k == frame(content).len() ==> next_read(frame(content).take(k), limit) == Some(
            ReadStep::Done(content.len() as usize),
        ),
        frame(content).skip(PREFIX_LEN as int) == content,
{
    law_prefix_round_trip(content.len());
    let received = frame(content).take(k);
    assert(frame(content).skip(PREFIX_LEN as int) =~= content);
    if k >= PREFIX_LEN {
        assert(received[0] == prefix(content.len())[0]);
        assert(received[1] == prefix(content.len())[1]);
        assert(received[2] == prefix(content.len())[2]);
        assert(received[3] == prefix(content.len())[3]);
        assert(prefix_value(received) == content.len());
    }
}

/// A head that is longer than the limit is refused as soon as its prefix is
/// in, before any of its content is read.
pub proof fn law_oversized_head_is_refused(content: Seq<u8>, limit: nat)
    requires
        limit < content.len() <= u32::MAX,
    ensures
        next_read(prefix(content.len()), limit) is None,
{
    law_prefix_round_trip(content.len());
}

// ---------------------------------------------------------------------------
// Bodies
// ---------------------------------------------------------------------------

/// Why a body is refused.
#[derive(Debug, Clone, Copy, PartialEq, Eq, Structural)]
pub enum BodyError {
    /// A length is needed and none was given.
    LengthRequired,
    /// The body is longer than the limit.
    ExceedsLimit,
}

/// How many bytes to read of a body with the given length.
pub fn read_body_with_limit(len: Option<u64>, max_len: usize) -> (out: Result<usize, BodyError>)
    ensures
        match len {
            None => out == Err::<usize, BodyError>(BodyError::LengthRequired),
            Some(len) => if len > max_len {
                out == Err::<usize, BodyError>(BodyError::ExceedsLimit)
            } else {
                out matches Ok(n) && n == len
            },
        },
{
    match len {
        None => Err(BodyError::LengthRequired),
        Some(len) => {
            if len > max_len as u64 {
                Err(BodyError::ExceedsLimit)
            } else {
                Ok(len as usize)
            }
        },
    }
}

/// The frames of a piece of a body: chunks of `BODY_CHUNK_LEN` bytes and one
/// of the rest.
pub open spec fn chunk_frames(data: Seq<u8>) -> Seq<u8>
    decreases data.len(),
{
    if data.len() == 0 {
        Seq::empty()
    } else if data.len() <= BODY_CHUNK_LEN {
        frame(data)
    } else {
        frame(data.take(BODY_CHUNK_LEN as int)) + chunk_frames(data.skip(BODY_CHUNK_LEN as int))
    }
}

/// The frame that ends a chunked body: one without content.
pub open spec fn end_frame() -> Seq<u8> {
    frame(Seq::empty())
}

/// Frames a piece of a chunked body.
pub fn write_body_chunks(data: &[u8]) -> (out: Vec<u8>)
    ensures
        out@ == chunk_frames(data@),
{
    let mut out: Vec<u8> = Vec::new();
    let mut start: usize = 0;
    assert(data@.skip(0) =~= data@);
    while start < data.len()
        invariant
            start <= data.len(),
            out@ + chunk_frames(data@.skip(start as int)) == chunk_frames(data@),
        decreases data.len() - start,
    {
        let rest = data.len() - start;
        let len = if rest > BODY_CHUNK_LEN {
            BODY_CHUNK_LEN
        } else {
            rest
        };
        let piece = vstd::slice::slice_subrange(data, start, start + len);
        let ghost before = out@;
        let ghost remaining = data@.skip(start as int);
        push_prefix(&mut out, len as u32);
        push_bytes(&mut out, piece);
        proof {
            assert(out@ =~= before + frame(piece@));
            assert(remaining.take(len as int) =~= piece@);
            assert(remaining.skip(len as int) =~= data@.skip(start + len));
            if rest <= BODY_CHUNK_LEN {
                assert(remaining =~= piece@);
                assert(data@.skip(start + len) =~= Seq::empty());
            }
            assert(out@ + chunk_frames(data@.skip(start + len)) =~= chunk_frames(data@));
        }
        start += len;
    }
    assert(data@.skip(start as int) =~= Seq::empty());
    assert(out@ =~= chunk_frames(data@));
    out
}

/// The bytes that end a chunked body.
pub fn write_body_end() -> (out: Vec<u8>)
    ensures
        out@ == end_frame(),
{
    let mut out: Vec<u8> = Vec::new();
    push_prefix(&mut out, 0);
    assert(out@ =~= end_frame());
    out
}

/// What to do after the bytes in `received` of a chunk came in. A complete
/// chunk without content ends the body.
pub fn read_body_chunk(received: &[u8]) -> (out: Result<ReadStep, FrameError>)
    ensures
        match next_read(received@, BODY_CHUNK_LEN as nat) {
            Some(step) => out == Ok::<ReadStep, FrameError>(step),
            None => out == Err::<ReadStep, FrameError>(FrameError::ChunkExceedsLimit),
        },
{
    match step_frame(received, BODY_CHUNK_LEN) {
        Some(step) => Ok(step),
        None => Err(FrameError::ChunkExceedsLimit),
    }
}

/// The body that a reader gets from a stream of chunks, and what the stream
/// holds behind the end of the body. Nothing if the stream ends early or a
/// chunk is too long.
pub open spec fn body_of_chunks(stream: Seq<u8>) -> Option<(Seq<u8>, Seq<u8>)>
    decreases stream.len(),
{
    match next_read(stream, BODY_CHUNK_LEN as nat) {
        Some(ReadStep::Done(n)) => {
            let rest = stream.skip(PREFIX_LEN + n);
            if n == 0 {
                Some((Seq::empty(), rest))
            } else {
                match body_of_chunks(rest) {
                    Some((body, behind)) => Some(
                        (stream.subrange(PREFIX_LEN as int, PREFIX_LEN + n) + body, behind),
                    ),
                    None => None,
                }
            }
        },
        _ => None,
    }
}

proof fn lemma_read_frame(content: Seq<u8>, behind: Seq<u8>)
    requires
        content.len() <= BODY_CHUNK_LEN,
    ensures
        next_read(frame(content) + behind, BODY_CHUNK_LEN as nat) == Some(
            ReadStep::Done(content.len() as usize),
        ),
        (frame(content) + behind).skip(PREFIX_LEN + content.len()) == behind,
        (frame(content) + behind).subrange(PREFIX_LEN as int, PREFIX_LEN + content.len())
            == content,
{
    law_prefix_round_trip(content.len());
    let stream = frame(content) + behind;
    assert(stream[0] == prefix(content.len())[0]);
    assert(stream[1] == prefix(content.len())[1]);
    assert(stream[2] == prefix(content.len())[2]);
    assert(stream[3] == prefix(content.len())[3]);
    assert(prefix_value(stream) == content.len());
    assert(stream.skip(PREFIX_LEN + content.len()) =~= behind);
    assert(stream.subrange(PREFIX_LEN as int, PREFIX_LEN + content.len()) =~= content);
}

proof fn lemma_chunks_read_back(data: Seq<u8>, behind: Seq<u8>)
    ensures
        body_of_chunks(chunk_frames(data) + behind) == match body_of_chunks(behind) {
            Some((body, rest)) => Some((data + body, rest)),
            None => None,
        },
    decreases data.len(),
{
    if data.len() == 0 {
        assert(chunk_frames(data) + behind =~= behind);
        if let Some((body, rest)) = body_of_chunks(behind) {
            assert(data + body =~= body);
        }
    } else if data.len() <= BODY_CHUNK_LEN {
        lemma_read_frame(data, behind);
    } else {
        let head = data.take(BODY_CHUNK_LEN as int);
        let tail = data.skip(BODY_CHUNK_LEN as int);
        lemma_chunks_read_back(tail, behind);
        lemma_read_frame(head, chunk_frames(tail) + behind);
        assert(chunk_frames(data) + behind =~= frame(head) + (chunk_frames(tail) + behind));
        if let Some((body, rest)) = body_of_chunks(behind) {
            assert(head + (tail + body) =~= data + body);
        }
    }
}

/// The pieces of a body, framed one after the other and ended.
pub open spec fn chunked_body(pieces: Seq<Seq<u8>>) -> Seq<u8>
    decreases pieces.len(),
{
    if pieces.len() == 0 {
        end_frame()
    } else {
        chunk_frames(pieces.first()) + chunked_body(pieces.drop_first())
    }
}

/// The pieces of a body, one after the other.
pub open spec fn whole_body(pieces: Seq<Seq<u8>>) -> Seq<u8>
    decreases pieces.len(),
{
    if pieces.len() == 0 {
        Seq::empty()
    } else {
        pieces.first() + whole_body(pieces.drop_first())
    }
}

/// A chunked body reads back as it was written, in whatever pieces it was
/// written, and the reader stops right behind it.
pub proof fn law_chunked_body_round_trip(pieces: Seq<Seq<u8>>, behind: Seq<u8>)
    ensures
        body_of_chunks(chunked_body(pieces) + behind) == Some((whole_body(pieces), behind)),
    decreases pieces.len(),
{
    if pieces.len() == 0 {
        lemma_read_frame(Seq::empty(), behind);
    } else {
        let rest = pieces.drop_first();
        law_chunked_body_round_trip(rest, behind);
        lemma_chunks_read_back(pieces.first(), chunked_body(rest) + behind);
        assert(chunked_body(pieces) + behind =~= chunk_frames(pieces.first()) + (chunked_body(rest)
            + behind));
    }
}

/// The limits and times that both sides rely on: bodies of 32 MiB, heads of
/// 1 MiB, chunks of 64 KiB, 128 TCP and 256 HTTP connections, ten seconds for
/// a handshake, a connection, a reconnection, and a shutdown, five minutes for
/// an idle tunnel, thirty seconds for an upstream and a little more for the
/// answer of the host.
pub proof fn law_documented_limits()
    ensures
        ALPN@ == "locho/2"@,
        PROTOCOL_VERSION == 2,
        MAX_BODY_LEN == 32 * 1024 * 1024,
        MAX_HEAD_LEN == 1024 * 1024,
        BODY_CHUNK_LEN == 64 * 1024,
        RELAY_BUFFER_LEN == 16 * 1024,
        MAX_TCP_CONNECTIONS == 128,
        MAX_HTTP_CONNECTIONS == 256,
        HANDSHAKE_TIMEOUT == 10 * 1000,
        TCP_CONNECT_TIMEOUT == 10 * 1000,
        ATTACH_RECONNECT_TIMEOUT == 10 * 1000,
        SHUTDOWN_TIMEOUT == 10 * 1000,
        TCP_IDLE_TIMEOUT == 5 * 60 * 1000,
        HTTP_UPSTREAM_TIMEOUT == 30 * 1000,
        HTTP_UPSTREAM_TIMEOUT < HTTP_ATTACHMENT_SAFETY_TIMEOUT == 35 * 1000,
        RECONNECT_STABLE_DURATION == 30 * 1000,
        RECONNECT_INITIAL_BACKOFF == 250,
        RECONNECT_MAX_BACKOFF == 5 * 1000,
{
}

/// A bare answer has the current version, the status, no headers, and an
/// empty body whose length is announced.
pub proof fn law_bare_response(status: u16)
    ensures
        bare_response(status).version == 2,
        bare_response(status).status == status,
        bare_response(status).headers.len() == 0,
        bare_response(status).body_len == Some(0u64),
{
}

/// A frame starts with the length of its content, in four bytes with the most
/// significant first, and the content follows as it is.
pub proof fn law_frame_layout(content: Seq<u8>)
    requires
        content.len() <= u32::MAX,
    ensures
        ({
            let bytes = frame(content);
            &&& bytes.len() == 4 + content.len()
            &&& bytes[0] * 0x100_0000 + bytes[1] * 0x1_0000 + bytes[2] * 0x100 + bytes[3]
                == content.len()
            &&& bytes.skip(4) == content
        }),
{
    law_prefix_round_trip(content.len());
    let bytes = frame(content);
    assert(bytes[0] == prefix(content.len())[0]);
    assert(bytes[1] == prefix(content.len())[1]);
    assert(bytes[2] == prefix(content.len())[2]);
    assert(bytes[3] == prefix(content.len())[3]);
    assert(bytes.skip(4) =~= content);
}

/// A reader that has a whole frame takes its content, whatever comes behind
/// it. One whose content is too long is refused once its length is known, and
/// never earlier; until then the rest of the length is read.
pub proof fn law_reading_a_frame(content: Seq<u8>, behind: Seq<u8>, limit: nat, k: int)
    requires
        content.len() <= u32::MAX,
        content.len() + PREFIX_LEN <= usize::MAX,
        0 <= k <= frame(content).len(),
    ensures
        content.len() <= limit ==> next_read(frame(content) + behind, limit) == Some(
            ReadStep::Done(content.len() as usize),
        ),
        content.len() > limit && k >= 4 ==> next_read(frame(content).take(k), limit) is None,
        k < 4 ==> next_read(frame(content).take(k), limit) == Some(
            ReadStep::More((4 - k) as usize),
        ),
        content.len() <= limit && 4 <= k < frame(content).len() ==> next_read(
            frame(content).take(k),
            limit,
        ) == Some(ReadStep::More((frame(content).len() - k) as usize)),
{
    law_frame_layout(content);
    let whole = frame(content) + behind;
    let part = frame(content).take(k);
    assert(whole[0] == frame(content)[0]);
    assert(whole[1] == frame(content)[1]);
    assert(whole[2] == frame(content)[2]);
    assert(whole[3] == frame(content)[3]);
    if k >= 4 {
        assert(part[0] == frame(content)[0]);
        assert(part[1] == frame(content)[1]);
        assert(part[2] == frame(content)[2]);
        assert(part[3] == frame(content)[3]);
    }
}

/// The pieces of a body make it up one after the other.
pub proof fn law_whole_body(pieces: Seq<Seq<u8>>)
    ensures
        whole_body(pieces) == pieces.flatten(),
    decreases pieces.len(),
{
    if pieces.len() > 0 {
        law_whole_body(pieces.drop_first());
    }
}

/// A chunked body ends with four zero bytes, and a piece without content adds
/// nothing to it.
pub proof fn law_end_of_chunks()
    ensures
        end_frame() == seq![0u8, 0u8, 0u8, 0u8],
        chunk_frames(Seq::empty()) == Seq::<u8>::empty(),
{
    assert(end_frame() =~= seq![0u8, 0u8, 0u8, 0u8]);
}

/// A piece of a body is framed in chunks of 64 KiB and one of the rest.
pub proof fn law_chunk_sizes(data: Seq<u8>)
    requires
        data.len() > 0,
    ensures
        data.len() <= 65_536 ==> chunk_frames(data) == frame(data),
        data.len() > 65_536 ==> chunk_frames(data) == frame(data.take(65_536)) + chunk_frames(
            data.skip(65_536),
        ),
{
}

} // verus!
