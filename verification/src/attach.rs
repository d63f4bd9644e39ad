//! The attachment's side of a stream: what is sent for a local client, and
//! what the client is answered.
//!
//! [`HttpExchange`] and [`TcpExchange`] decide, from what happened last, what an
//! attachment does next for one client.

use crate::auth;
use crate::http_utils;
use crate::protocol::{
    self, LochoRequestHead, LochoResponseHead, RequestView, ResponseView, StreamRequestHead,
    TcpRequestHead, TcpRequestView, BODY_CHUNK_LEN, MAX_BODY_LEN, PROTOCOL_VERSION,
};
use crate::text;
use vstd::prelude::*;

verus! {

// ---------------------------------------------------------------------------
// Heads
// ---------------------------------------------------------------------------

/// The head that opens an HTTP stream for a local request.
pub fn http_head(
    service: &str,
    secret: &str,
    method: &str,
    path: Option<&str>,
    headers: Vec<(String, String)>,
    body_len: Option<u64>,
) -> (out: LochoRequestHead)
    ensures
        out@ == (RequestView {
            version: PROTOCOL_VERSION,
            service: service@,
            secret_proof: auth::proof_text(secret@),
            method: method@,
            path_and_query: match path {
                Some(path) => path@,
                None => "/"@,
            },
            headers: http_utils::pair_views(headers@),
            body_len,
        }),
{
    let path_and_query = match path {
        Some(path) => path.to_owned(),
        None => "/".to_owned(),
    };
    LochoRequestHead {
        version: PROTOCOL_VERSION,
        service: service.to_owned(),
        secret_proof: auth::secret_proof(secret),
        method: method.to_owned(),
        path_and_query,
        headers,
        body_len,
    }
}

/// The head that opens a TCP stream.
pub fn tcp_head(service: &str, secret: &str) -> (out: StreamRequestHead)
    ensures
        out matches StreamRequestHead::Tcp(head) && head@ == (TcpRequestView {
            version: PROTOCOL_VERSION,
            service: service@,
            secret_proof: auth::proof_text(secret@),
        }),
{
    StreamRequestHead::Tcp(
        TcpRequestHead {
            version: PROTOCOL_VERSION,
            service: service.to_owned(),
            secret_proof: auth::secret_proof(secret),
        },
    )
}

// ---------------------------------------------------------------------------
// Failures
// ---------------------------------------------------------------------------

/// Why a local client is not served.
#[derive(Debug)]
pub enum TunnelFailure {
    /// There was no connection in time.
    Unavailable,
    /// The supervisor has stopped.
    SupervisorStopped,
    /// The connection failed.
    Transport(String),
    /// No stream could be opened in time.
    OpenTimedOut,
    /// The request body is longer than is allowed.
    BodyExceedsLimit,
    /// The request body is longer than was declared.
    BodyExceedsDeclared,
    /// The request body is shorter than was declared.
    BodyLengthChanged,
    /// The request body has trailers.
    BodyTrailers,
    /// The request body could not be read.
    BodyFailed(String),
    /// The host did not answer an HTTP request in time.
    ResponseTimedOut,
    /// The host speaks another version.
    UnsupportedVersion(u8),
    /// The host answered with a number that is no status.
    InvalidStatus,
    /// The host answered with more headers than can be held.
    TooManyHeaders,
    /// The host did not answer a TCP request in time.
    HandshakeTimedOut,
    /// The host refused a TCP request.
    Rejected(u16),
    /// No byte went through a TCP stream for too long.
    IdleTimeout,
}

/// The content of a failure.
pub enum FailureView {
    Unavailable,
    SupervisorStopped,
    Transport(Seq<char>),
    OpenTimedOut,
    BodyExceedsLimit,
    BodyExceedsDeclared,
    BodyLengthChanged,
    BodyTrailers,
    BodyFailed(Seq<char>),
    ResponseTimedOut,
    UnsupportedVersion(u8),
    InvalidStatus,
    TooManyHeaders,
    HandshakeTimedOut,
    Rejected(u16),
    IdleTimeout,
}

impl View for TunnelFailure {
    type V = FailureView;

    open spec fn view(&self) -> FailureView {
        match self {
            TunnelFailure::Unavailable => FailureView::Unavailable,
            TunnelFailure::SupervisorStopped => FailureView::SupervisorStopped,
            TunnelFailure::Transport(error) => FailureView::Transport(error@),
            TunnelFailure::OpenTimedOut => FailureView::OpenTimedOut,
            TunnelFailure::BodyExceedsLimit => FailureView::BodyExceedsLimit,
            TunnelFailure::BodyExceedsDeclared => FailureView::BodyExceedsDeclared,
            TunnelFailure::BodyLengthChanged => FailureView::BodyLengthChanged,
            TunnelFailure::BodyTrailers => FailureView::BodyTrailers,
            TunnelFailure::BodyFailed(error) => FailureView::BodyFailed(error@),
            TunnelFailure::ResponseTimedOut => FailureView::ResponseTimedOut,
            TunnelFailure::UnsupportedVersion(version) => FailureView::UnsupportedVersion(*version),
            TunnelFailure::InvalidStatus => FailureView::InvalidStatus,
            TunnelFailure::TooManyHeaders => FailureView::TooManyHeaders,
            TunnelFailure::HandshakeTimedOut => FailureView::HandshakeTimedOut,
            TunnelFailure::Rejected(status) => FailureView::Rejected(*status),
            TunnelFailure::IdleTimeout => FailureView::IdleTimeout,
        }
    }
}

/// The message of a failure.
pub open spec fn failure_text(failure: FailureView) -> Seq<char> {
    match failure {
        FailureView::Unavailable => "tunnel unavailable while reconnecting"@,
        FailureView::SupervisorStopped => "connection supervisor stopped"@,
        FailureView::Transport(error) => "transport failure: "@ + error,
        FailureView::OpenTimedOut => "HTTP tunnel stream open timed out"@,
        FailureView::BodyExceedsLimit => "request body exceeds limit"@,
        FailureView::BodyExceedsDeclared => "request body exceeds declared length"@,
        FailureView::BodyLengthChanged => "request body length changed during upload"@,
        FailureView::BodyTrailers => "request body contains trailers"@,
        FailureView::BodyFailed(error) => error,
        FailureView::ResponseTimedOut => "HTTP attachment handshake timed out"@,
        FailureView::UnsupportedVersion(version) => "unsupported tunnel response version "@
            + text::decimal_digits(version as nat),
        FailureView::InvalidStatus => "invalid response status"@,
        FailureView::TooManyHeaders => "too many response headers"@,
        FailureView::HandshakeTimedOut => "TCP attachment handshake timed out"@,
        FailureView::Rejected(status) => "TCP attachment rejected with status "@
            + text::decimal_digits(status as nat),
        FailureView::IdleTimeout => "TCP tunnel idle timeout"@,
    }
}

/// The status that a local HTTP client is answered when a request failed.
pub open spec fn failure_status(failure: FailureView) -> u16 {
    if failure is Unavailable {
        503
    } else if text::occurs(failure_text(failure), "403"@) {
        403
    } else if text::occurs(failure_text(failure), "501"@) {
        501
    } else if text::occurs(failure_text(failure), "body exceeds limit"@) {
        413
    } else {
        502
    }
}

impl TunnelFailure {
    /// The message of the failure.
    pub fn message(&self) -> (out: String)
        ensures
            out@ == failure_text(self@),
    {
        match self {
            TunnelFailure::Unavailable => "tunnel unavailable while reconnecting".to_owned(),
            TunnelFailure::SupervisorStopped => "connection supervisor stopped".to_owned(),
            TunnelFailure::Transport(error) => {
                let mut out = "transport failure: ".to_owned();
                out.append(error.as_str());
                out
            },
            TunnelFailure::OpenTimedOut => "HTTP tunnel stream open timed out".to_owned(),
            TunnelFailure::BodyExceedsLimit => "request body exceeds limit".to_owned(),
            TunnelFailure::BodyExceedsDeclared => "request body exceeds declared length".to_owned(),
            TunnelFailure::BodyLengthChanged => {
                "request body length changed during upload".to_owned()
            },
            TunnelFailure::BodyTrailers => "request body contains trailers".to_owned(),
            TunnelFailure::BodyFailed(error) => error.clone(),
            TunnelFailure::ResponseTimedOut => "HTTP attachment handshake timed out".to_owned(),
            TunnelFailure::UnsupportedVersion(version) => {
                let mut out = "unsupported tunnel response version ".to_owned();
                out.append(text::decimal(*version as u64).as_str());
                out
            },
            TunnelFailure::InvalidStatus => "invalid response status".to_owned(),
            TunnelFailure::TooManyHeaders => "too many response headers".to_owned(),
            TunnelFailure::HandshakeTimedOut => "TCP attachment handshake timed out".to_owned(),
            TunnelFailure::Rejected(status) => {
                let mut out = "TCP attachment rejected with status ".to_owned();
                out.append(text::decimal(*status as u64).as_str());
                out
            },
            TunnelFailure::IdleTimeout => "TCP tunnel idle timeout".to_owned(),
        }
    }

    /// The status that a local HTTP client is answered.
    pub fn status(&self) -> (out: u16)
        ensures
            out == failure_status(self@),
    {
        if let TunnelFailure::Unavailable = self {
            return 503;
        }
        let message = self.message();
        if text::contains(message.as_str(), "403") {
            403
        } else if text::contains(message.as_str(), "501") {
            501
        } else if text::contains(message.as_str(), "body exceeds limit") {
            413
        } else {
            502
        }
    }

    /// Whether the connection failed, so that it is withdrawn.
    pub fn is_transport_failure(&self) -> (r: bool)
        ensures
            r == self@ is Transport,
    {
        match self {
            TunnelFailure::Transport(_) => true,
            _ => false,
        }
    }

    /// Whether a TCP stream was closed because nothing went through it.
    pub fn is_idle_timeout(&self) -> (r: bool)
        ensures
            r == self@ is IdleTimeout,
    {
        match self {
            TunnelFailure::IdleTimeout => true,
            _ => false,
        }
    }
}

// ---------------------------------------------------------------------------
// An HTTP request
// ---------------------------------------------------------------------------

/// How far an HTTP request is.
#[derive(Debug, Clone, Copy, PartialEq, Eq, Structural)]
pub enum HttpStage {
    /// A lease on the connection is awaited.
    Acquiring,
    /// A stream is being opened.
    Opening,
    /// The head is being written.
    SendingHead,
    /// A piece of the request body is awaited.
    Uploading,
    /// A piece of the request body is being written.
    SendingPiece,
    /// The end of a chunked request body is being written.
    SendingEnd,
    /// The head of the answer is awaited.
    AwaitingHead,
    /// Nothing is left to decide.
    Finished,
}

impl HttpStage {
    /// Whether a body of any length can be declared at a stage: before it was
    /// held against the limit, and when the request is over.
    spec fn may_be_too_long(self) -> bool {
        self is Acquiring || self is Opening || self is Finished
    }
}

/// An HTTP request on its way through the tunnel.
#[derive(Debug)]
pub struct HttpExchange {
    stage: HttpStage,
    declared: Option<u64>,
    written: usize,
}

/// The state of an HTTP request: its stage, the declared length of its body,
/// and how much of the body was taken in.
pub struct ExchangeView {
    pub stage: HttpStage,
    pub declared: Option<u64>,
    pub written: nat,
}

impl View for HttpExchange {
    type V = ExchangeView;

    closed spec fn view(&self) -> ExchangeView {
        ExchangeView { stage: self.stage, declared: self.declared, written: self.written as nat }
    }
}

/// What happened to an HTTP request.
#[derive(Debug)]
pub enum HttpEvent {
    /// There is a lease on the connection.
    Acquired,
    /// There was no connection in time.
    AcquireTimedOut,
    /// The supervisor has stopped.
    SupervisorStopped,
    /// The stream is open.
    Opened,
    /// The stream could not be opened in time.
    OpenTimedOut,
    /// What was to be written was written.
    Written,
    /// Opening, writing, or reading the stream failed.
    Failed(String),
    /// A piece of the request body came in.
    Piece(Vec<u8>),
    /// Trailers came in behind the request body.
    Trailers,
    /// The request body could not be read.
    BodyFailed(String),
    /// The request body is complete.
    BodyEnded,
    /// The head of the answer came in.
    HeadRead(LochoResponseHead),
    /// The head of the answer did not come in time.
    HeadTimedOut,
}

/// What is done next for an HTTP request.
#[derive(Debug)]
pub enum HttpAction {
    /// Nothing.
    Keep,
    /// Open a stream.
    Open,
    /// Write the head.
    SendHead,
    /// Read a piece of the request body.
    NextPiece,
    /// Write bytes.
    Write(Vec<u8>),
    /// Read the head of the answer.
    ReadHead,
    /// Answer the client with the headers that cross the tunnel, and read a
    /// body of that length for it, or a chunked one.
    Respond { status: u16, headers: Vec<(String, String)>, body_len: Option<u64> },
    /// Answer the client with the status of the failure.
    Fail(TunnelFailure),
}

/// The content of an action.
pub enum HttpActionView {
    Keep,
    Open,
    SendHead,
    NextPiece,
    Write(Seq<u8>),
    ReadHead,
    Respond { status: u16, headers: Seq<http_utils::Pair>, body_len: Option<u64> },
    Fail(FailureView),
}

impl View for HttpAction {
    type V = HttpActionView;

    open spec fn view(&self) -> HttpActionView {
        match self {
            HttpAction::Keep => HttpActionView::Keep,
            HttpAction::Open => HttpActionView::Open,
            HttpAction::SendHead => HttpActionView::SendHead,
            HttpAction::NextPiece => HttpActionView::NextPiece,
            HttpAction::Write(bytes) => HttpActionView::Write(bytes@),
            HttpAction::ReadHead => HttpActionView::ReadHead,
            HttpAction::Respond { status, headers, body_len } => HttpActionView::Respond {
                status: *status,
                headers: http_utils::pair_views(headers@),
                body_len: *body_len,
            },
            HttpAction::Fail(failure) => HttpActionView::Fail(failure@),
        }
    }
}

/// The longest body that a request may have: the declared length, or the
/// limit of all bodies.
pub open spec fn body_room(declared: Option<u64>) -> nat {
    match declared {
        Some(len) => len as nat,
        None => MAX_BODY_LEN as nat,
    }
}

impl ExchangeView {
    /// The state with another stage.
    pub open spec fn at(self, stage: HttpStage) -> ExchangeView {
        ExchangeView { stage, ..self }
    }

    /// Ends a request with a failure.
    pub open spec fn failed(self, failure: FailureView) -> (ExchangeView, HttpActionView) {
        (self.at(HttpStage::Finished), HttpActionView::Fail(failure))
    }

    /// What follows a piece of the request body. Of a body of declared length
    /// the bytes themselves are written, of another one chunks.
    pub open spec fn with_piece(self, piece: Seq<u8>) -> (ExchangeView, HttpActionView) {
        if self.written + piece.len() > body_room(self.declared) {
            self.failed(
                if self.declared is Some {
                    FailureView::BodyExceedsDeclared
                } else {
                    FailureView::BodyExceedsLimit
                },
            )
        } else {
            (
                ExchangeView {
                    stage: HttpStage::SendingPiece,
                    declared: self.declared,
                    written: self.written + piece.len(),
                },
                HttpActionView::Write(
                    if self.declared is Some {
                        piece
                    } else {
                        protocol::chunk_frames(piece)
                    },
                ),
            )
        }
    }

    /// What follows the end of the request body.
    pub open spec fn with_body_end(self) -> (ExchangeView, HttpActionView) {
        match self.declared {
            Some(len) => if self.written != len {
                self.failed(FailureView::BodyLengthChanged)
            } else {
                (self.at(HttpStage::AwaitingHead), HttpActionView::ReadHead)
            },
            None => (
                self.at(HttpStage::SendingEnd),
                HttpActionView::Write(protocol::end_frame()),
            ),
        }
    }

    /// What follows the head of the answer.
    pub open spec fn with_answer(self, head: ResponseView) -> (ExchangeView, HttpActionView) {
        if head.version != PROTOCOL_VERSION {
            self.failed(FailureView::UnsupportedVersion(head.version))
        } else if !(100 <= head.status <= 999) {
            self.failed(FailureView::InvalidStatus)
        } else {
            (
                self.at(HttpStage::Finished),
                HttpActionView::Respond {
                    status: head.status,
                    headers: head.headers,
                    body_len: head.body_len,
                },
            )
        }
    }

    /// The state and the action after an event. What is not expected at a
    /// stage is passed over.
    pub open spec fn after(self, event: HttpEvent) -> (ExchangeView, HttpActionView) {
        match (self.stage, event) {
            (HttpStage::Acquiring, HttpEvent::Acquired) => (
                self.at(HttpStage::Opening),
                HttpActionView::Open,
            ),
            (HttpStage::Acquiring, HttpEvent::AcquireTimedOut) => self.failed(
                FailureView::Unavailable,
            ),
            (HttpStage::Acquiring, HttpEvent::SupervisorStopped) => self.failed(
                FailureView::SupervisorStopped,
            ),
            (HttpStage::Opening, HttpEvent::Opened) => if self.declared is Some
                && self.declared->0 > MAX_BODY_LEN {
                self.failed(FailureView::BodyExceedsLimit)
            } else {
                (self.at(HttpStage::SendingHead), HttpActionView::SendHead)
            },
            (HttpStage::Opening, HttpEvent::OpenTimedOut) => self.failed(FailureView::OpenTimedOut),
            (HttpStage::Opening, HttpEvent::Failed(error)) => self.failed(
                FailureView::Transport(error@),
            ),
            (HttpStage::SendingHead, HttpEvent::Written) => (
                self.at(HttpStage::Uploading),
                HttpActionView::NextPiece,
            ),
            (HttpStage::SendingHead, HttpEvent::Failed(error)) => self.failed(
                FailureView::Transport(error@),
            ),
            (HttpStage::Uploading, HttpEvent::Piece(piece)) => self.with_piece(piece@),
            (HttpStage::Uploading, HttpEvent::Trailers) => self.failed(FailureView::BodyTrailers),
            (HttpStage::Uploading, HttpEvent::BodyFailed(error)) => self.failed(
                FailureView::BodyFailed(error@),
            ),
            (HttpStage::Uploading, HttpEvent::BodyEnded) => self.with_body_end(),
            (HttpStage::SendingPiece, HttpEvent::Written) => (
                self.at(HttpStage::Uploading),
                HttpActionView::NextPiece,
            ),
            (HttpStage::SendingPiece, HttpEvent::Failed(error)) => self.failed(
                FailureView::Transport(error@),
            ),
            (HttpStage::SendingEnd, HttpEvent::Written) => (
                self.at(HttpStage::AwaitingHead),
                HttpActionView::ReadHead,
            ),
            (HttpStage::SendingEnd, HttpEvent::Failed(error)) => self.failed(
                FailureView::Transport(error@),
            ),
            (HttpStage::AwaitingHead, HttpEvent::HeadRead(head)) => self.with_answer(head@),
            (HttpStage::AwaitingHead, HttpEvent::HeadTimedOut) => self.failed(
                FailureView::ResponseTimedOut,
            ),
            (HttpStage::AwaitingHead, HttpEvent::Failed(error)) => self.failed(
                FailureView::Transport(error@),
            ),
            _ => (self, HttpActionView::Keep),
        }
    }
}

impl HttpExchange {
    #[verifier::type_invariant]
    spec fn inv(self) -> bool {
        match self.declared {
            Some(len) => self.written <= len && (self.stage.may_be_too_long() || len
                <= MAX_BODY_LEN),
            None => self.written <= MAX_BODY_LEN,
        }
    }

    /// A request that awaits a lease. A method that is not forwarded is
    /// answered with a status at once.
    pub fn new(method: &str, declared: Option<u64>) -> (out: Result<HttpExchange, u16>)
        ensures
            match out {
                Ok(exchange) => http_utils::supported_method(method@) && exchange@ == (
                ExchangeView { stage: HttpStage::Acquiring, declared, written: 0 }),
                Err(status) => !http_utils::supported_method(method@) && status == 405,
            },
    {
        if http_utils::is_supported_method(method) {
            Ok(HttpExchange { stage: HttpStage::Acquiring, declared, written: 0 })
        } else {
            Err(405)
        }
    }

    fn advance(&mut self, stage: HttpStage, action: HttpAction) -> (out: HttpAction)
        requires
            stage.may_be_too_long() || (old(self)@.declared is Some ==> old(self)@.declared->0
                <= MAX_BODY_LEN),
        ensures
            final(self)@ == old(self)@.at(stage),
            out == action,
    {
        proof {
            use_type_invariant(&*self);
        }
        self.stage = stage;
        action
    }

    fn fail(&mut self, failure: TunnelFailure) -> (action: HttpAction)
        ensures
            (final(self)@, action@) == old(self)@.failed(failure@),
    {
        self.advance(HttpStage::Finished, HttpAction::Fail(failure))
    }

    fn take_piece(&mut self, piece: Vec<u8>) -> (action: HttpAction)
        requires
            old(self)@.stage is Uploading,
        ensures
            (final(self)@, action@) == old(self)@.with_piece(piece@),
    {
        proof {
            use_type_invariant(&*self);
        }
        match self.declared {
            Some(len) => {
                if piece.len() as u64 > len - self.written as u64 {
                    return self.fail(TunnelFailure::BodyExceedsDeclared);
                }
                let written: usize = self.written + piece.len();
                *self = HttpExchange {
                    stage: HttpStage::SendingPiece,
                    declared: self.declared,
                    written,
                };
                HttpAction::Write(piece)
            },
            None => {
                if piece.len() > MAX_BODY_LEN - self.written {
                    return self.fail(TunnelFailure::BodyExceedsLimit);
                }
                let written: usize = self.written + piece.len();
                *self = HttpExchange {
                    stage: HttpStage::SendingPiece,
                    declared: self.declared,
                    written,
                };
                HttpAction::Write(protocol::write_body_chunks(piece.as_slice()))
            },
        }
    }

    fn take_body_end(&mut self) -> (action: HttpAction)
        requires
            old(self)@.stage is Uploading,
        ensures
            (final(self)@, action@) == old(self)@.with_body_end(),
    {
        proof {
            use_type_invariant(&*self);
        }
        match self.declared {
            Some(len) => {
                if self.written as u64 != len {
                    self.fail(TunnelFailure::BodyLengthChanged)
                } else {
                    self.advance(HttpStage::AwaitingHead, HttpAction::ReadHead)
                }
            },
            None => self.advance(
                HttpStage::SendingEnd,
                HttpAction::Write(protocol::write_body_end()),
            ),
        }
    }

    fn take_answer(&mut self, head: LochoResponseHead) -> (action: HttpAction)
        ensures
            (final(self)@, action@) == old(self)@.with_answer(head@),
    {
        if head.version != PROTOCOL_VERSION {
            return self.fail(TunnelFailure::UnsupportedVersion(head.version));
        }
        if !http_utils::is_status(head.status) {
            return self.fail(TunnelFailure::InvalidStatus);
        }
        self.advance(
            HttpStage::Finished,
            HttpAction::Respond {
                status: head.status,
                headers: head.headers,
                body_len: head.body_len,
            },
        )
    }

    /// Takes in what happened, and says what is done next.
    pub fn step(&mut self, event: HttpEvent) -> (action: HttpAction)
        ensures
            (final(self)@, action@) == old(self)@.after(event),
    {
        proof {
            use_type_invariant(&*self);
        }
        match (self.stage, event) {
            (HttpStage::Acquiring, HttpEvent::Acquired) => self.advance(
                HttpStage::Opening,
                HttpAction::Open,
            ),
            (HttpStage::Acquiring, HttpEvent::AcquireTimedOut) => self.fail(
                TunnelFailure::Unavailable,
            ),
            (HttpStage::Acquiring, HttpEvent::SupervisorStopped) => self.fail(
                TunnelFailure::SupervisorStopped,
            ),
            (HttpStage::Opening, HttpEvent::Opened) => {
                if let Some(len) = self.declared {
                    if len > MAX_BODY_LEN as u64 {
                        return self.fail(TunnelFailure::BodyExceedsLimit);
                    }
                }
                self.advance(HttpStage::SendingHead, HttpAction::SendHead)
            },
            (HttpStage::Opening, HttpEvent::OpenTimedOut) => self.fail(TunnelFailure::OpenTimedOut),
            (HttpStage::Opening, HttpEvent::Failed(error)) => self.fail(
                TunnelFailure::Transport(error),
            ),
            (HttpStage::SendingHead, HttpEvent::Written) => self.advance(
                HttpStage::Uploading,
                HttpAction::NextPiece,
            ),
            (HttpStage::SendingHead, HttpEvent::Failed(error)) => self.fail(
                TunnelFailure::Transport(error),
            ),
            (HttpStage::Uploading, HttpEvent::Piece(piece)) => self.take_piece(piece),
            (HttpStage::Uploading, HttpEvent::Trailers) => self.fail(TunnelFailure::BodyTrailers),
            (HttpStage::Uploading, HttpEvent::BodyFailed(error)) => self.fail(
                TunnelFailure::BodyFailed(error),
            ),
            (HttpStage::Uploading, HttpEvent::BodyEnded) => self.take_body_end(),
            (HttpStage::SendingPiece, HttpEvent::Written) => self.advance(
                HttpStage::Uploading,
                HttpAction::NextPiece,
            ),
            (HttpStage::SendingPiece, HttpEvent::Failed(error)) => self.fail(
                TunnelFailure::Transport(error),
            ),
            (HttpStage::SendingEnd, HttpEvent::Written) => self.advance(
                HttpStage::AwaitingHead,
                HttpAction::ReadHead,
            ),
            (HttpStage::SendingEnd, HttpEvent::Failed(error)) => self.fail(
                TunnelFailure::Transport(error),
            ),
            (HttpStage::AwaitingHead, HttpEvent::HeadRead(head)) => self.take_answer(head),
            (HttpStage::AwaitingHead, HttpEvent::HeadTimedOut) => self.fail(
                TunnelFailure::ResponseTimedOut,
            ),
            (HttpStage::AwaitingHead, HttpEvent::Failed(error)) => self.fail(
                TunnelFailure::Transport(error),
            ),
            _ => HttpAction::Keep,
        }
    }
}

// ---------------------------------------------------------------------------
// The body of an answer
// ---------------------------------------------------------------------------

/// The body of an answer that is being read.
#[derive(Debug, Clone, Copy, PartialEq, Eq, Structural)]
pub enum Download {
    /// So many bytes are left of a body of known length.
    Exact { remaining: u64 },
    /// Chunks are left.
    Chunked,
    /// The body is complete.
    Complete,
}

/// What is read next of a body.
#[derive(Debug, Clone, Copy, PartialEq, Eq, Structural)]
pub enum DownloadStep {
    /// Exactly that many bytes.
    Read(usize),
    /// A chunk.
    ReadChunk,
    /// Nothing: the body is complete.
    Complete,
}

impl Download {
    /// The body that an answer announces.
    pub open spec fn announced(body_len: Option<u64>) -> Download {
        match body_len {
            Some(remaining) => Download::Exact { remaining },
            None => Download::Chunked,
        }
    }

    /// What is read next: of a body of known length no more at once than a
    /// chunk may hold.
    pub open spec fn wanted(self) -> DownloadStep {
        match self {
            Download::Exact { remaining } => if remaining == 0 {
                DownloadStep::Complete
            } else if remaining > BODY_CHUNK_LEN {
                DownloadStep::Read(BODY_CHUNK_LEN)
            } else {
                DownloadStep::Read(remaining as usize)
            },
            Download::Chunked => DownloadStep::ReadChunk,
            Download::Complete => DownloadStep::Complete,
        }
    }

    /// What is left after so many bytes were read. An empty chunk ends a body.
    pub open spec fn without(self, len: usize) -> Download {
        match self {
            Download::Exact { remaining } => Download::Exact {
                remaining: if len > remaining {
                    0
                } else {
                    (remaining - len) as u64
                },
            },
            Download::Chunked => if len == 0 {
                Download::Complete
            } else {
                Download::Chunked
            },
            Download::Complete => Download::Complete,
        }
    }

    /// The body that an answer announces.
    pub fn new(body_len: Option<u64>) -> (out: Download)
        ensures
            out == Download::announced(body_len),
    {
        match body_len {
            Some(remaining) => Download::Exact { remaining },
            None => Download::Chunked,
        }
    }

    /// What is read next.
    pub fn next(&self) -> (out: DownloadStep)
        ensures
            out == self.wanted(),
    {
        match self {
            Download::Exact { remaining } => {
                if *remaining == 0 {
                    DownloadStep::Complete
                } else if *remaining > BODY_CHUNK_LEN as u64 {
                    DownloadStep::Read(BODY_CHUNK_LEN)
                } else {
                    DownloadStep::Read(*remaining as usize)
                }
            },
            Download::Chunked => DownloadStep::ReadChunk,
            Download::Complete => DownloadStep::Complete,
        }
    }

    /// Takes in that so many bytes were read.
    pub fn took(&mut self, len: usize)
        ensures
            *final(self) == old(self).without(len),
    {
        *self = match *self {
            Download::Exact { remaining } => {
                if len as u64 > remaining {
                    Download::Exact { remaining: 0 }
                } else {
                    Download::Exact { remaining: remaining - len as u64 }
                }
            },
            Download::Chunked => {
                if len == 0 {
                    Download::Complete
                } else {
                    Download::Chunked
                }
            },
            Download::Complete => Download::Complete,
        };
    }
}

/// How many bytes are read of a body when each read gives what was wanted.
pub open spec fn total_read(download: Download) -> nat
    decreases (match download {
        Download::Exact { remaining } => remaining as nat,
        _ => 0,
    }),
{
    match download {
        Download::Exact { remaining } => match download.wanted() {
            DownloadStep::Read(len) => if 0 < len <= remaining {
                len as nat + total_read(download.without(len))
            } else {
                0
            },
            _ => 0,
        },
        _ => 0,
    }
}

/// Of a body of known length exactly that many bytes are read.
pub proof fn law_download_reads_the_length(len: u64)
    ensures
        total_read(Download::announced(Some(len))) == len,
    decreases len,
{
    let download = Download::announced(Some(len));
    if len > 0 {
        match download.wanted() {
            DownloadStep::Read(n) => {
                law_download_reads_the_length((len - n) as u64);
            },
            _ => {},
        }
    }
}

// ---------------------------------------------------------------------------
// A TCP connection
// ---------------------------------------------------------------------------

/// How far a TCP connection is.
#[derive(Debug, Clone, Copy, PartialEq, Eq, Structural)]
pub enum TcpStage {
    /// A lease on the connection is awaited.
    Acquiring,
    /// A stream is being opened.
    Opening,
    /// The head is being written.
    SendingHead,
    /// The head of the answer is awaited.
    AwaitingHead,
    /// The body of the answer is being read.
    ReadingBody,
    /// Bytes are relayed.
    Relaying,
    /// Nothing is left to decide.
    Finished,
}

/// What happened to a TCP connection.
#[derive(Debug)]
pub enum TcpEvent {
    /// There is a lease on the connection.
    Acquired,
    /// There was no connection in time.
    AcquireTimedOut,
    /// The supervisor has stopped.
    SupervisorStopped,
    /// The stream is open.
    Opened,
    /// The head was written.
    Written,
    /// Opening, writing, reading, or relaying failed.
    Failed(String),
    /// The head of the answer came in.
    HeadRead(LochoResponseHead),
    /// The head of the answer did not come in time.
    HeadTimedOut,
    /// The body of the answer came in.
    BodyRead,
    /// Both directions of the relay ended.
    Relayed,
    /// No byte went through the relay for too long.
    IdleTimedOut,
}

/// What is done next for a TCP connection.
#[derive(Debug)]
pub enum TcpAction {
    /// Nothing.
    Keep,
    /// Open a stream.
    Open,
    /// Write the head.
    SendHead,
    /// Read the head of the answer.
    ReadHead,
    /// Read a body of that many bytes.
    ReadBody(usize),
    /// Relay bytes between the client and the stream.
    Relay,
    /// The connection ended well.
    Done,
    /// The connection failed.
    Fail(TunnelFailure),
}

/// The content of an action.
pub enum TcpActionView {
    Keep,
    Open,
    SendHead,
    ReadHead,
    ReadBody(usize),
    Relay,
    Done,
    Fail(FailureView),
}

impl View for TcpAction {
    type V = TcpActionView;

    open spec fn view(&self) -> TcpActionView {
        match self {
            TcpAction::Keep => TcpActionView::Keep,
            TcpAction::Open => TcpActionView::Open,
            TcpAction::SendHead => TcpActionView::SendHead,
            TcpAction::ReadHead => TcpActionView::ReadHead,
            TcpAction::ReadBody(len) => TcpActionView::ReadBody(*len),
            TcpAction::Relay => TcpActionView::Relay,
            TcpAction::Done => TcpActionView::Done,
            TcpAction::Fail(failure) => TcpActionView::Fail(failure@),
        }
    }
}

/// Ends a TCP connection with a failure.
pub open spec fn tcp_failed(failure: FailureView) -> (TcpStage, TcpActionView) {
    (TcpStage::Finished, TcpActionView::Fail(failure))
}

/// What follows the head of the answer to a TCP request. Any status but 200
/// refuses the client.
pub open spec fn tcp_answered(head: ResponseView) -> (TcpStage, TcpActionView) {
    if head.status != 200 {
        tcp_failed(FailureView::Rejected(head.status))
    } else {
        match head.body_len {
            None => tcp_failed(FailureView::Transport("body length is required"@)),
            Some(len) => if len > MAX_BODY_LEN {
                tcp_failed(FailureView::Transport("body exceeds limit"@))
            } else {
                (TcpStage::ReadingBody, TcpActionView::ReadBody(len as usize))
            },
        }
    }
}

/// The stage and the action after an event. What is not expected at a stage is
/// passed over.
pub open spec fn tcp_after(stage: TcpStage, event: TcpEvent) -> (TcpStage, TcpActionView) {
    match (stage, event) {
        (TcpStage::Acquiring, TcpEvent::Acquired) => (TcpStage::Opening, TcpActionView::Open),
        (TcpStage::Acquiring, TcpEvent::AcquireTimedOut) => tcp_failed(FailureView::Unavailable),
        (TcpStage::Acquiring, TcpEvent::SupervisorStopped) => tcp_failed(
            FailureView::SupervisorStopped,
        ),
        (TcpStage::Opening, TcpEvent::Opened) => (TcpStage::SendingHead, TcpActionView::SendHead),
        (TcpStage::SendingHead, TcpEvent::Written) => (
            TcpStage::AwaitingHead,
            TcpActionView::ReadHead,
        ),
        (TcpStage::AwaitingHead, TcpEvent::HeadRead(head)) => tcp_answered(head@),
        (TcpStage::AwaitingHead, TcpEvent::HeadTimedOut) => tcp_failed(
            FailureView::HandshakeTimedOut,
        ),
        (TcpStage::ReadingBody, TcpEvent::BodyRead) => (TcpStage::Relaying, TcpActionView::Relay),
        (TcpStage::Relaying, TcpEvent::Relayed) => (TcpStage::Finished, TcpActionView::Done),
        (TcpStage::Relaying, TcpEvent::IdleTimedOut) => tcp_failed(FailureView::IdleTimeout),
        (TcpStage::Acquiring, _) | (TcpStage::Finished, _) => (stage, TcpActionView::Keep),
        (_, TcpEvent::Failed(error)) => tcp_failed(FailureView::Transport(error@)),
        _ => (stage, TcpActionView::Keep),
    }
}

/// A TCP connection on its way through the tunnel.
#[derive(Debug)]
pub struct TcpExchange {
    stage: TcpStage,
}

impl View for TcpExchange {
    type V = TcpStage;

    closed spec fn view(&self) -> TcpStage {
        self.stage
    }
}

impl TcpExchange {
    /// A connection that awaits a lease.
    pub fn new() -> (out: TcpExchange)
        ensures
            out@ == TcpStage::Acquiring,
    {
        TcpExchange { stage: TcpStage::Acquiring }
    }

    fn fail(&mut self, failure: TunnelFailure) -> (action: TcpAction)
        ensures
            (final(self)@, action@) == tcp_failed(failure@),
    {
        self.stage = TcpStage::Finished;
        TcpAction::Fail(failure)
    }

    fn take_answer(&mut self, head: LochoResponseHead) -> (action: TcpAction)
        ensures
            (final(self)@, action@) == tcp_answered(head@),
    {
        if head.status != 200 {
            return self.fail(TunnelFailure::Rejected(head.status));
        }
        match protocol::read_body_with_limit(head.body_len, MAX_BODY_LEN) {
            Err(protocol::BodyError::LengthRequired) => self.fail(
                TunnelFailure::Transport("body length is required".to_owned()),
            ),
            Err(protocol::BodyError::ExceedsLimit) => self.fail(
                TunnelFailure::Transport("body exceeds limit".to_owned()),
            ),
            Ok(len) => {
                self.stage = TcpStage::ReadingBody;
                TcpAction::ReadBody(len)
            },
        }
    }

    /// Takes in what happened, and says what is done next.
    pub fn step(&mut self, event: TcpEvent) -> (action: TcpAction)
        ensures
            (final(self)@, action@) == tcp_after(old(self)@, event),
    {
        match (self.stage, event) {
            (TcpStage::Acquiring, TcpEvent::Acquired) => {
                self.stage = TcpStage::Opening;
                TcpAction::Open
            },
            (TcpStage::Acquiring, TcpEvent::AcquireTimedOut) => self.fail(
                TunnelFailure::Unavailable,
            ),
            (TcpStage::Acquiring, TcpEvent::SupervisorStopped) => self.fail(
                TunnelFailure::SupervisorStopped,
            ),
            (TcpStage::Opening, TcpEvent::Opened) => {
                self.stage = TcpStage::SendingHead;
                TcpAction::SendHead
            },
            (TcpStage::SendingHead, TcpEvent::Written) => {
                self.stage = TcpStage::AwaitingHead;
                TcpAction::ReadHead
            },
            (TcpStage::AwaitingHead, TcpEvent::HeadRead(head)) => self.take_answer(head),
            (TcpStage::AwaitingHead, TcpEvent::HeadTimedOut) => self.fail(
                TunnelFailure::HandshakeTimedOut,
            ),
            (TcpStage::ReadingBody, TcpEvent::BodyRead) => {
                self.stage = TcpStage::Relaying;
                TcpAction::Relay
            },
            (TcpStage::Relaying, TcpEvent::Relayed) => {
                self.stage = TcpStage::Finished;
                TcpAction::Done
            },
            (TcpStage::Relaying, TcpEvent::IdleTimedOut) => self.fail(TunnelFailure::IdleTimeout),
            (TcpStage::Acquiring, _) | (TcpStage::Finished, _) => TcpAction::Keep,
            (_, TcpEvent::Failed(error)) => self.fail(TunnelFailure::Transport(error)),
            _ => TcpAction::Keep,
        }
    }
}

// ---------------------------------------------------------------------------
// Laws
// ---------------------------------------------------------------------------

/// The state of an HTTP request after some events.
pub open spec fn exchange_after(declared: Option<u64>, events: Seq<HttpEvent>) -> ExchangeView
    decreases events.len(),
{
    if events.len() == 0 {
        ExchangeView { stage: HttpStage::Acquiring, declared, written: 0 }
    } else {
        exchange_after(declared, events.drop_last()).after(events.last()).0
    }
}

/// What is done on the last of some events.
pub open spec fn last_action(declared: Option<u64>, events: Seq<HttpEvent>) -> HttpActionView {
    exchange_after(declared, events.drop_last()).after(events.last()).1
}

/// The bytes that are written for a request behind its head.
pub open spec fn written_bytes(declared: Option<u64>, events: Seq<HttpEvent>) -> Seq<u8>
    decreases events.len(),
{
    if events.len() == 0 {
        Seq::empty()
    } else {
        let before = written_bytes(declared, events.drop_last());
        match last_action(declared, events) {
            HttpActionView::Write(bytes) => before + bytes,
            _ => before,
        }
    }
}

/// The pieces of the request body that were taken in.
pub open spec fn pieces_taken(declared: Option<u64>, events: Seq<HttpEvent>) -> Seq<Seq<u8>>
    decreases events.len(),
{
    if events.len() == 0 {
        Seq::empty()
    } else {
        let before = pieces_taken(declared, events.drop_last());
        match events.last() {
            HttpEvent::Piece(piece) => if last_action(declared, events) is Write {
                before.push(piece@)
            } else {
                before
            },
            _ => before,
        }
    }
}

/// The pieces of a body, framed one after the other, without an end.
spec fn framed(pieces: Seq<Seq<u8>>) -> Seq<u8>
    decreases pieces.len(),
{
    if pieces.len() == 0 {
        Seq::empty()
    } else {
        framed(pieces.drop_last()) + protocol::chunk_frames(pieces.last())
    }
}

proof fn lemma_framed_first(pieces: Seq<Seq<u8>>)
    requires
        pieces.len() > 0,
    ensures
        framed(pieces) == protocol::chunk_frames(pieces.first()) + framed(pieces.drop_first()),
    decreases pieces.len(),
{
    let rest = pieces.drop_first();
    if pieces.len() == 1 {
        assert(pieces.drop_last() =~= Seq::empty());
        assert(rest =~= Seq::empty());
        assert(framed(pieces) =~= protocol::chunk_frames(pieces.first()) + framed(rest));
    } else {
        lemma_framed_first(pieces.drop_last());
        assert(pieces.drop_last().drop_first() =~= rest.drop_last());
        assert(framed(pieces) =~= protocol::chunk_frames(pieces.first()) + framed(rest));
    }
}

proof fn lemma_framed_is_chunked(pieces: Seq<Seq<u8>>)
    ensures
        framed(pieces) + protocol::end_frame() == protocol::chunked_body(pieces),
    decreases pieces.len(),
{
    if pieces.len() == 0 {
        assert(framed(pieces) + protocol::end_frame() =~= protocol::end_frame());
    } else {
        lemma_framed_first(pieces);
        lemma_framed_is_chunked(pieces.drop_first());
        assert(framed(pieces) + protocol::end_frame() =~= protocol::chunk_frames(pieces.first()) + (
        framed(pieces.drop_first()) + protocol::end_frame()));
    }
}

proof fn lemma_whole_body_push(pieces: Seq<Seq<u8>>, piece: Seq<u8>)
    ensures
        protocol::whole_body(pieces.push(piece)) == protocol::whole_body(pieces) + piece,
    decreases pieces.len(),
{
    let more = pieces.push(piece);
    if pieces.len() == 0 {
        assert(more.drop_first() =~= Seq::empty());
        assert(more.first() == piece);
        assert(protocol::whole_body(more.drop_first()) =~= Seq::empty());
        assert(protocol::whole_body(more) =~= protocol::whole_body(pieces) + piece);
    } else {
        lemma_whole_body_push(pieces.drop_first(), piece);
        assert(more.drop_first() =~= pieces.drop_first().push(piece));
        assert(more.first() == pieces.first());
        assert(protocol::whole_body(more) =~= protocol::whole_body(pieces) + piece);
    }
}

spec fn upload_is_sound(declared: Option<u64>, events: Seq<HttpEvent>) -> bool {
    let state = exchange_after(declared, events);
    let bytes = written_bytes(declared, events);
    let pieces = pieces_taken(declared, events);
    &&& state.declared == declared
    &&& state.written == protocol::whole_body(pieces).len()
    &&& state.written <= body_room(declared)
    &&& state.stage.may_be_too_long() || declared is None || declared->0 <= MAX_BODY_LEN
    &&& declared is Some ==> bytes == protocol::whole_body(pieces)
    &&& declared is None && (state.stage is SendingEnd || state.stage is AwaitingHead) ==> bytes
        == framed(pieces) + protocol::end_frame()
    &&& declared is None && !(state.stage is SendingEnd || state.stage is AwaitingHead
        || state.stage is Finished) ==> bytes == framed(pieces)
    &&& declared is Some && state.stage is AwaitingHead ==> state.written == declared->0
    &&& declared is Some ==> !(state.stage is SendingEnd)
}

proof fn lemma_upload_is_sound(declared: Option<u64>, events: Seq<HttpEvent>)
    ensures
        upload_is_sound(declared, events),
    decreases events.len(),
{
    if events.len() > 0 {
        let front = events.drop_last();
        lemma_upload_is_sound(declared, front);
        let pieces = pieces_taken(declared, front);
        if let HttpEvent::Piece(piece) = events.last() {
            lemma_whole_body_push(pieces, piece@);
            assert(pieces.push(piece@).drop_last() =~= pieces);
        }
    }
}

/// When the head of the answer is awaited, the request body was sent whole. Of
/// a body of declared length exactly that many bytes were written. Another one
/// was written in chunks, from which the host reads it back.
pub proof fn law_body_is_sent_whole(
    declared: Option<u64>,
    events: Seq<HttpEvent>,
    behind: Seq<u8>,
)
    requires
        exchange_after(declared, events).stage is AwaitingHead,
    ensures
        ({
            let bytes = written_bytes(declared, events);
            let body = protocol::whole_body(pieces_taken(declared, events));
            &&& body.len() <= MAX_BODY_LEN
            &&& match declared {
                Some(len) => bytes == body && bytes.len() == len,
                None => protocol::body_of_chunks(bytes + behind) == Some((body, behind)),
            }
        }),
{
    lemma_upload_is_sound(declared, events);
    let pieces = pieces_taken(declared, events);
    lemma_framed_is_chunked(pieces);
    protocol::law_chunked_body_round_trip(pieces, behind);
}

/// A local client is answered with a status of the host only if the host
/// speaks the protocol, and only after the request body was sent whole.
pub proof fn law_answers_are_checked(declared: Option<u64>, events: Seq<HttpEvent>)
    requires
        events.len() > 0,
        last_action(declared, events) is Respond,
    ensures
        events.last() matches HttpEvent::HeadRead(head) && head.version == PROTOCOL_VERSION && 100
            <= head.status <= 999 && last_action(declared, events) == (HttpActionView::Respond {
            status: head.status,
            headers: http_utils::pair_views(head.headers@),
            body_len: head.body_len,
        }),
        exchange_after(declared, events.drop_last()).stage is AwaitingHead,
{
}

/// A request whose declared body is too long is refused before anything is
/// sent.
pub proof fn law_declared_limit(declared: Option<u64>, events: Seq<HttpEvent>)
    requires
        declared is Some,
        declared->0 > MAX_BODY_LEN,
        events.len() > 0,
    ensures
        !(last_action(declared, events) is SendHead),
        !(last_action(declared, events) is Write),
{
    lemma_upload_is_sound(declared, events.drop_last());
    lemma_upload_is_sound(declared, events);
}

/// A request that found no connection is answered with 503, and one whose
/// body is too long with 413.
pub proof fn law_failure_statuses()
    ensures
        failure_status(FailureView::Unavailable) == 503,
        failure_status(FailureView::BodyExceedsLimit) == 413,
{
    let message = "request body exceeds limit"@;
    let needle = "body exceeds limit"@;
    reveal_strlit("request body exceeds limit");
    reveal_strlit("body exceeds limit");
    reveal_strlit("403");
    reveal_strlit("501");
    assert(message.subrange(8, 26) =~= needle);
    assert(text::occurs_at(message, needle, 8));
    assert forall|i: int| !text::occurs_at(message, "403"@, i) by {
        if text::occurs_at(message, "403"@, i) {
            assert(message.subrange(i, i + 3)[0] == '4');
            assert(message[i] == '4');
        }
    }
    assert forall|i: int| !text::occurs_at(message, "501"@, i) by {
        if text::occurs_at(message, "501"@, i) {
            assert(message.subrange(i, i + 3)[0] == '5');
            assert(message[i] == '5');
        }
    }
}

/// The stage of a TCP connection after some events.
pub open spec fn tcp_stage_after(events: Seq<TcpEvent>) -> TcpStage
    decreases events.len(),
{
    if events.len() == 0 {
        TcpStage::Acquiring
    } else {
        tcp_after(tcp_stage_after(events.drop_last()), events.last()).0
    }
}

/// Bytes of a local TCP client are relayed only after the host answered 200.
pub proof fn law_relay_needs_consent(events: Seq<TcpEvent>)
    requires
        tcp_stage_after(events) is Relaying || tcp_stage_after(events) is ReadingBody,
    ensures
        exists|i: int|
            0 <= i < events.len() && (#[trigger] events[i] matches TcpEvent::HeadRead(head)
                && head.status == 200),
    decreases events.len(),
{
    let front = events.drop_last();
    if tcp_stage_after(front) is Relaying || tcp_stage_after(front) is ReadingBody {
        law_relay_needs_consent(front);
        let i = choose|i: int|
            0 <= i < front.len() && (#[trigger] front[i] matches TcpEvent::HeadRead(head)
                && head.status == 200);
        assert(events[i] == front[i]);
    } else {
        assert(events[events.len() - 1] == events.last());
    }
}

/// A request for which nothing goes wrong is carried on: a lease opens a
/// stream, the head is sent on it, then the body piece by piece, and then the
/// head of the answer is read. A body whose declared length is allowed is sent,
/// and the length and what was taken of it are kept all the while.
pub proof fn law_request_goes_on(state: ExchangeView)
    ensures
        state.stage is Acquiring ==> state.after(HttpEvent::Acquired) == (
            ExchangeView { stage: HttpStage::Opening, ..state },
            HttpActionView::Open,
        ),
        state.stage is Opening && !(state.declared is Some && state.declared->0 > MAX_BODY_LEN)
            ==> state.after(HttpEvent::Opened) == (
            ExchangeView { stage: HttpStage::SendingHead, ..state },
            HttpActionView::SendHead,
        ),
        state.stage is SendingHead || state.stage is SendingPiece ==> state.after(
            HttpEvent::Written,
        ) == (
            ExchangeView { stage: HttpStage::Uploading, ..state },
            HttpActionView::NextPiece,
        ),
        state.stage is Uploading && state.declared is None ==> state.after(HttpEvent::BodyEnded)
            == (
            ExchangeView { stage: HttpStage::SendingEnd, ..state },
            HttpActionView::Write(seq![0u8, 0u8, 0u8, 0u8]),
        ),
        state.stage is Uploading && state.declared is Some && state.declared->0 == state.written
            ==> state.after(HttpEvent::BodyEnded) == (
            ExchangeView { stage: HttpStage::AwaitingHead, ..state },
            HttpActionView::ReadHead,
        ),
        state.stage is SendingEnd ==> state.after(HttpEvent::Written) == (
            ExchangeView { stage: HttpStage::AwaitingHead, ..state },
            HttpActionView::ReadHead,
        ),
{
    protocol::law_end_of_chunks();
}

/// A piece of the request body is written if the body stays within its declared
/// length, or else within 32 MiB: as it is if a length was declared, and in
/// chunks that hold it otherwise.
pub proof fn law_pieces_are_written(state: ExchangeView, piece: Vec<u8>, behind: Seq<u8>)
    requires
        state.stage is Uploading,
    ensures
        ({
            let (after, action) = state.after(HttpEvent::Piece(piece));
            let total = state.written + piece@.len();
            &&& state.declared is Some ==> {
                &&& total <= state.declared->0 ==> action == HttpActionView::Write(piece@)
                &&& total > state.declared->0 ==> action == HttpActionView::Fail(
                    FailureView::BodyExceedsDeclared,
                ) && after.stage is Finished
            }
            &&& state.declared is None ==> {
                &&& total <= 32 * 1024 * 1024 ==> (action matches HttpActionView::Write(bytes)
                    && protocol::body_of_chunks(bytes + protocol::end_frame() + behind) == Some(
                    (piece@, behind),
                ))
                &&& total > 32 * 1024 * 1024 ==> action == HttpActionView::Fail(
                    FailureView::BodyExceedsLimit,
                ) && after.stage is Finished
            }
            &&& action is Write ==> after == (ExchangeView {
                stage: HttpStage::SendingPiece,
                written: total,
                ..state
            })
        }),
{
    let pieces = seq![piece@];
    protocol::law_chunked_body_round_trip(pieces, behind);
    assert(pieces.drop_first() =~= Seq::empty());
    assert(pieces.first() == piece@);
    assert(protocol::chunked_body(pieces.drop_first()) == protocol::end_frame());
    assert(protocol::whole_body(pieces.drop_first()) =~= Seq::empty());
    assert(protocol::whole_body(pieces) =~= piece@);
}

/// A request ends with the failure that happened to it, at whatever stage that
/// can happen: without a lease, without a stream, on an error of the
/// connection, with a body that is wrong, or without an answer in time.
pub proof fn law_request_fails(state: ExchangeView, error: String)
    ensures
        ({
            let over = ExchangeView { stage: HttpStage::Finished, ..state };
            let streaming = state.stage is Opening || state.stage is SendingHead
                || state.stage is SendingPiece || state.stage is SendingEnd
                || state.stage is AwaitingHead;
            &&& state.stage is Acquiring ==> state.after(HttpEvent::AcquireTimedOut) == (
                over,
                HttpActionView::Fail(FailureView::Unavailable),
            )
            &&& state.stage is Acquiring ==> state.after(HttpEvent::SupervisorStopped) == (
                over,
                HttpActionView::Fail(FailureView::SupervisorStopped),
            )
            &&& state.stage is Opening ==> state.after(HttpEvent::OpenTimedOut) == (
                over,
                HttpActionView::Fail(FailureView::OpenTimedOut),
            )
            &&& state.stage is Opening && state.declared is Some && state.declared->0 > MAX_BODY_LEN
                ==> state.after(HttpEvent::Opened) == (
                over,
                HttpActionView::Fail(FailureView::BodyExceedsLimit),
            )
            &&& streaming ==> state.after(HttpEvent::Failed(error)) == (
                over,
                HttpActionView::Fail(FailureView::Transport(error@)),
            )
            &&& state.stage is Uploading ==> state.after(HttpEvent::Trailers) == (
                over,
                HttpActionView::Fail(FailureView::BodyTrailers),
            )
            &&& state.stage is Uploading ==> state.after(HttpEvent::BodyFailed(error)) == (
                over,
                HttpActionView::Fail(FailureView::BodyFailed(error@)),
            )
            &&& state.stage is Uploading && state.declared is Some && state.declared->0
                != state.written ==> state.after(HttpEvent::BodyEnded) == (
                over,
                HttpActionView::Fail(FailureView::BodyLengthChanged),
            )
            &&& state.stage is AwaitingHead ==> state.after(HttpEvent::HeadTimedOut) == (
                over,
                HttpActionView::Fail(FailureView::ResponseTimedOut),
            )
        }),
{
}

/// The answer of a host that speaks the protocol is passed on as it is,
/// whatever its status. Another version, or a number that is no status, fails
/// the request.
pub proof fn law_answers_are_passed_on(state: ExchangeView, head: LochoResponseHead)
    requires
        state.stage is AwaitingHead,
    ensures
        ({
            let (after, action) = state.after(HttpEvent::HeadRead(head));
            &&& after.stage is Finished
            &&& head.version == 2 && 100 <= head.status <= 999 ==> action == (
            HttpActionView::Respond {
                status: head.status,
                headers: http_utils::pair_views(head.headers@),
                body_len: head.body_len,
            })
            &&& head.version != 2 ==> action == HttpActionView::Fail(
                FailureView::UnsupportedVersion(head.version),
            )
            &&& head.version == 2 && !(100 <= head.status <= 999) ==> action
                == HttpActionView::Fail(FailureView::InvalidStatus)
        }),
{
}

/// Once a request is over, nothing is done for it any more; nor is anything
/// sent before there is a lease and a stream.
pub proof fn law_finished_request_rests(state: ExchangeView, event: HttpEvent)
    ensures
        state.stage is Finished ==> state.after(event) == (state, HttpActionView::Keep),
        state.stage is Acquiring && !(event is Acquired) && !(event is AcquireTimedOut) && !(
        event is SupervisorStopped) ==> state.after(event) == (state, HttpActionView::Keep),
        state.after(event).0.declared == state.declared,
        state.after(event).0.written >= state.written,
        state.after(event).1 is Fail || state.after(event).1 is Respond ==> state.after(
            event,
        ).0.stage is Finished,
{
}

proof fn lemma_absent(s: Seq<char>, needle: Seq<char>, c: char)
    requires
        !s.contains(c),
        needle.contains(c),
    ensures
        !text::occurs(s, needle),
{
    if text::occurs(s, needle) {
        let i = choose|i: int| text::occurs_at(s, needle, i);
        let k = choose|k: int| 0 <= k < needle.len() && needle[k] == c;
        assert(s.subrange(i, i + needle.len())[k] == c);
        assert(s[i + k] == c);
    }
}

/// What a failure is answered with when its message says nothing of a refusal
/// or of a limit.
proof fn lemma_plain_failure(failure: FailureView)
    requires
        !(failure is Unavailable),
        !failure_text(failure).contains('0'),
        !failure_text(failure).contains('x') || !failure_text(failure).contains('m'),
    ensures
        failure_status(failure) == 502,
{
    reveal_strlit("403");
    reveal_strlit("501");
    reveal_strlit("body exceeds limit");
    let message = failure_text(failure);
    assert("403"@[1] == '0');
    assert("501"@[1] == '0');
    assert("body exceeds limit"@[6] == 'x');
    assert("body exceeds limit"@[15] == 'm');
    lemma_absent(message, "403"@, '0');
    lemma_absent(message, "501"@, '0');
    if message.contains('x') {
        lemma_absent(message, "body exceeds limit"@, 'm');
    } else {
        lemma_absent(message, "body exceeds limit"@, 'x');
    }
}

/// A local client is answered with 502 for all that goes wrong on the way and
/// is neither a missing connection nor a body over the limit.
pub proof fn law_other_failures_are_bad_gateways()
    ensures
        failure_status(FailureView::SupervisorStopped) == 502,
        failure_status(FailureView::OpenTimedOut) == 502,
        failure_status(FailureView::BodyExceedsDeclared) == 502,
        failure_status(FailureView::BodyLengthChanged) == 502,
        failure_status(FailureView::BodyTrailers) == 502,
        failure_status(FailureView::ResponseTimedOut) == 502,
        failure_status(FailureView::InvalidStatus) == 502,
        failure_status(FailureView::TooManyHeaders) == 502,
        failure_status(FailureView::HandshakeTimedOut) == 502,
        failure_status(FailureView::IdleTimeout) == 502,
{
    reveal_strlit("connection supervisor stopped");
    reveal_strlit("HTTP tunnel stream open timed out");
    reveal_strlit("request body exceeds declared length");
    reveal_strlit("request body length changed during upload");
    reveal_strlit("request body contains trailers");
    reveal_strlit("HTTP attachment handshake timed out");
    reveal_strlit("invalid response status");
    reveal_strlit("too many response headers");
    reveal_strlit("TCP attachment handshake timed out");
    reveal_strlit("TCP tunnel idle timeout");
    lemma_plain_failure(FailureView::SupervisorStopped);
    lemma_plain_failure(FailureView::OpenTimedOut);
    lemma_plain_failure(FailureView::BodyExceedsDeclared);
    lemma_plain_failure(FailureView::BodyLengthChanged);
    lemma_plain_failure(FailureView::BodyTrailers);
    lemma_plain_failure(FailureView::ResponseTimedOut);
    lemma_plain_failure(FailureView::InvalidStatus);
    lemma_plain_failure(FailureView::TooManyHeaders);
    lemma_plain_failure(FailureView::HandshakeTimedOut);
    lemma_plain_failure(FailureView::IdleTimeout);
}

/// An error of the connection or of the local body is answered with the status
/// that its message speaks of, and else with 502.
pub proof fn law_status_of_an_error(failure: FailureView)
    requires
        failure is Transport || failure is BodyFailed,
    ensures
        ({
            let message = match failure {
                FailureView::Transport(error) => "transport failure: "@ + error,
                FailureView::BodyFailed(error) => error,
                _ => Seq::empty(),
            };
            let refused = text::occurs(message, "403"@);
            let missing = text::occurs(message, "501"@);
            let limited = text::occurs(message, "body exceeds limit"@);
            &&& failure_text(failure) == message
            &&& failure_status(failure) == 403 <==> refused
            &&& failure_status(failure) == 501 <==> !refused && missing
            &&& failure_status(failure) == 413 <==> !refused && !missing && limited
            &&& failure_status(failure) == 502 <==> !refused && !missing && !limited
        }),
{
}

/// A TCP connection for which nothing goes wrong is carried on: a lease opens a
/// stream, the head is sent, the answer is read with its body, and bytes are
/// relayed until both sides have ended.
pub proof fn law_tcp_goes_on(head: LochoResponseHead)
    ensures
        tcp_after(TcpStage::Acquiring, TcpEvent::Acquired) == (
            TcpStage::Opening,
            TcpActionView::Open,
        ),
        tcp_after(TcpStage::Opening, TcpEvent::Opened) == (
            TcpStage::SendingHead,
            TcpActionView::SendHead,
        ),
        tcp_after(TcpStage::SendingHead, TcpEvent::Written) == (
            TcpStage::AwaitingHead,
            TcpActionView::ReadHead,
        ),
        head.status == 200 && head.body_len is Some && head.body_len->0 <= MAX_BODY_LEN
            ==> tcp_after(TcpStage::AwaitingHead, TcpEvent::HeadRead(head)) == (
            TcpStage::ReadingBody,
            TcpActionView::ReadBody(head.body_len->0 as usize),
        ),
        tcp_after(TcpStage::ReadingBody, TcpEvent::BodyRead) == (
            TcpStage::Relaying,
            TcpActionView::Relay,
        ),
        tcp_after(TcpStage::Relaying, TcpEvent::Relayed) == (
            TcpStage::Finished,
            TcpActionView::Done,
        ),
{
}

/// A TCP connection ends with the failure that happened to it: without a lease,
/// on an error of the connection, without an answer in time, with a refusal,
/// whose status is told, or when nothing went through it for too long.
pub proof fn law_tcp_fails(stage: TcpStage, head: LochoResponseHead, error: String)
    ensures
        tcp_after(TcpStage::Acquiring, TcpEvent::AcquireTimedOut) == (
            TcpStage::Finished,
            TcpActionView::Fail(FailureView::Unavailable),
        ),
        tcp_after(TcpStage::Acquiring, TcpEvent::SupervisorStopped) == (
            TcpStage::Finished,
            TcpActionView::Fail(FailureView::SupervisorStopped),
        ),
        !(stage is Acquiring) && !(stage is Finished) ==> tcp_after(stage, TcpEvent::Failed(error))
            == (TcpStage::Finished, TcpActionView::Fail(FailureView::Transport(error@))),
        tcp_after(TcpStage::AwaitingHead, TcpEvent::HeadTimedOut) == (
            TcpStage::Finished,
            TcpActionView::Fail(FailureView::HandshakeTimedOut),
        ),
        head.status != 200 ==> tcp_after(TcpStage::AwaitingHead, TcpEvent::HeadRead(head)) == (
            TcpStage::Finished,
            TcpActionView::Fail(FailureView::Rejected(head.status)),
        ),
        head.status == 200 && head.body_len is None ==> tcp_after(
            TcpStage::AwaitingHead,
            TcpEvent::HeadRead(head),
        ) == (
            TcpStage::Finished,
            TcpActionView::Fail(FailureView::Transport("body length is required"@)),
        ),
        head.status == 200 && head.body_len is Some && head.body_len->0 > MAX_BODY_LEN
            ==> tcp_after(TcpStage::AwaitingHead, TcpEvent::HeadRead(head)) == (
            TcpStage::Finished,
            TcpActionView::Fail(FailureView::Transport("body exceeds limit"@)),
        ),
        tcp_after(TcpStage::Relaying, TcpEvent::IdleTimedOut) == (
            TcpStage::Finished,
            TcpActionView::Fail(FailureView::IdleTimeout),
        ),
{
}

/// Once a TCP connection is over, nothing is done for it any more, and what it
/// does not await changes nothing.
pub proof fn law_finished_connection_rests(stage: TcpStage, event: TcpEvent)
    ensures
        stage is Finished ==> tcp_after(stage, event) == (stage, TcpActionView::Keep),
        tcp_after(stage, event).1 is Keep ==> tcp_after(stage, event).0 == stage,
        tcp_after(stage, event).1 is Fail || tcp_after(stage, event).1 is Done ==> tcp_after(
            stage,
            event,
        ).0 is Finished,
        tcp_after(stage, event).1 is Relay ==> stage is ReadingBody,
        tcp_after(stage, event).1 is Done ==> stage is Relaying && event is Relayed,
{
}

/// Of a body of known length so much is read as is left, at most 64 KiB at
/// once, and it is complete when nothing is left. Of a chunked one a chunk is
/// read after the other, until one is empty.
pub proof fn law_download_steps(remaining: u64, len: usize)
    ensures
        Download::announced(Some(remaining)) == (Download::Exact { remaining }),
        Download::announced(None) == Download::Chunked,
        ({
            let body = Download::Exact { remaining };
            &&& remaining == 0 <==> body.wanted() is Complete
            &&& 0 < remaining <= 65_536 ==> body.wanted() == DownloadStep::Read(remaining as usize)
            &&& remaining > 65_536 ==> body.wanted() == DownloadStep::Read(65_536)
            &&& len <= remaining ==> body.without(len) == (Download::Exact {
                remaining: (remaining - len) as u64,
            })
        }),
        Download::Chunked.wanted() is ReadChunk,
        len > 0 ==> Download::Chunked.without(len) == Download::Chunked,
        len == 0 ==> Download::Chunked.without(len) == Download::Complete,
        Download::Complete.wanted() is Complete,
        Download::Complete.without(len) == Download::Complete,
{
}

/// What is not awaited at a stage is passed over: nothing is done, and the
/// request stays as it is.
pub proof fn law_other_events_are_passed_over(state: ExchangeView, event: HttpEvent)
    ensures
        state.after(event).1 is Keep ==> state.after(event).0 == state,
        !(state.after(event).1 is Keep) ==> match state.stage {
            HttpStage::Acquiring => event is Acquired || event is AcquireTimedOut
                || event is SupervisorStopped,
            HttpStage::Opening => event is Opened || event is OpenTimedOut || event is Failed,
            HttpStage::SendingHead | HttpStage::SendingPiece | HttpStage::SendingEnd =>
                event is Written || event is Failed,
            HttpStage::Uploading => event is Piece || event is Trailers || event is BodyFailed
                || event is BodyEnded,
            HttpStage::AwaitingHead => event is HeadRead || event is HeadTimedOut
                || event is Failed,
            HttpStage::Finished => false,
        },
{
}

proof fn lemma_short_digits(n: nat)
    requires
        n < 1000,
    ensures
        text::decimal_digits(n).len() <= 3,
{
    if n >= 10 {
        if n / 10 >= 10 {
            assert(n / 10 / 10 < 10);
            assert(text::decimal_digits(n / 10 / 10).len() == 1);
        }
        assert(text::decimal_digits(n / 10).len() <= 2);
    }
}

proof fn lemma_no_digits_of(start: Seq<char>, n: nat, needle: Seq<char>)
    requires
        n < 1000,
        needle.len() == 3,
        forall|i: int| 0 <= i < 3 ==> '0' <= #[trigger] needle[i] && needle[i] <= '9',
        forall|i: int| 0 <= i < start.len() ==> !('0' <= #[trigger] start[i] && start[i] <= '9'),
        text::digits_value(needle) != n,
    ensures
        !text::occurs(start + text::decimal_digits(n), needle),
{
    let digits = text::decimal_digits(n);
    let message = start + digits;
    if text::occurs(message, needle) {
        let i = choose|i: int| text::occurs_at(message, needle, i);
        text::law_decimal_digits(n);
        lemma_short_digits(n);
        assert(message.subrange(i, i + 3)[0] == needle[0]);
        if i < start.len() {
            assert(message[i] == start[i]);
        }
        assert(i == start.len() && digits.len() == 3);
        assert(message.subrange(i, i + 3) =~= digits);
    }
}

/// A host of another version is a bad gateway, whatever its version.
pub proof fn law_other_version_is_a_bad_gateway(version: u8)
    ensures
        failure_status(FailureView::UnsupportedVersion(version)) == 502,
{
    let start = "unsupported tunnel response version "@;
    let message = failure_text(FailureView::UnsupportedVersion(version));
    reveal_strlit("unsupported tunnel response version ");
    reveal_strlit("403");
    reveal_strlit("501");
    reveal_strlit("body exceeds limit");
    lemma_value_of_three('4', '0', '3');
    lemma_value_of_three('5', '0', '1');
    assert("403"@ =~= seq!['4', '0', '3']);
    assert("501"@ =~= seq!['5', '0', '1']);
    lemma_no_digits_of(start, version as nat, "403"@);
    lemma_no_digits_of(start, version as nat, "501"@);
    text::law_decimal_digits(version as nat);
    assert forall|i: int| 0 <= i < message.len() implies message[i] != 'x' by {
        if i >= start.len() {
            assert(message[i] == text::decimal_digits(version as nat)[i - start.len()]);
        } else {
            assert(message[i] == start[i]);
        }
    }
    assert("body exceeds limit"@[6] == 'x');
    lemma_absent(message, "body exceeds limit"@, 'x');
}

proof fn lemma_value_of_three(a: char, b: char, c: char)
    requires
        '0' <= a && a <= '9',
        '0' <= b && b <= '9',
        '0' <= c && c <= '9',
    ensures
        text::digits_value(seq![a, b, c]) == 100 * (a as nat - '0' as nat) + 10 * (b as nat
            - '0' as nat) + (c as nat - '0' as nat),
{
    let s = seq![a, b, c];
    assert(s.drop_last() =~= seq![a, b]);
    assert(s.drop_last().drop_last() =~= seq![a]);
    assert(s.drop_last().drop_last().drop_last() =~= Seq::empty());
    assert(text::digits_value(Seq::empty()) == 0);
    assert(text::digits_value(seq![a]) == (a as nat - '0' as nat) as nat);
    assert(text::digits_value(seq![a, b]) == 10 * text::digits_value(seq![a]) + (b as nat
        - '0' as nat) as nat);
}

/// A refusal of a TCP connection tells the status of the host, and an error of
/// the connection or of the local body tells what it was.
pub proof fn law_failures_tell_their_reason(status: u16, error: Seq<char>)
    ensures
        failure_text(FailureView::Rejected(status)) == "TCP attachment rejected with status "@
            + text::decimal_digits(status as nat),
        failure_text(FailureView::Transport(error)) == "transport failure: "@ + error,
        failure_text(FailureView::BodyFailed(error)) == error,
        failure_text(FailureView::Unavailable) == "tunnel unavailable while reconnecting"@,
        failure_text(FailureView::IdleTimeout) == "TCP tunnel idle timeout"@,
{
}

/// What a TCP connection does not await at its stage is passed over.
pub proof fn law_other_tcp_events_are_passed_over(stage: TcpStage, event: TcpEvent)
    ensures
        !(tcp_after(stage, event).1 is Keep) ==> match stage {
            TcpStage::Acquiring => event is Acquired || event is AcquireTimedOut
                || event is SupervisorStopped,
            TcpStage::Opening => event is Opened || event is Failed,
            TcpStage::SendingHead => event is Written || event is Failed,
            TcpStage::AwaitingHead => event is HeadRead || event is HeadTimedOut
                || event is Failed,
            TcpStage::ReadingBody => event is BodyRead || event is Failed,
            TcpStage::Relaying => event is Relayed || event is IdleTimedOut || event is Failed,
            TcpStage::Finished => false,
        },
{
}

} // verus!
