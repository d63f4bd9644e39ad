//! The host's side of a stream: admission, forwarding, and answers.
//!
//! A stream is opened by a head. [`handle_stream`] decides, from what happened
//! last, what the host does next; the program reads, writes, and connects.

use crate::auth;
use crate::config::{self, Config, ServiceConfig, ServiceType};
use crate::http_utils;
use crate::net::SocketAddress;
use crate::protocol::{
    self, LochoRequestHead, LochoResponseHead, RequestView, ResponseView, StreamRequestHead,
    StreamRequestView, MAX_BODY_LEN, PROTOCOL_VERSION,
};
use crate::state::ServiceSecrets;
use crate::upstream::{self, UpstreamUrl};
use http::{HeaderMap, HeaderValue};
use vstd::prelude::*;
use vstd::utf8::*;

verus! {

/// The services of a running host and their secrets.
#[derive(Debug)]
pub struct HostServices {
    pub config: Config,
    pub secrets: ServiceSecrets,
}

// ---------------------------------------------------------------------------
// Admission
// ---------------------------------------------------------------------------

/// Which service a peer is admitted to, or with which status it is refused.
pub open spec fn admission(
    services: HostServices,
    version: u8,
    name: Seq<char>,
    presented: Seq<char>,
) -> Result<int, u16> {
    if version != PROTOCOL_VERSION {
        Err(400)
    } else {
        match config::position(services.config.services@, name) {
            None => Err(404),
            Some(i) => if !services.secrets@.dom().contains(name) {
                Err(403)
            } else if presented != auth::proof_text(services.secrets@[name]) {
                Err(403)
            } else {
                Ok(i)
            },
        }
    }
}

/// Admits a peer to a service, or gives the status that refuses it.
pub fn authorize(services: &HostServices, version: u8, name: &str, presented: &str) -> (out: Result<
    usize,
    u16,
>)
    ensures
        match out {
            Ok(i) => i < services.config.services@.len() && admission(
                *services,
                version,
                name@,
                presented@,
            ) == Ok::<int, u16>(i as int),
            Err(status) => admission(*services, version, name@, presented@) == Err::<int, u16>(
                status,
            ),
        },
{
    if version != PROTOCOL_VERSION {
        return Err(400);
    }
    match services.config.find(name) {
        None => Err(404),
        Some(i) => match services.secrets.get(name) {
            None => Err(403),
            Some(secret) => match auth::verify_secret_proof(secret.as_str(), presented) {
                Ok(()) => Ok(i),
                Err(_) => Err(403),
            },
        },
    }
}

// ---------------------------------------------------------------------------
// Requests to an upstream
// ---------------------------------------------------------------------------

/// A request that goes upstream.
#[derive(Debug)]
pub struct UpstreamRequest {
    pub url: UpstreamUrl,
    pub method: String,
    pub headers: Vec<(String, String)>,
    pub body: Vec<u8>,
}

/// The content of a request that goes upstream.
pub struct UpstreamRequestView {
    pub url: upstream::UpstreamView,
    pub method: Seq<char>,
    pub headers: Seq<http_utils::Pair>,
    pub body: Seq<u8>,
}

impl View for UpstreamRequest {
    type V = UpstreamRequestView;

    open spec fn view(&self) -> UpstreamRequestView {
        UpstreamRequestView {
            url: self.url@,
            method: self.method@,
            headers: http_utils::pair_views(self.headers@),
            body: self.body@,
        }
    }
}

/// Whether a request of the tunnel can go upstream: its path is valid, its
/// method is a token, and the upstream and the path are not too long together
/// to be joined.
pub open spec fn forwardable(base: upstream::UpstreamView, request: RequestView) -> bool {
    &&& encode_utf8(base.source).len() + encode_utf8(request.path_and_query).len()
        <= upstream::MAX_URL_LEN
    &&& upstream::valid_target(request.path_and_query)
    &&& request.method.len() > 0
    &&& http_utils::token_text(request.method)
}

/// The request that goes upstream for one of the tunnel, if any does.
pub open spec fn forwarded(base: upstream::UpstreamView, request: RequestView, body: Seq<u8>) -> Option<
    UpstreamRequestView,
> {
    if !forwardable(base, request) {
        None
    } else {
        match upstream::joined_url(base.source, request.path_and_query) {
            None => None,
            Some(url) => Some(
                UpstreamRequestView {
                    url: upstream::UpstreamView {
                        source: base.source,
                        target: Some(request.path_and_query),
                        url,
                    },
                    method: request.method,
                    headers: http_utils::upstream_pairs(request.headers),
                    body,
                },
            ),
        }
    }
}

/// The request that goes upstream for one of the tunnel.
pub fn forward_to_upstream(base: &UpstreamUrl, request: LochoRequestHead, body: Vec<u8>) -> (out:
    Option<UpstreamRequest>)
    ensures
        match out {
            Some(sent) => forwarded(base@, request@, body@) == Some(sent@),
            None => forwarded(base@, request@, body@) is None,
        },
        out is Some <==> forwardable(base@, request@),
        base@.url.host is Some ==> (out matches Some(sent) ==> upstream::same_authority(
            sent@.url.url,
            base@.url,
        )),
{
    let path = request.path_and_query.as_str();
    let room: usize = base.source().as_bytes().len();
    let len: usize = path.as_bytes().len();
    if room > upstream::MAX_URL_LEN || len > upstream::MAX_URL_LEN - room {
        return None;
    }
    let url = match upstream::join_upstream_url(base, path) {
        Ok(url) => url,
        Err(_) => {
            return None;
        },
    };
    if !http_utils::is_method(request.method.as_str()) {
        return None;
    }
    let headers = http_utils::upstream_headers(&request.headers);
    Some(UpstreamRequest { url, method: request.method, headers, body })
}

/// The answer for what an upstream answered, which is refused if its body is
/// too long.
pub open spec fn upstream_answer(
    status: u16,
    headers: Seq<http_utils::Entry>,
    body: Seq<u8>,
) -> (ResponseView, Seq<u8>) {
    if body.len() > MAX_BODY_LEN {
        (protocol::bare_response(502), Seq::empty())
    } else {
        (
            ResponseView {
                version: PROTOCOL_VERSION,
                status,
                headers: http_utils::crossing(headers, headers),
                body_len: Some(body.len() as u64),
            },
            body,
        )
    }
}

/// The answer for what an upstream answered.
pub fn answer_of_upstream(status: u16, headers: &HeaderMap<HeaderValue>, body: Vec<u8>) -> (out: (
    LochoResponseHead,
    Vec<u8>,
))
    ensures
        (out.0@, out.1@) == upstream_answer(status, http_utils::header_entries(*headers), body@),
{
    if body.len() > MAX_BODY_LEN {
        return (protocol::bare_head(502), Vec::new());
    }
    let head = LochoResponseHead {
        version: PROTOCOL_VERSION,
        status,
        headers: http_utils::headers_to_pairs(headers),
        body_len: Some(body.len() as u64),
    };
    (head, body)
}

// ---------------------------------------------------------------------------
// A stream
// ---------------------------------------------------------------------------

/// How far a stream is.
#[derive(Debug)]
pub enum HostStage {
    /// The head is being read.
    Head,
    /// A body of known length is being read.
    Body { request: LochoRequestHead, service: usize },
    /// A chunked body is being read.
    Chunks { request: LochoRequestHead, service: usize, received: Vec<u8> },
    /// The upstream is being asked.
    Upstream,
    /// The endpoint of a TCP service is being connected to.
    Connecting,
    /// Nothing is left to decide.
    Done,
}

/// The content of a stage.
pub enum StageView {
    Head,
    Body { request: RequestView, service: int },
    Chunks { request: RequestView, service: int, received: Seq<u8> },
    Upstream,
    Connecting,
    Done,
}

impl View for HostStage {
    type V = StageView;

    open spec fn view(&self) -> StageView {
        match self {
            HostStage::Head => StageView::Head,
            HostStage::Body { request, service } => StageView::Body {
                request: request@,
                service: *service as int,
            },
            HostStage::Chunks { request, service, received } => StageView::Chunks {
                request: request@,
                service: *service as int,
                received: received@,
            },
            HostStage::Upstream => StageView::Upstream,
            HostStage::Connecting => StageView::Connecting,
            HostStage::Done => StageView::Done,
        }
    }
}

impl HostStage {
    /// Whether the stage belongs to one of the services, and announces or
    /// holds no more of a body than is allowed.
    pub open spec fn valid(self, services: HostServices) -> bool {
        match self {
            HostStage::Body { request, service } => service < services.config.services@.len()
                && request.body_len is Some && request.body_len->0 <= MAX_BODY_LEN,
            HostStage::Chunks { request, service, received } => service
                < services.config.services@.len() && received@.len() <= MAX_BODY_LEN,
            _ => true,
        }
    }
}

/// What happened on a stream.
#[derive(Debug)]
pub enum HostEvent {
    /// No head could be read.
    HeadFailed,
    /// A head came in.
    HeadRead(StreamRequestHead),
    /// The body could not be read.
    BodyFailed,
    /// The body came in.
    BodyRead(Vec<u8>),
    /// A chunk of the body came in. An empty one ends the body.
    ChunkRead(Vec<u8>),
    /// The upstream did not answer, or not in time.
    UpstreamFailed { timed_out: bool },
    /// The upstream answered.
    UpstreamAnswered { status: u16, headers: HeaderMap<HeaderValue>, body: Vec<u8> },
    /// The host relays all the TCP connections that it may.
    RelaysFull,
    /// The endpoint could not be connected to, or not in time.
    ConnectFailed { timed_out: bool },
    /// The endpoint is connected.
    Connected,
}

/// What the host does next.
#[derive(Debug)]
pub enum HostAction {
    /// Read a body of that many bytes.
    ReadBody(usize),
    /// Read a chunk of the body.
    ReadChunk,
    /// Send a request to the upstream of a service.
    Forward { service: usize, request: UpstreamRequest },
    /// Connect to the endpoint of a service.
    Connect(SocketAddress),
    /// Write an answer and end the stream.
    Answer { head: LochoResponseHead, body: Vec<u8> },
    /// Write an answer and relay bytes from then on.
    Relay(LochoResponseHead),
    /// End the stream.
    End,
}

/// The content of an action.
pub enum ActionView {
    ReadBody(usize),
    ReadChunk,
    Forward { service: int, request: UpstreamRequestView },
    Connect(SocketAddress),
    Answer { head: ResponseView, body: Seq<u8> },
    Relay(ResponseView),
    End,
}

impl View for HostAction {
    type V = ActionView;

    open spec fn view(&self) -> ActionView {
        match self {
            HostAction::ReadBody(n) => ActionView::ReadBody(*n),
            HostAction::ReadChunk => ActionView::ReadChunk,
            HostAction::Forward { service, request } => ActionView::Forward {
                service: *service as int,
                request: request@,
            },
            HostAction::Connect(address) => ActionView::Connect(*address),
            HostAction::Answer { head, body } => ActionView::Answer { head: head@, body: body@ },
            HostAction::Relay(head) => ActionView::Relay(head@),
            HostAction::End => ActionView::End,
        }
    }
}

/// Ends a stream with a status.
pub open spec fn refusal(status: u16) -> (StageView, ActionView) {
    (
        StageView::Done,
        ActionView::Answer { head: protocol::bare_response(status), body: Seq::empty() },
    )
}

/// What follows the head of a stream.
pub open spec fn after_head(services: HostServices, head: StreamRequestView) -> (
    StageView,
    ActionView,
) {
    match head {
        StreamRequestView::Http(request) => match admission(
            services,
            request.version,
            request.service,
            request.secret_proof,
        ) {
            Err(status) => refusal(status),
            Ok(service) => match request.body_len {
                None => (
                    StageView::Chunks { request, service, received: Seq::empty() },
                    ActionView::ReadChunk,
                ),
                Some(len) => if len > MAX_BODY_LEN {
                    refusal(413)
                } else {
                    (StageView::Body { request, service }, ActionView::ReadBody(len as usize))
                },
            },
        },
        StreamRequestView::Tcp(request) => match admission(
            services,
            request.version,
            request.service,
            request.secret_proof,
        ) {
            Err(status) => refusal(status),
            Ok(service) => after_tcp_head(services.config.services@[service]),
        },
    }
}

/// What follows the head of a TCP stream to a service.
pub open spec fn after_tcp_head(service: ServiceConfig) -> (StageView, ActionView) {
    match service.service_type {
        ServiceType::Http => refusal(501),
        ServiceType::Tcp => match service.endpoint {
            Some(address) => (StageView::Connecting, ActionView::Connect(address)),
            None => refusal(500),
        },
    }
}

/// What follows the body of a request to a service.
pub open spec fn after_body(
    services: HostServices,
    request: RequestView,
    service: int,
    body: Seq<u8>,
) -> (StageView, ActionView) {
    let target = services.config.services@[service];
    match target.service_type {
        ServiceType::Tcp => refusal(501),
        ServiceType::Http => match target.upstream {
            None => refusal(500),
            Some(base) => match forwarded(base@, request, body) {
                None => refusal(502),
                Some(request) => (
                    StageView::Upstream,
                    ActionView::Forward { service, request },
                ),
            },
        },
    }
}

/// What follows the read of a body of known length. One of another length is
/// as good as none.
pub open spec fn after_read(
    services: HostServices,
    request: RequestView,
    service: int,
    body: Seq<u8>,
) -> (StageView, ActionView) {
    if request.body_len matches Some(len) && body.len() == len {
        after_body(services, request, service, body)
    } else {
        refusal(400)
    }
}

/// What follows a chunk of a body. The body is over with an empty chunk, and
/// refused once it is too long.
pub open spec fn after_chunk(
    services: HostServices,
    request: RequestView,
    service: int,
    received: Seq<u8>,
    chunk: Seq<u8>,
) -> (StageView, ActionView) {
    if chunk.len() == 0 {
        after_body(services, request, service, received)
    } else if received.len() + chunk.len() > MAX_BODY_LEN {
        refusal(413)
    } else {
        (
            StageView::Chunks { request, service, received: received + chunk },
            ActionView::ReadChunk,
        )
    }
}

/// What a host does at a stage of a stream when something happened. What is
/// not expected at a stage ends the stream.
pub open spec fn reaction(services: HostServices, stage: StageView, event: HostEvent) -> (
    StageView,
    ActionView,
) {
    match (stage, event) {
        (StageView::Head, HostEvent::HeadFailed) => refusal(400),
        (StageView::Head, HostEvent::HeadRead(head)) => after_head(services, head@),
        (StageView::Body { request, service }, HostEvent::BodyFailed) => refusal(400),
        (StageView::Body { request, service }, HostEvent::BodyRead(body)) => after_read(
            services,
            request,
            service,
            body@,
        ),
        (StageView::Chunks { request, service, received }, HostEvent::BodyFailed) => refusal(400),
        (StageView::Chunks { request, service, received }, HostEvent::ChunkRead(chunk)) =>
            after_chunk(services, request, service, received, chunk@),
        (StageView::Upstream, HostEvent::UpstreamFailed { timed_out }) => refusal(
            if timed_out {
                504
            } else {
                502
            },
        ),
        (StageView::Upstream, HostEvent::UpstreamAnswered { status, headers, body }) => {
            let answer = upstream_answer(status, http_utils::header_entries(headers), body@);
            (StageView::Done, ActionView::Answer { head: answer.0, body: answer.1 })
        },
        (StageView::Connecting, HostEvent::RelaysFull) => refusal(503),
        (StageView::Connecting, HostEvent::ConnectFailed { timed_out }) => refusal(
            if timed_out {
                504
            } else {
                502
            },
        ),
        (StageView::Connecting, HostEvent::Connected) => (
            StageView::Done,
            ActionView::Relay(protocol::bare_response(200)),
        ),
        _ => (StageView::Done, ActionView::End),
    }
}

/// Whether an action, if it forwards a request, sends it to the scheme, the
/// host, and the port of the upstream of a service, with its user and password,
/// where that upstream has a host.
pub open spec fn stays_on_upstream(services: HostServices, action: ActionView) -> bool {
    action matches ActionView::Forward { service, request } ==> (
    services.config.services@[service].upstream matches Some(base) && (base@.url.host is Some
        ==> upstream::same_authority(request.url.url, base@.url)))
}

fn refuse(status: u16) -> (out: (HostStage, HostAction))
    ensures
        (out.0@, out.1@) == refusal(status),
        out.0 is Done,
{
    (
        HostStage::Done,
        HostAction::Answer { head: protocol::bare_head(status), body: Vec::new() },
    )
}

fn take_head(services: &HostServices, head: StreamRequestHead) -> (out: (HostStage, HostAction))
    ensures
        (out.0@, out.1@) == after_head(*services, head@),
        out.0.valid(*services),
{
    match head {
        StreamRequestHead::Http(request) => match authorize(
            services,
            request.version,
            request.service.as_str(),
            request.secret_proof.as_str(),
        ) {
            Err(status) => refuse(status),
            Ok(service) => match protocol::read_body_with_limit(request.body_len, MAX_BODY_LEN) {
                Err(protocol::BodyError::LengthRequired) => {
                    let received: Vec<u8> = Vec::new();
                    (HostStage::Chunks { request, service, received }, HostAction::ReadChunk)
                },
                Err(protocol::BodyError::ExceedsLimit) => refuse(413),
                Ok(len) => (HostStage::Body { request, service }, HostAction::ReadBody(len)),
            },
        },
        StreamRequestHead::Tcp(request) => match authorize(
            services,
            request.version,
            request.service.as_str(),
            request.secret_proof.as_str(),
        ) {
            Err(status) => refuse(status),
            Ok(service) => {
                let target = &services.config.services[service];
                match target.service_type {
                    ServiceType::Http => refuse(501),
                    ServiceType::Tcp => match target.endpoint {
                        Some(address) => (HostStage::Connecting, HostAction::Connect(address)),
                        None => refuse(500),
                    },
                }
            },
        },
    }
}

fn take_body(services: &HostServices, request: LochoRequestHead, service: usize, body: Vec<u8>) -> (out:
    (HostStage, HostAction))
    requires
        service < services.config.services@.len(),
    ensures
        (out.0@, out.1@) == after_body(*services, request@, service as int, body@),
        out.0.valid(*services),
        stays_on_upstream(*services, out.1@),
{
    let target = &services.config.services[service];
    match target.service_type {
        ServiceType::Tcp => refuse(501),
        ServiceType::Http => match &target.upstream {
            None => refuse(500),
            Some(base) => match forward_to_upstream(base, request, body) {
                None => refuse(502),
                Some(request) => (HostStage::Upstream, HostAction::Forward { service, request }),
            },
        },
    }
}

/// Takes what happened on a stream, and gives the next stage and what to do.
pub fn handle_stream(services: &HostServices, stage: HostStage, event: HostEvent) -> (out: (
    HostStage,
    HostAction,
))
    requires
        stage.valid(*services),
    ensures
        (out.0@, out.1@) == reaction(*services, stage@, event),
        out.0.valid(*services),
        stays_on_upstream(*services, out.1@),
{
    match (stage, event) {
        (HostStage::Head, HostEvent::HeadFailed) => refuse(400),
        (HostStage::Head, HostEvent::HeadRead(head)) => take_head(services, head),
        (HostStage::Body { request, service }, HostEvent::BodyFailed) => refuse(400),
        (HostStage::Body { request, service }, HostEvent::BodyRead(body)) => match request.body_len {
            Some(len) if body.len() as u64 == len => take_body(services, request, service, body),
            _ => refuse(400),
        },
        (HostStage::Chunks { request, service, received }, HostEvent::BodyFailed) => refuse(400),
        (HostStage::Chunks { request, service, received }, HostEvent::ChunkRead(chunk)) => {
            if chunk.len() == 0 {
                take_body(services, request, service, received)
            } else if chunk.len() > MAX_BODY_LEN - received.len() {
                refuse(413)
            } else {
                let mut received = received;
                let mut chunk = chunk;
                received.append(&mut chunk);
                (HostStage::Chunks { request, service, received }, HostAction::ReadChunk)
            }
        },
        (HostStage::Upstream, HostEvent::UpstreamFailed { timed_out }) => refuse(
            if timed_out {
                504
            } else {
                502
            },
        ),
        (HostStage::Upstream, HostEvent::UpstreamAnswered { status, headers, body }) => {
            let (head, body) = answer_of_upstream(status, &headers, body);
            (HostStage::Done, HostAction::Answer { head, body })
        },
        (HostStage::Connecting, HostEvent::RelaysFull) => refuse(503),
        (HostStage::Connecting, HostEvent::ConnectFailed { timed_out }) => refuse(
            if timed_out {
                504
            } else {
                502
            },
        ),
        (HostStage::Connecting, HostEvent::Connected) => (
            HostStage::Done,
            HostAction::Relay(protocol::bare_head(200)),
        ),
        _ => (HostStage::Done, HostAction::End),
    }
}

// ---------------------------------------------------------------------------
// Laws of admission
// ---------------------------------------------------------------------------

/// A peer is admitted to a service exactly when it speaks the protocol, the
/// service is configured and has a secret, and the peer holds that secret. It
/// is then served by the service it named.
pub proof fn law_capability_is_scoped(
    services: HostServices,
    version: u8,
    name: Seq<char>,
    presented: Seq<char>,
)
    ensures
        admission(services, version, name, presented) is Ok <==> {
            &&& version == PROTOCOL_VERSION
            &&& config::position(services.config.services@, name) is Some
            &&& services.secrets@.dom().contains(name)
            &&& presented == auth::proof_text(services.secrets@[name])
        },
        admission(services, version, name, presented) matches Ok(i) ==> 0 <= i
            < services.config.services@.len() && services.config.services@[i].name@ == name,
{
    config::lemma_position(services.config.services@, name);
}

/// Whoever holds the secret of a service is served: the body of its request is
/// read next, unless it is announced as too long.
pub proof fn law_holder_is_served(services: HostServices, request: RequestView)
    requires
        request.version == PROTOCOL_VERSION,
        config::position(services.config.services@, request.service) is Some,
        services.secrets@.dom().contains(request.service),
        request.secret_proof == auth::proof_text(services.secrets@[request.service]),
        request.body_len is Some ==> request.body_len->0 <= MAX_BODY_LEN,
    ensures
        after_head(services, StreamRequestView::Http(request)).1 == match request.body_len {
            Some(len) => ActionView::ReadBody(len as usize),
            None => ActionView::ReadChunk,
        },
        ({
            let service = config::position(services.config.services@, request.service)->0;
            after_head(services, StreamRequestView::Http(request)).0 == match request.body_len {
                Some(len) => StageView::Body { request, service },
                None => StageView::Chunks { request, service, received: Seq::empty() },
            }
        }),
{
}

/// The secret of one service does not open another, unless the two secrets
/// have the same proof.
pub proof fn law_other_secrets_are_refused(
    services: HostServices,
    name: Seq<char>,
    other: Seq<char>,
)
    requires
        config::position(services.config.services@, name) is Some,
        services.secrets@.dom().contains(name),
        auth::proof_text(other) != auth::proof_text(services.secrets@[name]),
    ensures
        admission(services, PROTOCOL_VERSION, name, auth::proof_text(other)) == Err::<int, u16>(403),
{
}

/// After a rotation the former secret is refused, unless it has the same proof
/// as the new one, and the new one is admitted. Other services are not
/// affected.
pub proof fn law_rotation_revokes(
    before: HostServices,
    after: HostServices,
    name: Seq<char>,
    fresh: Seq<char>,
    version: u8,
    other: Seq<char>,
    presented: Seq<char>,
)
    requires
        after.config == before.config,
        after.secrets@ == before.secrets@.insert(name, fresh),
        config::position(before.config.services@, name) is Some,
        before.secrets@.dom().contains(name),
        other != name,
    ensures
        admission(after, PROTOCOL_VERSION, name, auth::proof_text(fresh)) is Ok,
        auth::proof_text(before.secrets@[name]) != auth::proof_text(fresh) ==> admission(
            after,
            PROTOCOL_VERSION,
            name,
            auth::proof_text(before.secrets@[name]),
        ) == Err::<int, u16>(403),
        admission(after, version, other, presented) == admission(before, version, other, presented),
{
}

// ---------------------------------------------------------------------------
// Laws of a whole stream
// ---------------------------------------------------------------------------

/// The stage of a stream after some events.
pub open spec fn stage_after(services: HostServices, events: Seq<HostEvent>) -> StageView
    decreases events.len(),
{
    if events.len() == 0 {
        StageView::Head
    } else {
        reaction(services, stage_after(services, events.drop_last()), events.last()).0
    }
}

/// What the host does on the last of some events.
pub open spec fn last_action(services: HostServices, events: Seq<HostEvent>) -> ActionView {
    reaction(services, stage_after(services, events.drop_last()), events.last()).1
}

/// The service that the first event of a stream opened.
pub open spec fn opened_service(services: HostServices, events: Seq<HostEvent>) -> Option<int> {
    match events[0] {
        HostEvent::HeadRead(head) => {
            let admitted = match head@ {
                StreamRequestView::Http(request) => admission(
                    services,
                    request.version,
                    request.service,
                    request.secret_proof,
                ),
                StreamRequestView::Tcp(request) => admission(
                    services,
                    request.version,
                    request.service,
                    request.secret_proof,
                ),
            };
            match admitted {
                Ok(service) => Some(service),
                Err(_) => None,
            }
        },
        _ => None,
    }
}

/// The length of the body that the first event of a stream announced.
pub open spec fn announced_len(events: Seq<HostEvent>) -> Option<u64> {
    match events[0] {
        HostEvent::HeadRead(head) => match head@ {
            StreamRequestView::Http(request) => request.body_len,
            StreamRequestView::Tcp(request) => None,
        },
        _ => None,
    }
}

/// The bytes of the body that came in with some events.
pub open spec fn body_received(events: Seq<HostEvent>) -> Seq<u8>
    decreases events.len(),
{
    if events.len() == 0 {
        Seq::empty()
    } else {
        let before = body_received(events.drop_last());
        match events.last() {
            HostEvent::BodyRead(body) => before + body@,
            HostEvent::ChunkRead(chunk) => before + chunk@,
            _ => before,
        }
    }
}

spec fn stage_is_earned(services: HostServices, events: Seq<HostEvent>) -> bool {
    match stage_after(services, events) {
        StageView::Head => events.len() == 0,
        StageView::Body { request, service } => {
            &&& events.len() > 0
            &&& opened_service(services, events) == Some(service)
            &&& body_received(events) =~= Seq::<u8>::empty()
            &&& request.body_len == announced_len(events)
            &&& request.body_len is Some
            &&& request.body_len->0 <= MAX_BODY_LEN
        },
        StageView::Chunks { request, service, received } => {
            &&& events.len() > 0
            &&& opened_service(services, events) == Some(service)
            &&& body_received(events) =~= received
            &&& announced_len(events) is None
            &&& received.len() <= MAX_BODY_LEN
        },
        StageView::Upstream | StageView::Connecting => {
            &&& events.len() > 0
            &&& opened_service(services, events) is Some
        },
        StageView::Done => events.len() > 0,
    }
}

proof fn lemma_stage_is_earned(services: HostServices, events: Seq<HostEvent>)
    ensures
        stage_is_earned(services, events),
    decreases events.len(),
{
    if events.len() > 0 {
        let front = events.drop_last();
        lemma_stage_is_earned(services, front);
        if front.len() > 0 {
            assert(front[0] == events[0]);
        } else {
            assert(events.last() == events[0]);
            assert(body_received(front) =~= Seq::<u8>::empty());
        }
    }
}

/// Until a peer has proved that it holds the secret of a service, the host
/// does nothing but refuse it: it reads no body, sends nothing upstream, and
/// connects nowhere. From then on it uses that service alone.
pub proof fn law_only_the_holder_is_served(services: HostServices, events: Seq<HostEvent>)
    requires
        events.len() > 0,
    ensures
        match last_action(services, events) {
            ActionView::ReadBody(_) | ActionView::ReadChunk | ActionView::Relay(_) => opened_service(
                services,
                events,
            ) is Some,
            ActionView::Forward { service, request } => opened_service(services, events) == Some(
                service,
            ),
            ActionView::Connect(address) => opened_service(services, events) matches Some(service)
                && services.config.services@[service].endpoint == Some(address),
            ActionView::Answer { head, body } => true,
            ActionView::End => true,
        },
{
    let front = events.drop_last();
    lemma_stage_is_earned(services, front);
    lemma_stage_is_earned(services, events);
    if front.len() > 0 {
        assert(front[0] == events[0]);
    } else {
        assert(events.last() == events[0]);
    }
}

/// What goes upstream carries the body that came in, whole and in order.
pub proof fn law_body_is_forwarded_whole(services: HostServices, events: Seq<HostEvent>)
    requires
        events.len() > 0,
    ensures
        last_action(services, events) matches ActionView::Forward { service, request }
            ==> request.body == body_received(events),
{
    let front = events.drop_last();
    lemma_stage_is_earned(services, front);
    if let ActionView::Forward { service, request } = last_action(services, events) {
        assert(request.body =~= body_received(events));
    }
}

/// No body is longer than is allowed: none that is read, none that goes
/// upstream, and none that is answered. A body that goes upstream has the
/// length that its request announced, if it announced one, and an answer
/// announces the length that its body has.
pub proof fn law_bodies_are_bounded(services: HostServices, events: Seq<HostEvent>)
    requires
        events.len() > 0,
    ensures
        match last_action(services, events) {
            ActionView::ReadBody(len) => len <= MAX_BODY_LEN,
            ActionView::Forward { service, request } => request.body.len() <= MAX_BODY_LEN && (
            announced_len(events) matches Some(len) ==> request.body.len() == len),
            ActionView::Answer { head, body } => body.len() <= MAX_BODY_LEN && head.body_len
                == Some(body.len() as u64),
            _ => true,
        },
{
    let front = events.drop_last();
    lemma_stage_is_earned(services, front);
    if front.len() > 0 {
        assert(front[0] == events[0]);
    }
}

/// Whether an action is the last of a stream.
pub open spec fn concludes(action: ActionView) -> bool {
    action is Answer || action is Relay || action is End
}

proof fn lemma_done_stays(services: HostServices, events: Seq<HostEvent>, i: int)
    requires
        0 <= i <= events.len(),
        stage_after(services, events.take(i)) is Done,
    ensures
        stage_after(services, events) is Done,
    decreases events.len() - i,
{
    if i < events.len() {
        assert(events.take(i + 1).drop_last() =~= events.take(i));
        lemma_done_stays(services, events, i + 1);
    } else {
        assert(events.take(i) =~= events);
    }
}

/// A stream is answered at most once: once the host answered, nothing that
/// happens on it makes the host do anything more.
pub proof fn law_one_answer(services: HostServices, events: Seq<HostEvent>, i: int, j: int)
    requires
        0 < i < j <= events.len(),
        concludes(last_action(services, events.take(i))),
    ensures
        last_action(services, events.take(j)) is End,
{
    let first = events.take(i);
    let before = events.take(j - 1);
    assert(stage_after(services, first) is Done);
    assert(before.take(i) =~= first);
    lemma_done_stays(services, before, i);
    assert(events.take(j).drop_last() =~= before);
}

/// What is refused is answered with the status alone.
pub proof fn law_refusals_are_bare(services: HostServices, stage: StageView, event: HostEvent)
    requires
        !(event is UpstreamAnswered),
    ensures
        reaction(services, stage, event).1 matches ActionView::Answer { head, body } ==> body.len()
            == 0 && head.headers.len() == 0 && head.body_len == Some(0u64) && head.version
            == PROTOCOL_VERSION && head.status >= 400,
{
}

// ---------------------------------------------------------------------------
// Laws of single events
// ---------------------------------------------------------------------------

/// Whatever its status, the answer of an upstream passes: the peer is answered
/// with that status, with the headers that cross the tunnel, and with that
/// very body, whose length is announced. Only a body that is too long is
/// replaced by a bare 502.
pub proof fn law_upstream_answer_passes(
    services: HostServices,
    status: u16,
    headers: HeaderMap<HeaderValue>,
    body: Vec<u8>,
)
    ensures
        ({
            let event = HostEvent::UpstreamAnswered { status, headers, body };
            let (stage, action) = reaction(services, StageView::Upstream, event);
            let entries = http_utils::header_entries(headers);
            &&& stage is Done
            &&& action matches ActionView::Answer { head, body: sent }
            &&& head.version == 2
            &&& body@.len() <= MAX_BODY_LEN ==> {
                &&& sent == body@
                &&& head.status == status
                &&& head.body_len == Some(body@.len() as u64)
                &&& http_utils::plain_entries(head.headers) == entries.filter(
                    |e: http_utils::Entry| http_utils::crosses(entries, e),
                )
            }
            &&& body@.len() > MAX_BODY_LEN ==> {
                &&& sent.len() == 0
                &&& head.status == 502
                &&& head.body_len == Some(0u64)
                &&& head.headers.len() == 0
            }
        }),
{
    let entries = http_utils::header_entries(headers);
    http_utils::law_crossing_order(entries);
}

/// A peer that speaks another version is refused with 400, one that asks for a
/// service that is not there with 404, and one that does not hold the secret of
/// the service with 403.
pub proof fn law_refused_peers(
    services: HostServices,
    version: u8,
    name: Seq<char>,
    presented: Seq<char>,
)
    ensures
        ({
            let out = admission(services, version, name, presented);
            let there = exists|i: int|
                0 <= i < services.config.services@.len() && (
                #[trigger] services.config.services@[i]).name@ == name;
            let holds = services.secrets@.dom().contains(name) && presented == auth::proof_text(
                services.secrets@[name],
            );
            &&& out == Err::<int, u16>(400) <==> version != 2
            &&& out == Err::<int, u16>(404) <==> version == 2 && !there
            &&& out == Err::<int, u16>(403) <==> version == 2 && there && !holds
            &&& out is Ok <==> version == 2 && there && holds
            &&& out matches Ok(i) ==> 0 <= i < services.config.services@.len()
                && services.config.services@[i].name@ == name && forall|j: int|
                0 <= j < i ==> (#[trigger] services.config.services@[j]).name@ != name
        }),
{
    config::lemma_position(services.config.services@, name);
}

/// A peer that is refused is answered with the status of the refusal at once,
/// whatever it asks for.
pub proof fn law_refused_head(services: HostServices, head: StreamRequestHead)
    ensures
        ({
            let (version, name, presented) = match head@ {
                StreamRequestView::Http(request) => (
                    request.version,
                    request.service,
                    request.secret_proof,
                ),
                StreamRequestView::Tcp(request) => (
                    request.version,
                    request.service,
                    request.secret_proof,
                ),
            };
            admission(services, version, name, presented) matches Err(status) ==> answers(
                reaction(services, StageView::Head, HostEvent::HeadRead(head)),
                status,
            )
        }),
{
}

/// Whether a stream ends with that status alone.
pub open spec fn answers(out: (StageView, ActionView), status: u16) -> bool {
    &&& out.0 is Done
    &&& out.1 matches ActionView::Answer { head, body }
    &&& head.version == 2
    &&& head.status == status
    &&& head.headers.len() == 0
    &&& head.body_len == Some(0u64)
    &&& body.len() == 0
}

/// A head or a body that cannot be read is answered with 400, and a body that
/// is announced as too long, or becomes too long, with 413.
pub proof fn law_unreadable_requests(
    services: HostServices,
    request: RequestView,
    service: int,
    received: Seq<u8>,
    chunk: Vec<u8>,
)
    ensures
        answers(reaction(services, StageView::Head, HostEvent::HeadFailed), 400),
        answers(
            reaction(services, StageView::Body { request, service }, HostEvent::BodyFailed),
            400,
        ),
        answers(
            reaction(
                services,
                StageView::Chunks { request, service, received },
                HostEvent::BodyFailed,
            ),
            400,
        ),
        request.body_len != Some(chunk@.len() as u64) ==> answers(
            reaction(services, StageView::Body { request, service }, HostEvent::BodyRead(chunk)),
            400,
        ),
        chunk@.len() > 0 && received.len() + chunk@.len() > MAX_BODY_LEN ==> answers(
            reaction(
                services,
                StageView::Chunks { request, service, received },
                HostEvent::ChunkRead(chunk),
            ),
            413,
        ),
        admission(services, request.version, request.service, request.secret_proof) is Ok
            && request.body_len is Some && request.body_len->0 > MAX_BODY_LEN ==> answers(
            after_head(services, StreamRequestView::Http(request)),
            413,
        ),
{
}

/// A chunk with content is put behind what was received, and the next one is
/// read, while the body is not too long.
pub proof fn law_chunks_are_gathered(
    services: HostServices,
    request: RequestView,
    service: int,
    received: Seq<u8>,
    chunk: Vec<u8>,
)
    requires
        chunk@.len() > 0,
        received.len() + chunk@.len() <= MAX_BODY_LEN,
    ensures
        ({
            let stage = StageView::Chunks { request, service, received };
            reaction(services, stage, HostEvent::ChunkRead(chunk)) == (
                StageView::Chunks { request, service, received: received + chunk@ },
                ActionView::ReadChunk,
            )
        }),
{
}

/// Whether a request with that body is carried to its service: to the upstream
/// of the service, with the method and the body as they are, on the URL that
/// the target denotes there, and with the end-to-end headers.
pub open spec fn carries(
    services: HostServices,
    request: RequestView,
    service: int,
    body: Seq<u8>,
    out: (StageView, ActionView),
) -> bool {
    let target = services.config.services@[service];
    let base = target.upstream->0@;
    let path = request.path_and_query;
    let url = upstream::joined_url(base.source, path);
    let sendable = {
        &&& encode_utf8(base.source).len() + encode_utf8(path).len() <= upstream::MAX_URL_LEN
        &&& path.len() > 0 && path[0] == '/' && !path.contains('\\')
        &&& request.method.len() > 0 && http_utils::token_text(request.method)
        &&& url is Some
    };
    &&& target.service_type == ServiceType::Tcp ==> answers(out, 501)
    &&& target.service_type == ServiceType::Http && target.upstream is None ==> answers(out, 500)
    &&& target.service_type == ServiceType::Http && target.upstream is Some && !sendable
        ==> answers(out, 502)
    &&& target.service_type == ServiceType::Http && target.upstream is Some && sendable ==> {
        &&& out.0 is Upstream
        &&& out.1 matches ActionView::Forward { service: index, request: sent }
        &&& index == service
        &&& sent.method == request.method
        &&& sent.body == body
        &&& sent.url.source == base.source
        &&& sent.url.target == Some(path)
        &&& sent.url.url == url->0
        &&& sent.headers == http_utils::upstream_pairs(request.headers)
    }
}

/// A request is carried to its service once its body is complete, whether the
/// body has a known length or came in chunks. One that cannot be forwarded is
/// answered with 502, one to a TCP service with 501, and one to a service
/// without an upstream with 500.
pub proof fn law_complete_request(
    services: HostServices,
    request: RequestView,
    service: int,
    received: Seq<u8>,
    read: Vec<u8>,
    end: Vec<u8>,
)
    requires
        end@.len() == 0,
    ensures
        read@.len() <= MAX_BODY_LEN && request.body_len == Some(read@.len() as u64) ==> carries(
            services,
            request,
            service,
            read@,
            reaction(services, StageView::Body { request, service }, HostEvent::BodyRead(read)),
        ),
        carries(
            services,
            request,
            service,
            received,
            reaction(
                services,
                StageView::Chunks { request, service, received },
                HostEvent::ChunkRead(end),
            ),
        ),
{
}

/// An upstream that does not answer in time is answered for with 504, and one
/// that fails with 502; so it is with the endpoint of a TCP service. A host
/// that relays all the connections that it may answers 503.
pub proof fn law_failed_targets(services: HostServices)
    ensures
        answers(
            reaction(
                services,
                StageView::Upstream,
                HostEvent::UpstreamFailed { timed_out: true },
            ),
            504,
        ),
        answers(
            reaction(
                services,
                StageView::Upstream,
                HostEvent::UpstreamFailed { timed_out: false },
            ),
            502,
        ),
        answers(
            reaction(
                services,
                StageView::Connecting,
                HostEvent::ConnectFailed { timed_out: true },
            ),
            504,
        ),
        answers(
            reaction(
                services,
                StageView::Connecting,
                HostEvent::ConnectFailed { timed_out: false },
            ),
            502,
        ),
        answers(reaction(services, StageView::Connecting, HostEvent::RelaysFull), 503),
{
}

/// Whoever holds the secret of a TCP service is connected to its endpoint, and
/// is then answered 200 and relayed. At an HTTP service it is answered 501, and
/// at a service without an endpoint 500.
pub proof fn law_tcp_stream_reaches_its_endpoint(services: HostServices, head: StreamRequestHead)
    requires
        head is Tcp,
        head->Tcp_0.version == PROTOCOL_VERSION,
        config::position(services.config.services@, head->Tcp_0.service@) is Some,
        services.secrets@.dom().contains(head->Tcp_0.service@),
        head->Tcp_0.secret_proof@ == auth::proof_text(services.secrets@[head->Tcp_0.service@]),
    ensures
        ({
            let index = config::position(services.config.services@, head->Tcp_0.service@)->0;
            let target = services.config.services@[index];
            let out = reaction(services, StageView::Head, HostEvent::HeadRead(head));
            let connected = reaction(services, StageView::Connecting, HostEvent::Connected);
            &&& target.name@ == head->Tcp_0.service@
            &&& target.service_type == ServiceType::Http ==> answers(out, 501)
            &&& target.service_type == ServiceType::Tcp && target.endpoint is None ==> answers(
                out,
                500,
            )
            &&& target.service_type == ServiceType::Tcp && target.endpoint is Some ==> out == (
                StageView::Connecting,
                ActionView::Connect(target.endpoint->0),
            )
            &&& connected.0 is Done
            &&& connected.1 matches ActionView::Relay(answer)
            &&& answer.version == 2
            &&& answer.status == 200
            &&& answer.headers.len() == 0
            &&& answer.body_len == Some(0u64)
        }),
{
    config::lemma_position(services.config.services@, head->Tcp_0.service@);
}

/// What cannot happen at a stage ends the stream without an answer.
pub proof fn law_unexpected_events_end_the_stream(
    services: HostServices,
    stage: StageView,
    event: HostEvent,
)
    requires
        match stage {
            StageView::Head => !(event is HeadFailed) && !(event is HeadRead),
            StageView::Body { request, service } => !(event is BodyFailed) && !(event is BodyRead),
            StageView::Chunks { request, service, received } => !(event is BodyFailed) && !(
            event is ChunkRead),
            StageView::Upstream => !(event is UpstreamFailed) && !(event is UpstreamAnswered),
            StageView::Connecting => !(event is RelaysFull) && !(event is ConnectFailed) && !(
            event is Connected),
            StageView::Done => true,
        },
    ensures
        reaction(services, stage, event) == (StageView::Done, ActionView::End),
{
}

} // verus!
