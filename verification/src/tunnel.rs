//! The two ends of the tunnel together: what an attachment sends is what goes
//! upstream, and what the upstream answers is what the local client gets.

use crate::attach::{self, Download, ExchangeView, HttpActionView, HttpEvent, HttpStage};
use crate::auth;
use crate::config::{self, ServiceType};
use crate::host::{self, ActionView, HostEvent, HostServices, StageView};
use crate::http_utils;
use crate::protocol::{
    self, LochoResponseHead, ReadStep, RequestView, ResponseView, StreamRequestView,
    BODY_CHUNK_LEN, MAX_BODY_LEN, PREFIX_LEN, PROTOCOL_VERSION,
};
use http::{HeaderMap, HeaderValue};
use vstd::prelude::*;

verus! {

// ---------------------------------------------------------------------------
// Chunks
// ---------------------------------------------------------------------------

/// The chunks that a reader gets from a stream, up to the empty one that ends
/// a body. Nothing if the stream ends early or a chunk is too long.
pub open spec fn chunks_of(stream: Seq<u8>) -> Option<Seq<Seq<u8>>>
    decreases stream.len(),
{
    match protocol::next_read(stream, BODY_CHUNK_LEN as nat) {
        Some(ReadStep::Done(n)) => {
            let rest = stream.skip(PREFIX_LEN + n);
            if n == 0 {
                Some(Seq::empty())
            } else {
                match chunks_of(rest) {
                    Some(chunks) => Some(
                        seq![stream.subrange(PREFIX_LEN as int, PREFIX_LEN + n)] + chunks,
                    ),
                    None => None,
                }
            }
        },
        _ => None,
    }
}

/// The chunks of a stream make up its body, and none of them is empty.
pub proof fn law_chunks_make_up_the_body(stream: Seq<u8>)
    ensures
        protocol::body_of_chunks(stream) is Some <==> chunks_of(stream) is Some,
        protocol::body_of_chunks(stream) matches Some((body, behind)) ==> protocol::whole_body(
            chunks_of(stream)->0,
        ) == body,
        chunks_of(stream) matches Some(chunks) ==> forall|i: int|
            0 <= i < chunks.len() ==> (#[trigger] chunks[i]).len() > 0,
    decreases stream.len(),
{
    match protocol::next_read(stream, BODY_CHUNK_LEN as nat) {
        Some(ReadStep::Done(n)) => {
            let rest = stream.skip(PREFIX_LEN + n);
            if n > 0 {
                law_chunks_make_up_the_body(rest);
                if let Some(chunks) = chunks_of(rest) {
                    let first = stream.subrange(PREFIX_LEN as int, PREFIX_LEN + n);
                    let all = seq![first] + chunks;
                    assert(all.first() == first);
                    assert(all.drop_first() =~= chunks);
                }
            }
        },
        _ => {},
    }
}

proof fn lemma_whole_body_grows(pieces: Seq<Seq<u8>>, k: int)
    requires
        0 <= k < pieces.len(),
    ensures
        protocol::whole_body(pieces.take(k + 1)) == protocol::whole_body(pieces.take(k))
            + pieces[k],
        protocol::whole_body(pieces.take(k + 1)).len() <= protocol::whole_body(pieces).len(),
    decreases pieces.len(),
{
    let rest = pieces.drop_first();
    if k == 0 {
        assert(pieces.take(1).first() == pieces[0]);
        assert(pieces.take(1).drop_first() =~= Seq::empty());
        assert(pieces.take(0) =~= Seq::empty());
        assert(protocol::whole_body(pieces.take(1).drop_first()) =~= Seq::empty());
        assert(protocol::whole_body(pieces.take(0)) =~= Seq::empty());
        assert(protocol::whole_body(pieces.take(1)) =~= pieces[0]);
        assert(protocol::whole_body(pieces.take(0)) + pieces[0] =~= pieces[0]);
    } else {
        lemma_whole_body_grows(rest, k - 1);
        assert(pieces.take(k + 1).drop_first() =~= rest.take(k));
        assert(pieces.take(k).drop_first() =~= rest.take(k - 1));
        assert(pieces.take(k + 1).first() == pieces.first());
        assert(pieces.take(k).first() == pieces.first());
        assert(protocol::whole_body(pieces.take(k + 1)) =~= protocol::whole_body(pieces.take(k))
            + pieces[k]);
    }
}

// ---------------------------------------------------------------------------
// Requests
// ---------------------------------------------------------------------------

/// Whether a host sees a stream with that head whose body comes in these
/// chunks, the empty one that ends it included.
pub open spec fn sees_chunks(
    events: Seq<HostEvent>,
    request: RequestView,
    chunks: Seq<Seq<u8>>,
) -> bool {
    &&& events.len() == chunks.len() + 2
    &&& events[0] matches HostEvent::HeadRead(head) && head@ == StreamRequestView::Http(request)
    &&& forall|i: int|
        1 <= i <= chunks.len() ==> (#[trigger] events[i] matches HostEvent::ChunkRead(chunk)
            && chunk@ == chunks[i - 1])
    &&& events.last() matches HostEvent::ChunkRead(chunk) && chunk@.len() == 0
}

proof fn lemma_chunks_are_gathered(
    services: HostServices,
    events: Seq<HostEvent>,
    request: RequestView,
    service: int,
    chunks: Seq<Seq<u8>>,
    k: int,
)
    requires
        sees_chunks(events, request, chunks),
        host::admission(services, request.version, request.service, request.secret_proof) == Ok::<
            int,
            u16,
        >(service),
        request.body_len is None,
        protocol::whole_body(chunks).len() <= MAX_BODY_LEN,
        forall|i: int| 0 <= i < chunks.len() ==> (#[trigger] chunks[i]).len() > 0,
        0 <= k <= chunks.len(),
    ensures
        host::stage_after(services, events.take(k + 1)) == (StageView::Chunks {
            request,
            service,
            received: protocol::whole_body(chunks.take(k)),
        }),
    decreases k,
{
    let seen = events.take(k + 1);
    if k == 0 {
        assert(seen.drop_last() =~= Seq::empty());
        assert(host::stage_after(services, seen.drop_last()) is Head);
        assert(seen.last() == events[0]);
        assert(chunks.take(0) =~= Seq::empty());
        assert(protocol::whole_body(chunks.take(0)) =~= Seq::empty());
    } else {
        lemma_chunks_are_gathered(services, events, request, service, chunks, k - 1);
        lemma_whole_body_grows(chunks, k - 1);
        assert(seen.drop_last() =~= events.take(k));
        assert(seen.last() == events[k]);
        assert(chunks[k - 1].len() > 0);
    }
}

/// What a host does with a request once its chunked body is complete is what
/// it does with the whole body.
pub proof fn law_chunked_request_is_whole(
    services: HostServices,
    events: Seq<HostEvent>,
    request: RequestView,
    service: int,
    chunks: Seq<Seq<u8>>,
)
    requires
        sees_chunks(events, request, chunks),
        host::admission(services, request.version, request.service, request.secret_proof) == Ok::<
            int,
            u16,
        >(service),
        request.body_len is None,
        protocol::whole_body(chunks).len() <= MAX_BODY_LEN,
        forall|i: int| 0 <= i < chunks.len() ==> (#[trigger] chunks[i]).len() > 0,
    ensures
        host::last_action(services, events) == host::after_body(
            services,
            request,
            service,
            protocol::whole_body(chunks),
        ).1,
{
    lemma_chunks_are_gathered(services, events, request, service, chunks, chunks.len() as int);
    assert(events.drop_last() =~= events.take((chunks.len() + 1) as int));
    assert(chunks.take(chunks.len() as int) =~= chunks);
}

/// Whether a host sees a stream with that head and that body of declared
/// length.
pub open spec fn sees_body(events: Seq<HostEvent>, request: RequestView, body: Seq<u8>) -> bool {
    &&& events.len() == 2
    &&& events[0] matches HostEvent::HeadRead(head) && head@ == StreamRequestView::Http(request)
    &&& events[1] matches HostEvent::BodyRead(read) && read@ == body
}

/// What a local client sends is what goes upstream. The attachment took the
/// request body in pieces, in whatever sizes they came, and wrote it to the
/// stream; the host read it back from there and had it forwarded whole, to the
/// service whose secret the attachment holds.
pub proof fn law_request_reaches_upstream(
    services: HostServices,
    request: RequestView,
    service: int,
    sent: Seq<HttpEvent>,
    behind: Seq<u8>,
    seen: Seq<HostEvent>,
)
    requires
        request.version == PROTOCOL_VERSION,
        config::position(services.config.services@, request.service) == Some(service),
        services.secrets@.dom().contains(request.service),
        request.secret_proof == auth::proof_text(services.secrets@[request.service]),
        services.config.services@[service].service_type == ServiceType::Http,
        services.config.services@[service].upstream is Some,
        attach::exchange_after(request.body_len, sent).stage is AwaitingHead,
        ({
            let stream = attach::written_bytes(request.body_len, sent) + behind;
            match request.body_len {
                Some(len) => sees_body(seen, request, stream.take(len as int)),
                None => chunks_of(stream) matches Some(chunks) && sees_chunks(
                    seen,
                    request,
                    chunks,
                ),
            }
        }),
    ensures
        ({
            let body = protocol::whole_body(attach::pieces_taken(request.body_len, sent));
            let base = services.config.services@[service].upstream->0@;
            host::last_action(services, seen) == match host::forwarded(base, request, body) {
                Some(request) => ActionView::Forward { service, request },
                None => host::refusal(502).1,
            }
        }),
{
    let bytes = attach::written_bytes(request.body_len, sent);
    let stream = bytes + behind;
    let body = protocol::whole_body(attach::pieces_taken(request.body_len, sent));
    attach::law_body_is_sent_whole(request.body_len, sent, behind);
    match request.body_len {
        Some(len) => {
            assert(stream.take(len as int) =~= body);
            assert(seen.drop_last().drop_last() =~= Seq::empty());
            assert(host::stage_after(services, seen.drop_last().drop_last()) is Head);
            assert(seen.drop_last().last() == seen[0]);
            assert(host::stage_after(services, seen.drop_last()) == (StageView::Body {
                request,
                service,
            }));
            assert(seen.last() == seen[1]);
        },
        None => {
            law_chunks_make_up_the_body(stream);
            law_chunked_request_is_whole(services, seen, request, service, chunks_of(stream)->0);
        },
    }
}

// ---------------------------------------------------------------------------
// Answers
// ---------------------------------------------------------------------------

/// What an upstream answers is what the local client gets: the same status, a
/// body of the same length, and the headers that cross the tunnel, with the
/// values that they had upstream. The headers are those of a header map, whose
/// names are header names; as many names as are always taken are never
/// refused.
pub proof fn law_answer_reaches_client(
    status: u16,
    headers: Seq<http_utils::Entry>,
    body: Seq<u8>,
    exchange: ExchangeView,
)
    requires
        100 <= status <= 999,
        body.len() <= MAX_BODY_LEN,
        http_utils::in_map_order(headers),
        http_utils::well_named(http_utils::crossing(headers, headers)),
        exchange.stage == HttpStage::AwaitingHead,
    ensures
        ({
            let given = http_utils::crossing_entries(headers, headers);
            let (head, sent) = host::upstream_answer(status, headers, body);
            &&& sent == body
            &&& exchange.with_answer(head).1 == (HttpActionView::Respond {
                status,
                headers: http_utils::crossing(headers, headers),
                body_len: Some(body.len() as u64),
            })
            &&& http_utils::end_to_end(http_utils::map_of(head.headers)) == given
            &&& http_utils::names_of(given).len() <= http_utils::SAFE_HEADER_NAMES
                ==> http_utils::valid_names(head.headers).len() <= http_utils::SAFE_HEADER_NAMES
            &&& attach::total_read(Download::announced(head.body_len)) == body.len()
        }),
{
    attach::law_download_reads_the_length(body.len() as u64);
    http_utils::law_client_gets_what_crossed(headers);
}

/// A refusal of the host reaches the local client as it is.
pub proof fn law_refusal_reaches_client(status: u16, exchange: ExchangeView)
    requires
        100 <= status <= 999,
        exchange.stage == HttpStage::AwaitingHead,
    ensures
        ({
            let head: ResponseView = protocol::bare_response(status);
            exchange.with_answer(head).1 == (HttpActionView::Respond {
                status,
                headers: Seq::empty(),
                body_len: Some(0),
            })
        }),
{
}

/// What a host answers for its upstream is what the local client gets, whatever
/// the status: that status, that very body, whose length is announced, and the
/// headers of the upstream that cross the tunnel, with their values and in
/// their order.
pub proof fn law_upstream_answer_reaches_client(
    services: HostServices,
    status: u16,
    headers: HeaderMap<HeaderValue>,
    body: Vec<u8>,
    head: LochoResponseHead,
    sent: Seq<u8>,
    exchange: ExchangeView,
)
    requires
        100 <= status <= 999,
        body@.len() <= MAX_BODY_LEN,
        http_utils::in_map_order(http_utils::header_entries(headers)),
        http_utils::well_named(
            http_utils::crossing(
                http_utils::header_entries(headers),
                http_utils::header_entries(headers),
            ),
        ),
        exchange.stage == HttpStage::AwaitingHead,
        host::reaction(
            services,
            StageView::Upstream,
            HostEvent::UpstreamAnswered { status, headers, body },
        ).1 == (ActionView::Answer { head: head@, body: sent }),
    ensures
        ({
            let entries = http_utils::header_entries(headers);
            &&& sent == body@
            &&& exchange.after(HttpEvent::HeadRead(head)).1 matches HttpActionView::Respond {
                status: given,
                headers: pairs,
                body_len,
            }
            &&& given == status
            &&& body_len == Some(body@.len() as u64)
            &&& http_utils::end_to_end(http_utils::map_of(pairs)) == entries.filter(
                |e: http_utils::Entry| http_utils::crosses(entries, e),
            )
        }),
{
    let entries = http_utils::header_entries(headers);
    host::law_upstream_answer_passes(services, status, headers, body);
    http_utils::law_client_gets_what_crossed(entries);
}

} // verus!
