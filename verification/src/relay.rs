//! The relay between two byte streams.
//!
//! The relay passes bytes both ways. When one stream ends, the other is told
//! that no more will come and may still send. The relay is over when both
//! have ended, or when nothing was passed for too long.

use crate::protocol::TCP_IDLE_TIMEOUT;
use vstd::prelude::*;

verus! {

/// A relay. Times are in milliseconds, from any fixed point on.
#[derive(Debug, Clone, Copy, PartialEq, Eq, Structural)]
pub struct Relay {
    /// The first stream may still send.
    pub first_open: bool,
    /// The second stream may still send.
    pub second_open: bool,
    /// Bytes are being written to one of the streams.
    pub writing: bool,
    /// When bytes were last passed, or else when the relay started.
    pub idle_since: u64,
    /// Nothing was passed for too long.
    pub timed_out: bool,
}

/// What happened to a relay.
#[derive(Debug, PartialEq, Eq)]
pub enum RelayEvent {
    /// The first stream gave these bytes; none means that it ended.
    FirstRead(Vec<u8>),
    /// The second stream gave these bytes; none means that it ended.
    SecondRead(Vec<u8>),
    /// The bytes are written.
    Written { now: u64 },
    /// Time passed while nothing came.
    Tick { now: u64 },
}

/// The content of an event.
pub enum RelayEventView {
    FirstRead(Seq<u8>),
    SecondRead(Seq<u8>),
    Written { now: u64 },
    Tick { now: u64 },
}

impl View for RelayEvent {
    type V = RelayEventView;

    open spec fn view(&self) -> RelayEventView {
        match self {
            RelayEvent::FirstRead(bytes) => RelayEventView::FirstRead(bytes@),
            RelayEvent::SecondRead(bytes) => RelayEventView::SecondRead(bytes@),
            RelayEvent::Written { now } => RelayEventView::Written { now: *now },
            RelayEvent::Tick { now } => RelayEventView::Tick { now: *now },
        }
    }
}

/// What a relay does about it.
#[derive(Debug, PartialEq, Eq)]
pub enum RelayAction {
    /// Write the bytes to the second stream.
    WriteSecond(Vec<u8>),
    /// Tell the second stream that no more will come.
    ShutdownSecond,
    /// Write the bytes to the first stream.
    WriteFirst(Vec<u8>),
    /// Tell the first stream that no more will come.
    ShutdownFirst,
    /// Wait for either stream.
    Wait,
    /// Give up: the tunnel was idle for too long.
    IdleTimeout,
}

/// The content of an action.
pub enum RelayActionView {
    WriteSecond(Seq<u8>),
    ShutdownSecond,
    WriteFirst(Seq<u8>),
    ShutdownFirst,
    Wait,
    IdleTimeout,
}

impl View for RelayAction {
    type V = RelayActionView;

    open spec fn view(&self) -> RelayActionView {
        match self {
            RelayAction::WriteSecond(bytes) => RelayActionView::WriteSecond(bytes@),
            RelayAction::ShutdownSecond => RelayActionView::ShutdownSecond,
            RelayAction::WriteFirst(bytes) => RelayActionView::WriteFirst(bytes@),
            RelayAction::ShutdownFirst => RelayActionView::ShutdownFirst,
            RelayAction::Wait => RelayActionView::Wait,
            RelayAction::IdleTimeout => RelayActionView::IdleTimeout,
        }
    }
}

impl Relay {
    /// A relay that starts at that time: both streams may send.
    pub open spec fn start(now: u64) -> Relay {
        Relay {
            first_open: true,
            second_open: true,
            writing: false,
            idle_since: now,
            timed_out: false,
        }
    }

    /// Whether the relay goes on.
    pub open spec fn running(self) -> bool {
        (self.first_open || self.second_open) && !self.timed_out
    }

    /// Whether nothing was passed for the idle time.
    pub open spec fn idle(self, now: u64) -> bool {
        now >= self.idle_since + TCP_IDLE_TIMEOUT
    }

    /// Whether the event can come: a stream that ended is not read again, and
    /// while bytes are written nothing else happens.
    pub open spec fn expects(self, event: RelayEventView) -> bool {
        self.running() && match event {
            RelayEventView::FirstRead(_) => self.first_open && !self.writing,
            RelayEventView::SecondRead(_) => self.second_open && !self.writing,
            RelayEventView::Written { now } => self.writing,
            RelayEventView::Tick { now } => !self.writing,
        }
    }

    /// The relay after an event.
    pub open spec fn after(self, event: RelayEventView) -> Relay {
        match event {
            RelayEventView::FirstRead(bytes) => if bytes.len() == 0 {
                Relay { first_open: false, ..self }
            } else {
                Relay { writing: true, ..self }
            },
            RelayEventView::SecondRead(bytes) => if bytes.len() == 0 {
                Relay { second_open: false, ..self }
            } else {
                Relay { writing: true, ..self }
            },
            RelayEventView::Written { now } => Relay { writing: false, idle_since: now, ..self },
            RelayEventView::Tick { now } => Relay { timed_out: self.idle(now), ..self },
        }
    }

    /// What the relay does about an event.
    pub open spec fn reaction(self, event: RelayEventView) -> RelayActionView {
        match event {
            RelayEventView::FirstRead(bytes) => if bytes.len() == 0 {
                RelayActionView::ShutdownSecond
            } else {
                RelayActionView::WriteSecond(bytes)
            },
            RelayEventView::SecondRead(bytes) => if bytes.len() == 0 {
                RelayActionView::ShutdownFirst
            } else {
                RelayActionView::WriteFirst(bytes)
            },
            RelayEventView::Written { now } => RelayActionView::Wait,
            RelayEventView::Tick { now } => if self.idle(now) {
                RelayActionView::IdleTimeout
            } else {
                RelayActionView::Wait
            },
        }
    }

    /// A relay that starts at that time.
    pub fn new(now: u64) -> (out: Relay)
        ensures
            out == Relay::start(now),
    {
        Relay {
            first_open: true,
            second_open: true,
            writing: false,
            idle_since: now,
            timed_out: false,
        }
    }

    /// Whether the relay goes on.
    pub fn is_running(&self) -> (r: bool)
        ensures
            r == self.running(),
    {
        (self.first_open || self.second_open) && !self.timed_out
    }

    /// How long to wait for either stream. A clock that went back has not
    /// used up any of the idle time.
    pub fn idle_left(&self, now: u64) -> (left: u64)
        ensures
            left == 0 <==> self.idle(now),
            now >= self.idle_since && !self.idle(now) ==> now + left == self.idle_since
                + TCP_IDLE_TIMEOUT,
            now < self.idle_since ==> left == TCP_IDLE_TIMEOUT,
    {
        if now < self.idle_since {
            TCP_IDLE_TIMEOUT
        } else if now - self.idle_since >= TCP_IDLE_TIMEOUT {
            0
        } else {
            TCP_IDLE_TIMEOUT - (now - self.idle_since)
        }
    }

    /// Takes an event and says what to do about it.
    pub fn step(&mut self, event: RelayEvent) -> (action: RelayAction)
        requires
            old(self).expects(event@),
        ensures
            *final(self) == old(self).after(event@),
            action@ == old(self).reaction(event@),
    {
        match event {
            RelayEvent::FirstRead(bytes) => {
                if bytes.len() == 0 {
                    self.first_open = false;
                    RelayAction::ShutdownSecond
                } else {
                    self.writing = true;
                    RelayAction::WriteSecond(bytes)
                }
            },
            RelayEvent::SecondRead(bytes) => {
                if bytes.len() == 0 {
                    self.second_open = false;
                    RelayAction::ShutdownFirst
                } else {
                    self.writing = true;
                    RelayAction::WriteFirst(bytes)
                }
            },
            RelayEvent::Written { now } => {
                self.writing = false;
                self.idle_since = now;
                RelayAction::Wait
            },
            RelayEvent::Tick { now } => {
                if self.idle_left(now) == 0 {
                    self.timed_out = true;
                    RelayAction::IdleTimeout
                } else {
                    RelayAction::Wait
                }
            },
        }
    }
}

// ---------------------------------------------------------------------------
// Runs
// ---------------------------------------------------------------------------

/// The relay after some events.
pub open spec fn state_after(relay: Relay, events: Seq<RelayEventView>) -> Relay
    decreases events.len(),
{
    if events.len() == 0 {
        relay
    } else {
        state_after(relay, events.drop_last()).after(events.last())
    }
}

/// A run of a relay: each event can come when it comes.
pub open spec fn possible(relay: Relay, events: Seq<RelayEventView>) -> bool
    decreases events.len(),
{
    events.len() == 0 || {
        &&& possible(relay, events.drop_last())
        &&& state_after(relay, events.drop_last()).expects(events.last())
    }
}

/// What a relay does about some events.
pub open spec fn actions(relay: Relay, events: Seq<RelayEventView>) -> Seq<RelayActionView>
    decreases events.len(),
{
    if events.len() == 0 {
        Seq::empty()
    } else {
        let front = events.drop_last();
        actions(relay, front).push(state_after(relay, front).reaction(events.last()))
    }
}

/// The bytes that the first stream gave.
pub open spec fn from_first(events: Seq<RelayEventView>) -> Seq<u8>
    decreases events.len(),
{
    if events.len() == 0 {
        Seq::empty()
    } else {
        from_first(events.drop_last()) + match events.last() {
            RelayEventView::FirstRead(bytes) => bytes,
            _ => Seq::empty(),
        }
    }
}

/// The bytes that the second stream gave.
pub open spec fn from_second(events: Seq<RelayEventView>) -> Seq<u8>
    decreases events.len(),
{
    if events.len() == 0 {
        Seq::empty()
    } else {
        from_second(events.drop_last()) + match events.last() {
            RelayEventView::SecondRead(bytes) => bytes,
            _ => Seq::empty(),
        }
    }
}

/// The bytes that the second stream is given.
pub open spec fn to_second(actions: Seq<RelayActionView>) -> Seq<u8>
    decreases actions.len(),
{
    if actions.len() == 0 {
        Seq::empty()
    } else {
        to_second(actions.drop_last()) + match actions.last() {
            RelayActionView::WriteSecond(bytes) => bytes,
            _ => Seq::empty(),
        }
    }
}

/// The bytes that the first stream is given.
pub open spec fn to_first(actions: Seq<RelayActionView>) -> Seq<u8>
    decreases actions.len(),
{
    if actions.len() == 0 {
        Seq::empty()
    } else {
        to_first(actions.drop_last()) + match actions.last() {
            RelayActionView::WriteFirst(bytes) => bytes,
            _ => Seq::empty(),
        }
    }
}

/// When bytes were last passed, or else when the relay started.
pub open spec fn last_passed(start: u64, events: Seq<RelayEventView>) -> u64
    decreases events.len(),
{
    if events.len() == 0 {
        start
    } else {
        match events.last() {
            RelayEventView::Written { now } => now,
            _ => last_passed(start, events.drop_last()),
        }
    }
}

/// Whether the first stream ended.
pub open spec fn first_ended(events: Seq<RelayEventView>) -> bool {
    exists|i: int|
        0 <= i < events.len() && #[trigger] events[i] == RelayEventView::FirstRead(Seq::empty())
}

/// Whether the second stream ended.
pub open spec fn second_ended(events: Seq<RelayEventView>) -> bool {
    exists|i: int|
        0 <= i < events.len() && #[trigger] events[i] == RelayEventView::SecondRead(Seq::empty())
}

/// Each stream is given the bytes that the other gave: the same, in the same
/// order, and all of them.
pub proof fn law_relay_loses_nothing(relay: Relay, events: Seq<RelayEventView>)
    ensures
        to_second(actions(relay, events)) == from_first(events),
        to_first(actions(relay, events)) == from_second(events),
    decreases events.len(),
{
    if events.len() > 0 {
        let front = events.drop_last();
        law_relay_loses_nothing(relay, front);
        assert(actions(relay, events).drop_last() =~= actions(relay, front));
    }
}

/// A stream counts as open exactly until it ended, whatever the other does:
/// closing one direction leaves the other as it was.
pub proof fn law_half_close(relay: Relay, events: Seq<RelayEventView>)
    ensures
        state_after(relay, events).first_open <==> relay.first_open && !first_ended(events),
        state_after(relay, events).second_open <==> relay.second_open && !second_ended(events),
    decreases events.len(),
{
    if events.len() > 0 {
        let front = events.drop_last();
        let last = events.len() - 1;
        law_half_close(relay, front);
        assert(events.last() == events[last]);
        assert(forall|i: int| 0 <= i < last ==> front[i] == events[i]);
        match events.last() {
            RelayEventView::FirstRead(bytes) => {
                if bytes.len() == 0 {
                    assert(bytes =~= Seq::empty());
                }
            },
            RelayEventView::SecondRead(bytes) => {
                if bytes.len() == 0 {
                    assert(bytes =~= Seq::empty());
                }
            },
            _ => {},
        }
        if first_ended(front) {
            let i = choose|i: int|
                0 <= i < front.len() && front[i] == RelayEventView::FirstRead(Seq::empty());
            assert(events[i] == front[i]);
        }
        if second_ended(front) {
            let i = choose|i: int|
                0 <= i < front.len() && front[i] == RelayEventView::SecondRead(Seq::empty());
            assert(events[i] == front[i]);
        }
    }
}

proof fn lemma_actions(relay: Relay, events: Seq<RelayEventView>)
    ensures
        actions(relay, events).len() == events.len(),
        forall|i: int|
            0 <= i < events.len() ==> #[trigger] actions(relay, events)[i] == state_after(
                relay,
                events.take(i),
            ).reaction(events[i]),
    decreases events.len(),
{
    if events.len() > 0 {
        let front = events.drop_last();
        lemma_actions(relay, front);
        assert forall|i: int| 0 <= i < events.len() implies #[trigger] actions(relay, events)[i]
            == state_after(relay, events.take(i)).reaction(events[i]) by {
            if i < front.len() {
                assert(front.take(i) =~= events.take(i));
                assert(actions(relay, front)[i] == state_after(relay, front.take(i)).reaction(
                    front[i],
                ));
            } else {
                assert(events.take(i) =~= front);
            }
        }
    }
}

/// A stream is told at most once that no more will come, and nothing is
/// written to it from then on.
pub proof fn law_end_comes_once(start: u64, events: Seq<RelayEventView>, i: int, j: int)
    requires
        possible(Relay::start(start), events),
        0 <= i < j < events.len(),
    ensures
        ({
            let done = actions(Relay::start(start), events);
            &&& done[i] is ShutdownSecond ==> !(done[j] is ShutdownSecond) && !(
            done[j] is WriteSecond)
            &&& done[i] is ShutdownFirst ==> !(done[j] is ShutdownFirst) && !(done[j] is WriteFirst)
        }),
    decreases events.len(),
{
    let relay = Relay::start(start);
    let front = events.drop_last();
    lemma_actions(relay, events);
    lemma_actions(relay, front);
    if j < front.len() {
        law_end_comes_once(start, front, i, j);
        assert(actions(relay, events)[i] == actions(relay, front)[i]);
        assert(actions(relay, events)[j] == actions(relay, front)[j]);
    } else {
        law_half_close(relay, front);
        assert(front[i] == events[i]);
        let seen = actions(relay, events)[i];
        match events[i] {
            RelayEventView::FirstRead(bytes) => {
                if bytes.len() == 0 {
                    assert(bytes =~= Seq::empty());
                    assert(first_ended(front));
                }
            },
            RelayEventView::SecondRead(bytes) => {
                if bytes.len() == 0 {
                    assert(bytes =~= Seq::empty());
                    assert(second_ended(front));
                }
            },
            _ => {},
        }
        assert(seen == state_after(relay, events.take(i)).reaction(events[i]));
        assert(events.take(j) =~= front);
        assert(actions(relay, events)[j] == state_after(relay, front).reaction(events[j]));
        assert(events[j] == events.last());
    }
}

/// The idle time counts from the last bytes that were passed, or from the
/// start: the relay gives up exactly when time passes and nothing was passed
/// for all of the idle time.
pub proof fn law_idle_time_starts_anew(start: u64, events: Seq<RelayEventView>)
    ensures
        state_after(Relay::start(start), events).idle_since == last_passed(start, events),
        events.len() > 0 ==> (actions(Relay::start(start), events).last() is IdleTimeout <==> (
        events.last() matches RelayEventView::Tick { now } && now >= last_passed(
            start,
            events.drop_last(),
        ) + TCP_IDLE_TIMEOUT)),
    decreases events.len(),
{
    if events.len() > 0 {
        law_idle_time_starts_anew(start, events.drop_last());
    }
}

proof fn lemma_writing(start: u64, events: Seq<RelayEventView>)
    requires
        possible(Relay::start(start), events),
    ensures
        ({
            let relay = state_after(Relay::start(start), events);
            &&& relay.writing ==> relay.running()
            &&& relay.timed_out <==> events.len() > 0 && actions(
                Relay::start(start),
                events,
            ).last() is IdleTimeout
        }),
    decreases events.len(),
{
    if events.len() > 0 {
        lemma_writing(start, events.drop_last());
    }
}

/// A relay is over exactly when both streams ended or when it gave up. No
/// bytes are being written then, and nothing more can come.
pub proof fn law_relay_ends(start: u64, events: Seq<RelayEventView>, event: RelayEventView)
    requires
        possible(Relay::start(start), events),
    ensures
        ({
            let relay = state_after(Relay::start(start), events);
            let gave_up = events.len() > 0 && actions(
                Relay::start(start),
                events,
            ).last() is IdleTimeout;
            &&& relay.running() <==> !gave_up && !(first_ended(events) && second_ended(events))
            &&& !relay.running() ==> !relay.writing && !possible(
                Relay::start(start),
                events.push(event),
            )
        }),
{
    law_half_close(Relay::start(start), events);
    lemma_writing(start, events);
    assert(events.push(event).drop_last() =~= events);
}

/// The end of a stream is passed on, and so is what it gives: a stream is told
/// that no more will come exactly when the other ended, and is written to
/// exactly when the other gave something.
pub proof fn law_ends_are_passed_on(relay: Relay, event: RelayEventView)
    ensures
        relay.reaction(event) is ShutdownSecond <==> event == RelayEventView::FirstRead(
            Seq::empty(),
        ),
        relay.reaction(event) is ShutdownFirst <==> event == RelayEventView::SecondRead(
            Seq::empty(),
        ),
        relay.reaction(event) matches RelayActionView::WriteSecond(bytes) ==> bytes.len() > 0
            && event == RelayEventView::FirstRead(bytes),
        relay.reaction(event) matches RelayActionView::WriteFirst(bytes) ==> bytes.len() > 0
            && event == RelayEventView::SecondRead(bytes),
        event matches RelayEventView::FirstRead(bytes) ==> bytes.len() > 0 ==> relay.reaction(event)
            == RelayActionView::WriteSecond(bytes),
        event matches RelayEventView::SecondRead(bytes) ==> bytes.len() > 0 ==> relay.reaction(
            event,
        ) == RelayActionView::WriteFirst(bytes),
{
    match event {
        RelayEventView::FirstRead(bytes) => {
            if bytes.len() == 0 {
                assert(bytes =~= Seq::empty());
            }
        },
        RelayEventView::SecondRead(bytes) => {
            if bytes.len() == 0 {
                assert(bytes =~= Seq::empty());
            }
        },
        _ => {},
    }
}

/// A relay takes in whatever its open streams give while nothing is being
/// written, the end of a write while something is, and nothing once it is over.
pub proof fn law_what_a_relay_takes_in(relay: Relay, bytes: Seq<u8>, now: u64)
    ensures
        relay.expects(RelayEventView::FirstRead(bytes)) <==> relay.first_open && !relay.writing
            && !relay.timed_out,
        relay.expects(RelayEventView::SecondRead(bytes)) <==> relay.second_open && !relay.writing
            && !relay.timed_out,
        relay.expects(RelayEventView::Written { now }) <==> relay.writing && relay.running(),
        relay.expects(RelayEventView::Tick { now }) <==> !relay.writing && relay.running(),
        relay.running() <==> (relay.first_open || relay.second_open) && !relay.timed_out,
        bytes.len() > 0 ==> relay.after(RelayEventView::FirstRead(bytes)).writing,
        bytes.len() > 0 ==> relay.after(RelayEventView::SecondRead(bytes)).writing,
        !relay.after(RelayEventView::Written { now }).writing,
        relay.reaction(RelayEventView::Written { now }) is Wait,
{
}

/// A relay gives up exactly when time passes and nothing was passed for five
/// minutes; otherwise it goes on as it was.
pub proof fn law_idle_tick(relay: Relay, now: u64)
    requires
        !relay.timed_out,
    ensures
        ({
            let event = RelayEventView::Tick { now };
            let late = now >= relay.idle_since + 300_000;
            &&& relay.reaction(event) is IdleTimeout <==> late
            &&& relay.after(event).timed_out <==> late
            &&& !late ==> relay.reaction(event) is Wait && relay.after(event) == relay
            &&& relay.after(event).first_open == relay.first_open
            &&& relay.after(event).second_open == relay.second_open
        }),
{
}

} // verus!
