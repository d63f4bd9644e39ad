//! Limits on open connections, and how an attachment ends.

use crate::protocol::SHUTDOWN_TIMEOUT;
use vstd::prelude::*;

verus! {

/// The most connections that the listeners of an attachment serve together.
pub const MAX_TOTAL_CONNECTIONS: usize = 512;

// ---------------------------------------------------------------------------
// Limits
// ---------------------------------------------------------------------------

/// A number of places, some of which are taken.
#[derive(Debug)]
pub struct Places {
    taken: usize,
    limit: usize,
}

/// How many places are taken, and how many there are.
pub struct PlacesView {
    pub taken: nat,
    pub limit: nat,
}

impl View for Places {
    type V = PlacesView;

    closed spec fn view(&self) -> PlacesView {
        PlacesView { taken: self.taken as nat, limit: self.limit as nat }
    }
}

impl Places {
    #[verifier::type_invariant]
    spec fn inv(self) -> bool {
        self.taken <= self.limit
    }

    /// Places that are all free.
    pub fn new(limit: usize) -> (out: Places)
        ensures
            out@ == (PlacesView { taken: 0, limit: limit as nat }),
    {
        Places { taken: 0, limit }
    }

    /// How many places are taken: never more than there are.
    pub fn taken(&self) -> (out: usize)
        ensures
            out == self@.taken,
            self@.taken <= self@.limit,
    {
        proof {
            use_type_invariant(self);
        }
        self.taken
    }

    /// Takes a place if one is free.
    pub fn try_take(&mut self) -> (ok: bool)
        ensures
            ok <==> old(self)@.taken < old(self)@.limit,
            final(self)@ == if ok {
                one_more(old(self)@)
            } else {
                old(self)@
            },
            final(self)@.taken <= final(self)@.limit,
    {
        proof {
            use_type_invariant(&*self);
        }
        if self.taken < self.limit {
            self.taken = self.taken + 1;
            true
        } else {
            false
        }
    }

    /// Gives a place back. Nothing happens if all are free.
    pub fn give_back(&mut self)
        ensures
            final(self)@ == one_fewer(old(self)@),
    {
        proof {
            use_type_invariant(&*self);
        }
        if self.taken > 0 {
            self.taken = self.taken - 1;
        }
    }
}

/// What a listener does with a client.
#[derive(Debug, Clone, Copy, PartialEq, Eq, Structural)]
pub enum ClientDecision {
    /// Serve it.
    Serve,
    /// Drop it: the listener serves all it may.
    ServiceFull,
    /// Drop it: the listeners together serve all they may.
    TotalFull,
}

/// What a listener does with a client, given its own places and those of all
/// listeners.
pub open spec fn client_decision(own: PlacesView, total: PlacesView) -> ClientDecision {
    if own.taken >= own.limit {
        ClientDecision::ServiceFull
    } else if total.taken >= total.limit {
        ClientDecision::TotalFull
    } else {
        ClientDecision::Serve
    }
}

/// The places after one more was taken.
pub open spec fn one_more(places: PlacesView) -> PlacesView {
    PlacesView { taken: places.taken + 1, limit: places.limit }
}

/// The places after one was given back.
pub open spec fn one_fewer(places: PlacesView) -> PlacesView {
    PlacesView {
        taken: if places.taken > 0 {
            (places.taken - 1) as nat
        } else {
            0
        },
        limit: places.limit,
    }
}

/// Decides about a client. One that is served takes a place in both; one that
/// is not takes none.
pub fn accept_client(own: &mut Places, total: &mut Places) -> (out: ClientDecision)
    ensures
        out == client_decision(old(own)@, old(total)@),
        out == ClientDecision::Serve ==> final(own)@ == one_more(old(own)@) && final(total)@
            == one_more(old(total)@),
        out != ClientDecision::Serve ==> final(own)@ == old(own)@ && final(total)@ == old(total)@,
        final(own)@.taken <= final(own)@.limit,
        final(total)@.taken <= final(total)@.limit,
{
    proof {
        use_type_invariant(&*total);
    }
    if !own.try_take() {
        return ClientDecision::ServiceFull;
    }
    if !total.try_take() {
        own.give_back();
        return ClientDecision::TotalFull;
    }
    ClientDecision::Serve
}

/// Gives back the places of a client that was served.
pub fn release_client(own: &mut Places, total: &mut Places)
    ensures
        final(own)@ == one_fewer(old(own)@),
        final(total)@ == one_fewer(old(total)@),
{
    own.give_back();
    total.give_back();
}

// ---------------------------------------------------------------------------
// Listeners and shutdown
// ---------------------------------------------------------------------------

/// How far an attachment is.
#[derive(Debug, Clone, Copy, PartialEq, Eq, Structural)]
pub enum RunPhase {
    /// Its listeners run.
    Running,
    /// Its listeners were told to end, and have some time for it.
    Draining,
    /// Its listeners were aborted.
    Aborting,
    /// Its listeners have ended.
    Closed,
}

/// The listeners of an attachment.
#[derive(Debug, Clone, Copy, PartialEq, Eq, Structural)]
pub struct AttachmentRun {
    pub phase: RunPhase,
    /// How many listeners have not ended.
    pub listeners: usize,
    /// Whether a listener failed before the attachment was told to end.
    pub failed: bool,
}

/// What happened to an attachment.
#[derive(Debug, Clone, Copy, PartialEq, Eq, Structural)]
pub enum RunEvent {
    /// The user asked it to end.
    Interrupted,
    /// A listener ended.
    ListenerEnded { failed: bool },
    /// The time for an orderly end is over.
    Deadline,
}

/// What an attachment does.
#[derive(Debug, Clone, Copy, PartialEq, Eq, Structural)]
pub enum RunAction {
    /// Nothing.
    Keep,
    /// Tell all listeners and the supervisor to end, and give them that many
    /// milliseconds.
    Drain(u64),
    /// Abort the listeners that are left.
    Abort,
    /// Wait for the supervisor, close the endpoint, and end.
    Close { failed: bool },
}

impl AttachmentRun {
    /// The state and the action when listeners are told to end. Without any
    /// left, there is nothing to wait for.
    pub open spec fn told_to_end(self) -> (AttachmentRun, RunAction) {
        if self.listeners == 0 {
            (
                AttachmentRun { phase: RunPhase::Closed, ..self },
                RunAction::Close { failed: self.failed },
            )
        } else {
            (
                AttachmentRun { phase: RunPhase::Draining, ..self },
                RunAction::Drain(SHUTDOWN_TIMEOUT),
            )
        }
    }

    /// The state with one listener less.
    pub open spec fn one_less(self) -> AttachmentRun {
        AttachmentRun {
            listeners: if self.listeners > 0 {
                (self.listeners - 1) as usize
            } else {
                0
            },
            ..self
        }
    }

    /// The state and the action after an event.
    pub open spec fn after(self, event: RunEvent) -> (AttachmentRun, RunAction) {
        match (self.phase, event) {
            (RunPhase::Closed, _) => (self, RunAction::Keep),
            (RunPhase::Running, RunEvent::Interrupted) => self.told_to_end(),
            (RunPhase::Running, RunEvent::ListenerEnded { failed }) => {
                let left = AttachmentRun { failed, ..self.one_less() };
                if failed || left.listeners == 0 {
                    left.told_to_end()
                } else {
                    (left, RunAction::Keep)
                }
            },
            (RunPhase::Draining, RunEvent::Deadline) => (
                AttachmentRun { phase: RunPhase::Aborting, ..self },
                RunAction::Abort,
            ),
            (_, RunEvent::ListenerEnded { failed }) => {
                let left = self.one_less();
                if left.listeners == 0 {
                    (
                        AttachmentRun { phase: RunPhase::Closed, ..left },
                        RunAction::Close { failed: left.failed },
                    )
                } else {
                    (left, RunAction::Keep)
                }
            },
            _ => (self, RunAction::Keep),
        }
    }

    /// An attachment whose listeners run.
    pub fn new(listeners: usize) -> (out: AttachmentRun)
        ensures
            out == (AttachmentRun { phase: RunPhase::Running, listeners, failed: false }),
    {
        AttachmentRun { phase: RunPhase::Running, listeners, failed: false }
    }

    fn tell_to_end(&mut self) -> (action: RunAction)
        ensures
            (*final(self), action) == old(self).told_to_end(),
    {
        if self.listeners == 0 {
            self.phase = RunPhase::Closed;
            RunAction::Close { failed: self.failed }
        } else {
            self.phase = RunPhase::Draining;
            RunAction::Drain(SHUTDOWN_TIMEOUT)
        }
    }

    /// Takes in an event, and says what is done.
    pub fn step(&mut self, event: RunEvent) -> (action: RunAction)
        ensures
            (*final(self), action) == old(self).after(event),
    {
        match (self.phase, event) {
            (RunPhase::Closed, _) => RunAction::Keep,
            (RunPhase::Running, RunEvent::Interrupted) => self.tell_to_end(),
            (RunPhase::Running, RunEvent::ListenerEnded { failed }) => {
                if self.listeners > 0 {
                    self.listeners = self.listeners - 1;
                }
                self.failed = failed;
                if failed || self.listeners == 0 {
                    self.tell_to_end()
                } else {
                    RunAction::Keep
                }
            },
            (RunPhase::Draining, RunEvent::Deadline) => {
                self.phase = RunPhase::Aborting;
                RunAction::Abort
            },
            (_, RunEvent::ListenerEnded { .. }) => {
                if self.listeners > 0 {
                    self.listeners = self.listeners - 1;
                }
                if self.listeners == 0 {
                    self.phase = RunPhase::Closed;
                    RunAction::Close { failed: self.failed }
                } else {
                    RunAction::Keep
                }
            },
            _ => RunAction::Keep,
        }
    }
}

// ---------------------------------------------------------------------------
// Laws
// ---------------------------------------------------------------------------

/// A client that was served and has left leaves the places as it found them.
pub proof fn law_places_are_given_back(places: PlacesView)
    ensures
        one_fewer(one_more(places)) == places,
{
}

/// The state of an attachment after some events.
pub open spec fn run_after(run: AttachmentRun, events: Seq<RunEvent>) -> AttachmentRun
    decreases events.len(),
{
    if events.len() == 0 {
        run
    } else {
        run_after(run, events.drop_last()).after(events.last()).0
    }
}

/// Whether a state is one that an attachment can be in: it is closed only when
/// no listener is left, and waits for listeners only while some are.
pub open spec fn orderly(run: AttachmentRun) -> bool {
    match run.phase {
        RunPhase::Running => !run.failed,
        RunPhase::Draining | RunPhase::Aborting => run.listeners > 0,
        RunPhase::Closed => run.listeners == 0,
    }
}

/// An attachment closes its endpoint only after all its listeners have ended.
pub proof fn law_endpoint_outlives_listeners(listeners: usize, events: Seq<RunEvent>)
    ensures
        orderly(
            run_after(
                AttachmentRun { phase: RunPhase::Running, listeners, failed: false },
                events,
            ),
        ),
    decreases events.len(),
{
    if events.len() > 0 {
        law_endpoint_outlives_listeners(listeners, events.drop_last());
    }
}

/// An interrupted attachment ends well, whatever its listeners report from
/// then on.
pub proof fn law_interrupt_is_success(run: AttachmentRun, events: Seq<RunEvent>)
    requires
        run.phase is Running,
        orderly(run),
    ensures
        !run_after(run.after(RunEvent::Interrupted).0, events).failed,
        !(run_after(run.after(RunEvent::Interrupted).0, events).phase is Running),
    decreases events.len(),
{
    if events.len() > 0 {
        law_interrupt_is_success(run, events.drop_last());
    }
}

/// The first failure of a listener ends the attachment, and the attachment
/// ends as a failure.
pub proof fn law_first_failure_ends_the_run(run: AttachmentRun, events: Seq<RunEvent>)
    requires
        run.phase is Running,
        orderly(run),
    ensures
        run_after(run.after(RunEvent::ListenerEnded { failed: true }).0, events).failed,
        !(run_after(run.after(RunEvent::ListenerEnded { failed: true }).0, events).phase is Running),
    decreases events.len(),
{
    if events.len() > 0 {
        law_first_failure_ends_the_run(run, events.drop_last());
    }
}

/// A client is served exactly if its listener and all listeners together have a
/// place left. If not, the listener is named first.
pub proof fn law_client_decision(own: PlacesView, total: PlacesView)
    ensures
        client_decision(own, total) == ClientDecision::Serve <==> own.taken < own.limit
            && total.taken < total.limit,
        client_decision(own, total) == ClientDecision::ServiceFull <==> own.taken >= own.limit,
        client_decision(own, total) == ClientDecision::TotalFull <==> own.taken < own.limit
            && total.taken >= total.limit,
{
}

/// Each client takes one place and gives one back; how many there are stays the
/// same.
pub proof fn law_one_place_each(places: PlacesView)
    ensures
        one_more(places).taken == places.taken + 1,
        one_more(places).limit == places.limit,
        places.taken > 0 ==> one_fewer(places).taken == places.taken - 1,
        places.taken == 0 ==> one_fewer(places).taken == 0,
        one_fewer(places).limit == places.limit,
        MAX_TOTAL_CONNECTIONS == 512,
{
}

/// An attachment that is interrupted tells its listeners to end and gives them
/// ten seconds, or ends at once if it has none. After that time those that are
/// left are aborted. It ends when the last one has ended, and not earlier.
pub proof fn law_interrupted_attachment_drains(run: AttachmentRun, failed: bool)
    requires
        run.phase is Running,
        !run.failed,
    ensures
        ({
            let (draining, told) = run.after(RunEvent::Interrupted);
            let (aborting, aborted) = draining.after(RunEvent::Deadline);
            let end = RunEvent::ListenerEnded { failed };
            &&& run.listeners == 0 ==> told == (RunAction::Close { failed: false })
                && draining.phase is Closed
            &&& run.listeners > 0 ==> {
                &&& told == RunAction::Drain(10_000)
                &&& draining.phase is Draining
                &&& draining.listeners == run.listeners
                &&& aborted is Abort
                &&& aborting.phase is Aborting
                &&& aborting.listeners == run.listeners
                &&& draining.after(RunEvent::Interrupted) == (draining, RunAction::Keep)
                &&& aborting.after(RunEvent::Interrupted) == (aborting, RunAction::Keep)
                &&& aborting.after(RunEvent::Deadline) == (aborting, RunAction::Keep)
            }
            &&& run.listeners == 1 ==> {
                &&& draining.after(end).1 == (RunAction::Close { failed: false })
                &&& draining.after(end).0.phase is Closed
                &&& aborting.after(end).1 == (RunAction::Close { failed: false })
                &&& aborting.after(end).0.phase is Closed
            }
            &&& run.listeners > 1 ==> {
                &&& draining.after(end).1 is Keep
                &&& draining.after(end).0.phase is Draining
                &&& draining.after(end).0.listeners == run.listeners - 1
                &&& aborting.after(end).1 is Keep
                &&& aborting.after(end).0.phase is Aborting
                &&& aborting.after(end).0.listeners == run.listeners - 1
            }
        }),
{
}

/// While an attachment runs, a listener that ends well leaves the others
/// running, and the last one ends the attachment. One that fails makes the
/// others end too, and the attachment fail.
pub proof fn law_listeners_end(run: AttachmentRun)
    requires
        run.phase is Running,
        !run.failed,
        run.listeners > 0,
    ensures
        ({
            let (well, kept) = run.after(RunEvent::ListenerEnded { failed: false });
            let (badly, told) = run.after(RunEvent::ListenerEnded { failed: true });
            &&& well.listeners == run.listeners - 1
            &&& badly.listeners == run.listeners - 1
            &&& !well.failed
            &&& badly.failed
            &&& run.listeners > 1 ==> kept is Keep && well.phase is Running
            &&& run.listeners == 1 ==> kept == (RunAction::Close { failed: false })
                && well.phase is Closed
            &&& run.listeners > 1 ==> told == RunAction::Drain(10_000) && badly.phase is Draining
            &&& run.listeners == 1 ==> told == (RunAction::Close { failed: true })
                && badly.phase is Closed
            &&& run.after(RunEvent::Deadline) == (run, RunAction::Keep)
        }),
{
}

/// How an attachment ends is decided before it drains: whatever its listeners
/// report later, it is closed with that.
pub proof fn law_outcome_is_kept(run: AttachmentRun, event: RunEvent)
    requires
        !(run.phase is Running),
    ensures
        run.after(event).0.failed == run.failed,
        run.after(event).1 matches RunAction::Close { failed } ==> failed == run.failed,
        run.phase is Closed ==> run.after(event) == (run, RunAction::Keep),
{
}

} // verus!
