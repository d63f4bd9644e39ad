//! The connection that all listeners of an attachment share, and when it is
//! made again.
//!
//! A connection is published under a generation. [`Supervisor`] decides when to
//! connect, when to withdraw a connection, and how long to wait; a lease on a
//! connection can withdraw that connection and no later one.

use crate::protocol::{RECONNECT_INITIAL_BACKOFF, RECONNECT_MAX_BACKOFF};
use vstd::prelude::*;

verus! {

// ---------------------------------------------------------------------------
// Delays
// ---------------------------------------------------------------------------

/// The delay that follows a delay, both in milliseconds: twice as long, up to
/// a limit.
pub open spec fn doubled(current: u64) -> u64 {
    if 2 * current > RECONNECT_MAX_BACKOFF {
        RECONNECT_MAX_BACKOFF
    } else {
        (2 * current) as u64
    }
}

/// The delay that follows a delay.
pub fn next_backoff(current: u64) -> (out: u64)
    ensures
        out == doubled(current),
{
    match current.checked_mul(2) {
        Some(twice) => if twice > RECONNECT_MAX_BACKOFF {
            RECONNECT_MAX_BACKOFF
        } else {
            twice
        },
        None => RECONNECT_MAX_BACKOFF,
    }
}

/// How long to wait before the next attempt. Once a connection was lost the
/// wait is always the shortest.
pub open spec fn delay(recovering_after_connection_loss: bool, backoff: u64) -> u64 {
    if recovering_after_connection_loss {
        RECONNECT_INITIAL_BACKOFF
    } else {
        backoff
    }
}

/// How long to wait before the next attempt.
pub fn reconnect_delay(recovering_after_connection_loss: bool, backoff: u64) -> (out: u64)
    ensures
        out == delay(recovering_after_connection_loss, backoff),
{
    if recovering_after_connection_loss {
        RECONNECT_INITIAL_BACKOFF
    } else {
        backoff
    }
}

/// The delay before the attempt that follows `n` failed ones.
pub open spec fn backoff_after(n: nat) -> u64
    decreases n,
{
    if n == 0 {
        RECONNECT_INITIAL_BACKOFF
    } else {
        doubled(backoff_after((n - 1) as nat))
    }
}

/// Delays never shrink, and stay between the shortest and the longest.
pub proof fn law_backoff_grows_to_its_limit(n: nat)
    ensures
        RECONNECT_INITIAL_BACKOFF <= backoff_after(n) <= backoff_after(n + 1)
            <= RECONNECT_MAX_BACKOFF,
    decreases n,
{
    if n > 0 {
        law_backoff_grows_to_its_limit((n - 1) as nat);
    }
}

/// The longest delay follows itself.
pub proof fn law_backoff_is_capped()
    ensures
        doubled(RECONNECT_MAX_BACKOFF) == RECONNECT_MAX_BACKOFF,
        forall|current: u64| #[trigger] doubled(current) <= RECONNECT_MAX_BACKOFF,
{
}

// ---------------------------------------------------------------------------
// The supervisor
// ---------------------------------------------------------------------------

/// What the supervisor is waiting for.
#[derive(Debug, Clone, Copy, PartialEq, Eq, Structural)]
pub enum SupervisorPhase {
    /// A connection is being made.
    Connecting,
    /// A delay is running.
    Waiting,
    /// A connection is published. `stable` says whether it has lasted.
    Connected { stable: bool },
    /// Nothing: the attachment is shutting down.
    Stopped,
}

/// The state of the supervisor.
#[derive(Debug, Clone, Copy, PartialEq, Eq, Structural)]
pub struct Supervisor {
    pub phase: SupervisorPhase,
    /// The delay before the next attempt, in milliseconds.
    pub backoff: u64,
    /// Whether a connection was ever lost.
    pub recovering: bool,
    /// How many connections were made.
    pub generation: u64,
}

/// What happened.
#[derive(Debug, Clone, Copy, PartialEq, Eq, Structural)]
pub enum SupervisorEvent {
    /// The connection could not be made, or not in time.
    ConnectFailed,
    /// The connection was made.
    Connected,
    /// The connection has lasted for a while.
    Stable,
    /// The connection was closed.
    Closed,
    /// The transport monitor of the connection ended.
    MonitorEnded,
    /// What is published changed. `withdrawn` says that nothing is now.
    Changed { withdrawn: bool },
    /// The delay is over.
    DelayOver,
    /// The attachment is shutting down.
    Shutdown,
}

/// Why the supervisor closes a connection.
#[derive(Debug, Clone, Copy, PartialEq, Eq, Structural)]
pub enum CloseReason {
    MonitorEnded,
    Invalidated,
    Shutdown,
}

impl CloseReason {
    /// The reason as the peer sees it.
    pub fn as_str(&self) -> (out: &'static str)
        ensures
            out@ == match *self {
                CloseReason::MonitorEnded => "transport monitor ended"@,
                CloseReason::Invalidated => "tunnel connection invalidated"@,
                CloseReason::Shutdown => "locho shutdown"@,
            },
    {
        match self {
            CloseReason::MonitorEnded => "transport monitor ended",
            CloseReason::Invalidated => "tunnel connection invalidated",
            CloseReason::Shutdown => "locho shutdown",
        }
    }
}

/// What the supervisor does.
#[derive(Debug, Clone, Copy, PartialEq, Eq, Structural)]
pub enum SupervisorAction {
    /// Nothing.
    Keep,
    /// Make a connection.
    Connect,
    /// Wait for that many milliseconds.
    Wait(u64),
    /// Publish the connection under that generation, and start its transport
    /// monitor and the timer after which it is stable.
    Publish(u64),
    /// Stop the transport monitor, withdraw the connection if it is still
    /// published, close it if a reason is given, and wait for that many
    /// milliseconds.
    Lose { withdraw: bool, close: Option<CloseReason>, delay: u64 },
    /// Stop the transport monitor, close the connection if there is one,
    /// withdraw it, and end.
    Stop { close: Option<CloseReason> },
}

impl Supervisor {
    /// The supervisor of an attachment that has just started, which makes a
    /// connection.
    pub open spec fn start() -> Supervisor {
        Supervisor {
            phase: SupervisorPhase::Connecting,
            backoff: RECONNECT_INITIAL_BACKOFF,
            recovering: false,
            generation: 0,
        }
    }

    /// The state after a connection was lost.
    pub open spec fn lost(self) -> Supervisor {
        Supervisor { phase: SupervisorPhase::Waiting, recovering: true, ..self }
    }

    /// The state after an event.
    pub open spec fn after(self, event: SupervisorEvent) -> Supervisor {
        match (self.phase, event) {
            (SupervisorPhase::Connecting, SupervisorEvent::ConnectFailed) => Supervisor {
                phase: SupervisorPhase::Waiting,
                ..self
            },
            (SupervisorPhase::Connecting, SupervisorEvent::Connected) => Supervisor {
                phase: SupervisorPhase::Connected { stable: false },
                generation: (self.generation + 1) as u64,
                ..self
            },
            (SupervisorPhase::Waiting, SupervisorEvent::DelayOver) => Supervisor {
                phase: SupervisorPhase::Connecting,
                backoff: if self.recovering {
                    self.backoff
                } else {
                    doubled(self.backoff)
                },
                ..self
            },
            (SupervisorPhase::Connected { stable: false }, SupervisorEvent::Stable) => Supervisor {
                phase: SupervisorPhase::Connected { stable: true },
                backoff: RECONNECT_INITIAL_BACKOFF,
                ..self
            },
            (SupervisorPhase::Connected { stable }, SupervisorEvent::Closed) => self.lost(),
            (SupervisorPhase::Connected { stable }, SupervisorEvent::MonitorEnded) => self.lost(),
            (SupervisorPhase::Connected { stable }, SupervisorEvent::Changed { withdrawn: true }) =>
                self.lost(),
            (_, SupervisorEvent::Shutdown) => Supervisor { phase: SupervisorPhase::Stopped, ..self },
            _ => self,
        }
    }

    /// What is done on an event.
    pub open spec fn reaction(self, event: SupervisorEvent) -> SupervisorAction {
        match (self.phase, event) {
            (SupervisorPhase::Connecting, SupervisorEvent::ConnectFailed) => SupervisorAction::Wait(
                delay(self.recovering, self.backoff),
            ),
            (SupervisorPhase::Connecting, SupervisorEvent::Connected) => SupervisorAction::Publish(
                (self.generation + 1) as u64,
            ),
            (SupervisorPhase::Waiting, SupervisorEvent::DelayOver) => SupervisorAction::Connect,
            (SupervisorPhase::Connected { stable }, SupervisorEvent::Closed) =>
                SupervisorAction::Lose {
                withdraw: true,
                close: None,
                delay: RECONNECT_INITIAL_BACKOFF,
            },
            (SupervisorPhase::Connected { stable }, SupervisorEvent::MonitorEnded) =>
                SupervisorAction::Lose {
                withdraw: true,
                close: Some(CloseReason::MonitorEnded),
                delay: RECONNECT_INITIAL_BACKOFF,
            },
            (SupervisorPhase::Connected { stable }, SupervisorEvent::Changed { withdrawn: true }) =>
                SupervisorAction::Lose {
                withdraw: false,
                close: Some(CloseReason::Invalidated),
                delay: RECONNECT_INITIAL_BACKOFF,
            },
            (SupervisorPhase::Connected { stable }, SupervisorEvent::Shutdown) =>
                SupervisorAction::Stop { close: Some(CloseReason::Shutdown) },
            (SupervisorPhase::Stopped, _) => SupervisorAction::Keep,
            (_, SupervisorEvent::Shutdown) => SupervisorAction::Stop { close: None },
            _ => SupervisorAction::Keep,
        }
    }

    /// A supervisor that makes its first connection.
    pub fn new() -> (out: Supervisor)
        ensures
            out == Supervisor::start(),
    {
        Supervisor {
            phase: SupervisorPhase::Connecting,
            backoff: RECONNECT_INITIAL_BACKOFF,
            recovering: false,
            generation: 0,
        }
    }

    fn lose(&mut self, withdraw: bool, close: Option<CloseReason>) -> (action: SupervisorAction)
        ensures
            *final(self) == old(self).lost(),
            action == (SupervisorAction::Lose { withdraw, close, delay: RECONNECT_INITIAL_BACKOFF }),
    {
        self.phase = SupervisorPhase::Waiting;
        self.recovering = true;
        SupervisorAction::Lose {
            withdraw,
            close,
            delay: reconnect_delay(self.recovering, self.backoff),
        }
    }

    /// Takes in an event, and says what is done.
    pub fn step(&mut self, event: SupervisorEvent) -> (action: SupervisorAction)
        requires
            event is Connected && old(self).phase is Connecting ==> old(self).generation < u64::MAX,
        ensures
            *final(self) == old(self).after(event),
            action == old(self).reaction(event),
    {
        match (self.phase, event) {
            (SupervisorPhase::Connecting, SupervisorEvent::ConnectFailed) => {
                self.phase = SupervisorPhase::Waiting;
                SupervisorAction::Wait(reconnect_delay(self.recovering, self.backoff))
            },
            (SupervisorPhase::Connecting, SupervisorEvent::Connected) => {
                self.generation = self.generation + 1;
                self.phase = SupervisorPhase::Connected { stable: false };
                SupervisorAction::Publish(self.generation)
            },
            (SupervisorPhase::Waiting, SupervisorEvent::DelayOver) => {
                if !self.recovering {
                    self.backoff = next_backoff(self.backoff);
                }
                self.phase = SupervisorPhase::Connecting;
                SupervisorAction::Connect
            },
            (SupervisorPhase::Connected { stable: false }, SupervisorEvent::Stable) => {
                self.backoff = RECONNECT_INITIAL_BACKOFF;
                self.phase = SupervisorPhase::Connected { stable: true };
                SupervisorAction::Keep
            },
            (SupervisorPhase::Connected { .. }, SupervisorEvent::Closed) => self.lose(true, None),
            (SupervisorPhase::Connected { .. }, SupervisorEvent::MonitorEnded) => self.lose(
                true,
                Some(CloseReason::MonitorEnded),
            ),
            (SupervisorPhase::Connected { .. }, SupervisorEvent::Changed { withdrawn: true }) =>
                self.lose(false, Some(CloseReason::Invalidated)),
            (SupervisorPhase::Connected { .. }, SupervisorEvent::Shutdown) => {
                self.phase = SupervisorPhase::Stopped;
                SupervisorAction::Stop { close: Some(CloseReason::Shutdown) }
            },
            (SupervisorPhase::Stopped, _) => SupervisorAction::Keep,
            (_, SupervisorEvent::Shutdown) => {
                self.phase = SupervisorPhase::Stopped;
                SupervisorAction::Stop { close: None }
            },
            _ => SupervisorAction::Keep,
        }
    }
}

// ---------------------------------------------------------------------------
// Leases
// ---------------------------------------------------------------------------

/// Whether a lease of generation `lease` withdraws the connection that is
/// published: exactly if it is the one that the lease is on.
pub open spec fn withdraws(published: Option<u64>, lease: u64) -> bool {
    published == Some(lease)
}

/// A lease on a connection.
#[derive(Debug, Clone, Copy, PartialEq, Eq, Structural)]
pub struct ConnectionLease {
    pub generation: u64,
}

impl ConnectionLease {
    /// Whether the lease withdraws the connection that is published.
    pub fn invalidate(&self, published: Option<u64>) -> (r: bool)
        ensures
            r == withdraws(published, self.generation),
    {
        match published {
            Some(generation) => generation == self.generation,
            None => false,
        }
    }
}

/// Holds the lease of a response while its body is read. A failure withdraws
/// the connection, unless the body is complete.
#[derive(Debug, Clone, Copy, PartialEq, Eq, Structural)]
pub struct HttpBodyLeaseGuard {
    pub lease: Option<ConnectionLease>,
}

impl HttpBodyLeaseGuard {
    /// Holds a lease.
    pub fn new(lease: ConnectionLease) -> (out: HttpBodyLeaseGuard)
        ensures
            out.lease == Some(lease),
    {
        HttpBodyLeaseGuard { lease: Some(lease) }
    }

    /// Whether a failure withdraws the connection that is published.
    pub fn invalidate(&self, published: Option<u64>) -> (r: bool)
        ensures
            r == match self.lease {
                Some(lease) => withdraws(published, lease.generation),
                None => false,
            },
    {
        match self.lease {
            Some(lease) => lease.invalidate(published),
            None => false,
        }
    }

    /// Lets the lease go.
    pub fn complete(&mut self)
        ensures
            final(self).lease is None,
    {
        self.lease = None;
    }
}

// ---------------------------------------------------------------------------
// Laws
// ---------------------------------------------------------------------------

/// What happens to the connection of an attachment: something the supervisor
/// takes in, or a lease that withdraws.
pub enum ConnectionEvent {
    Supervisor(SupervisorEvent),
    Invalidate(u64),
}

/// The supervisor and the generation that is published.
pub struct ConnectionState {
    pub supervisor: Supervisor,
    pub published: Option<u64>,
}

/// The state after an event.
pub open spec fn connection_after(state: ConnectionState, event: ConnectionEvent) -> ConnectionState {
    match event {
        ConnectionEvent::Supervisor(event) => ConnectionState {
            supervisor: state.supervisor.after(event),
            published: match state.supervisor.reaction(event) {
                SupervisorAction::Publish(generation) => Some(generation),
                SupervisorAction::Lose { withdraw, close, delay } => if withdraw {
                    None
                } else {
                    state.published
                },
                SupervisorAction::Stop { close } => None,
                _ => state.published,
            },
        },
        ConnectionEvent::Invalidate(lease) => ConnectionState {
            published: if withdraws(state.published, lease) {
                None
            } else {
                state.published
            },
            ..state
        },
    }
}

/// Whether an event can happen in a state: a change that leaves nothing
/// published is seen only where nothing is, and generations do not run out.
pub open spec fn can_happen(state: ConnectionState, event: ConnectionEvent) -> bool {
    &&& state.supervisor.generation < u64::MAX
    &&& event == ConnectionEvent::Supervisor(SupervisorEvent::Changed { withdrawn: true })
        ==> state.published is None
}

/// Whether the events can happen one after the other from a state.
pub open spec fn can_all_happen(state: ConnectionState, events: Seq<ConnectionEvent>) -> bool
    decreases events.len(),
{
    events.len() == 0 || (can_all_happen(state, events.drop_last()) && can_happen(
        state_after(state, events.drop_last()),
        events.last(),
    ))
}

/// The state after events.
pub open spec fn state_after(state: ConnectionState, events: Seq<ConnectionEvent>) -> ConnectionState
    decreases events.len(),
{
    if events.len() == 0 {
        state
    } else {
        connection_after(state_after(state, events.drop_last()), events.last())
    }
}

/// The state in which an attachment starts.
pub open spec fn first_state() -> ConnectionState {
    ConnectionState { supervisor: Supervisor::start(), published: None }
}

/// A connection is published only while the supervisor watches it, under its
/// generation, and the delay is between the shortest and the longest.
pub open spec fn sound(state: ConnectionState) -> bool {
    &&& state.published is Some ==> state.published == Some(state.supervisor.generation)
        && state.supervisor.phase is Connected
    &&& RECONNECT_INITIAL_BACKOFF <= state.supervisor.backoff <= RECONNECT_MAX_BACKOFF
}

/// Whatever happens, only the connection that the supervisor watches is
/// published, and waits stay between the shortest and the longest.
pub proof fn law_published_connection_is_watched(events: Seq<ConnectionEvent>)
    requires
        can_all_happen(first_state(), events),
    ensures
        sound(state_after(first_state(), events)),
    decreases events.len(),
{
    if events.len() > 0 {
        law_published_connection_is_watched(events.drop_last());
    }
}

/// A lease on an earlier connection does not withdraw a later one.
pub proof fn law_old_lease_is_harmless(state: ConnectionState, lease: u64)
    requires
        sound(state),
        lease < state.supervisor.generation,
    ensures
        connection_after(state, ConnectionEvent::Invalidate(lease)) == state,
{
}

/// A lease on the connection that is published withdraws it, and the
/// supervisor then connects again after the shortest delay.
pub proof fn law_failure_leads_to_reconnection(state: ConnectionState)
    requires
        sound(state),
        state.published is Some,
        state.supervisor.generation < u64::MAX,
    ensures
        ({
            let withdrawn = connection_after(
                state,
                ConnectionEvent::Invalidate(state.supervisor.generation),
            );
            let seen = SupervisorEvent::Changed { withdrawn: true };
            let waiting = connection_after(withdrawn, ConnectionEvent::Supervisor(seen));
            &&& withdrawn.published is None
            &&& withdrawn.supervisor.reaction(seen) == (SupervisorAction::Lose {
                withdraw: false,
                close: Some(CloseReason::Invalidated),
                delay: RECONNECT_INITIAL_BACKOFF,
            })
            &&& waiting.supervisor.reaction(SupervisorEvent::DelayOver)
                == SupervisorAction::Connect
        }),
{
}

/// Generations never fall, and every published connection has a new one.
pub proof fn law_generations_are_new(state: ConnectionState, event: ConnectionEvent)
    requires
        sound(state),
        can_happen(state, event),
    ensures
        connection_after(state, event).supervisor.generation >= state.supervisor.generation,
        connection_after(state, event).published matches Some(generation) ==> (state.published
            == Some(generation) || generation > state.supervisor.generation),
{
}

/// Once a connection was lost, every later wait is the shortest.
pub proof fn law_lost_connection_is_retried_soon(
    state: ConnectionState,
    events: Seq<ConnectionEvent>,
)
    requires
        state.supervisor.recovering,
    ensures
        state_after(state, events).supervisor.recovering,
        forall|event: SupervisorEvent|
            match #[trigger] state_after(state, events).supervisor.reaction(event) {
                SupervisorAction::Wait(d) => d == RECONNECT_INITIAL_BACKOFF,
                SupervisorAction::Lose { withdraw, close, delay } => delay
                    == RECONNECT_INITIAL_BACKOFF,
                _ => true,
            },
    decreases events.len(),
{
    if events.len() > 0 {
        law_lost_connection_is_retried_soon(state, events.drop_last());
    }
}

/// The state after `n` attempts that failed, each followed by its wait.
pub open spec fn after_failures(n: nat) -> Supervisor
    decreases n,
{
    if n == 0 {
        Supervisor::start()
    } else {
        after_failures((n - 1) as nat).after(SupervisorEvent::ConnectFailed).after(
            SupervisorEvent::DelayOver,
        )
    }
}

/// Until the first connection, the waits are those of the backoff.
pub proof fn law_first_connection_backs_off(n: nat)
    ensures
        after_failures(n) == (Supervisor { backoff: backoff_after(n), ..Supervisor::start() }),
        after_failures(n).reaction(SupervisorEvent::ConnectFailed) == SupervisorAction::Wait(
            backoff_after(n),
        ),
    decreases n,
{
    if n > 0 {
        law_first_connection_backs_off((n - 1) as nat);
    }
}

/// After a shutdown nothing is published and nothing is done any more.
pub proof fn law_shutdown_is_final(state: ConnectionState, events: Seq<ConnectionEvent>)
    requires
        state.supervisor.phase is Stopped,
        state.published is None,
    ensures
        state_after(state, events) == state,
        forall|event: SupervisorEvent| #[trigger]
            state.supervisor.reaction(event) == SupervisorAction::Keep,
    decreases events.len(),
{
    if events.len() > 0 {
        law_shutdown_is_final(state, events.drop_last());
    }
}

/// Whatever ends a connection that is published, it is given up, stable or not:
/// nothing is published any more, it is closed unless it is closed already, and
/// another one is made after the shortest delay.
pub proof fn law_lost_connection_is_replaced(state: ConnectionState, event: SupervisorEvent)
    requires
        state.supervisor.phase is Connected,
        event == SupervisorEvent::Closed || event == SupervisorEvent::MonitorEnded || event == (
        SupervisorEvent::Changed { withdrawn: true }),
        event is Changed ==> state.published is None,
    ensures
        ({
            let after = connection_after(state, ConnectionEvent::Supervisor(event));
            let again = after.supervisor.after(SupervisorEvent::DelayOver);
            &&& after.supervisor.phase is Waiting
            &&& after.published is None
            &&& after.supervisor.recovering
            &&& after.supervisor.generation == state.supervisor.generation
            &&& state.supervisor.reaction(event) matches SupervisorAction::Lose {
                withdraw,
                close,
                delay,
            }
            &&& delay == 250
            &&& close == match event {
                SupervisorEvent::Closed => None,
                SupervisorEvent::MonitorEnded => Some(CloseReason::MonitorEnded),
                _ => Some(CloseReason::Invalidated),
            }
            &&& after.supervisor.reaction(SupervisorEvent::DelayOver) == SupervisorAction::Connect
            &&& again.phase is Connecting
            &&& again.recovering
        }),
{
}

/// A connection that is made is published under the next generation, and
/// nothing changes while it lasts but that it counts as stable after a while,
/// from when on the delay is the shortest again.
pub proof fn law_made_connection_is_kept(state: ConnectionState)
    requires
        state.supervisor.phase is Connecting,
        state.supervisor.generation < u64::MAX,
    ensures
        ({
            let connected = ConnectionEvent::Supervisor(SupervisorEvent::Connected);
            let lasting = ConnectionEvent::Supervisor(SupervisorEvent::Stable);
            let unchanged = SupervisorEvent::Changed { withdrawn: false };
            let after = connection_after(state, connected);
            let stable = connection_after(after, lasting);
            &&& after.published == Some((state.supervisor.generation + 1) as u64)
            &&& state.supervisor.reaction(SupervisorEvent::Connected) == SupervisorAction::Publish(
                (state.supervisor.generation + 1) as u64,
            )
            &&& after.supervisor.generation == state.supervisor.generation + 1
            &&& after.supervisor.phase is Connected
            &&& after.supervisor.backoff == state.supervisor.backoff
            &&& after.supervisor.recovering == state.supervisor.recovering
            &&& stable.published == after.published
            &&& stable.supervisor.phase is Connected
            &&& stable.supervisor.backoff == 250
            &&& stable.supervisor.generation == after.supervisor.generation
            &&& stable.supervisor.recovering == after.supervisor.recovering
            &&& after.supervisor.reaction(SupervisorEvent::Stable) == SupervisorAction::Keep
            &&& after.supervisor.after(unchanged) == after.supervisor
            &&& after.supervisor.reaction(unchanged) == SupervisorAction::Keep
            &&& stable.supervisor.after(unchanged) == stable.supervisor
            &&& stable.supervisor.reaction(unchanged) == SupervisorAction::Keep
        }),
{
}

/// An attempt that fails is followed by a wait and another attempt. Before the
/// first connection the delay doubles with each, up to five seconds; once a
/// connection was lost it is always the shortest.
pub proof fn law_failed_attempt_is_repeated(supervisor: Supervisor)
    requires
        supervisor.phase is Connecting,
    ensures
        ({
            let waiting = supervisor.after(SupervisorEvent::ConnectFailed);
            let again = waiting.after(SupervisorEvent::DelayOver);
            &&& supervisor.reaction(SupervisorEvent::ConnectFailed) == SupervisorAction::Wait(
                if supervisor.recovering {
                    250
                } else {
                    supervisor.backoff
                },
            )
            &&& waiting.phase is Waiting
            &&& waiting.reaction(SupervisorEvent::DelayOver) == SupervisorAction::Connect
            &&& again.phase is Connecting
            &&& again.generation == supervisor.generation
            &&& again.recovering == supervisor.recovering
            &&& supervisor.recovering ==> again.backoff == supervisor.backoff
            &&& !supervisor.recovering && 2 * supervisor.backoff <= 5_000 ==> again.backoff == 2
                * supervisor.backoff
            &&& !supervisor.recovering && 2 * supervisor.backoff > 5_000 ==> again.backoff == 5_000
        }),
{
}

/// A shutdown stops the supervisor wherever it is and withdraws what is
/// published. A connection that is there is closed, and only that.
pub proof fn law_shutdown_stops(state: ConnectionState)
    requires
        !(state.supervisor.phase is Stopped),
    ensures
        ({
            let event = SupervisorEvent::Shutdown;
            let after = connection_after(state, ConnectionEvent::Supervisor(event));
            &&& after.supervisor.phase is Stopped
            &&& after.published is None
            &&& state.supervisor.reaction(event) == (SupervisorAction::Stop {
                close: if state.supervisor.phase is Connected {
                    Some(CloseReason::Shutdown)
                } else {
                    None
                },
            })
        }),
{
}

/// What does not concern the phase of the supervisor changes nothing: a
/// connection is not lost before it is made, made twice, or awaited without a
/// delay.
pub proof fn law_other_events_change_nothing(supervisor: Supervisor, event: SupervisorEvent)
    requires
        event != SupervisorEvent::Shutdown,
        match supervisor.phase {
            SupervisorPhase::Connecting => !(event is ConnectFailed) && !(event is Connected),
            SupervisorPhase::Waiting => !(event is DelayOver),
            SupervisorPhase::Connected { stable } => event is ConnectFailed || event is Connected
                || event is DelayOver || (event is Stable && stable) || event == (
            SupervisorEvent::Changed { withdrawn: false }),
            SupervisorPhase::Stopped => true,
        },
    ensures
        supervisor.after(event) == supervisor,
        supervisor.reaction(event) == SupervisorAction::Keep,
{
}

/// The delays start at a quarter of a second and double up to five seconds.
pub proof fn law_backoff_doubles(n: nat)
    ensures
        backoff_after(0) == 250,
        backoff_after(n + 1) == if 2 * backoff_after(n) <= 5_000 {
            2 * backoff_after(n)
        } else {
            5_000
        },
{
}

/// A lease withdraws the connection that it is on, and no other: not one that
/// was made later, and none if nothing is published.
pub proof fn law_lease_withdraws_its_own(published: Option<u64>, lease: u64)
    ensures
        withdraws(Some(lease), lease),
        !withdraws(None, lease),
        published != Some(lease) ==> !withdraws(published, lease),
{
}

} // verus!
