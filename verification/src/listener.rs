use vstd::prelude::*;
use crate::counter::ConnectionCounter;
use crate::route::RouteDefinition;

verus! {

/// Why a route's listener stopped. Both are fatal for that route only:
/// sibling routes and already-running relay sessions are unaffected.
#[derive(Clone, Copy, PartialEq, Eq, Structural, Debug)]
pub enum RouteError {
    /// The listen address could not be bound.
    BindFailed,
    /// An accept call on the bound socket failed.
    AcceptFailed,
}

/// The lifecycle of one route's listener: created, then bound and
/// accepting, or stopped for good.
#[derive(Clone, Copy, PartialEq, Eq, Structural, Debug)]
pub enum RouteStatus {
    /// Created, bind not attempted yet.
    Starting,
    /// Bound and accepting inbound connections.
    Listening,
    /// Stopped permanently; no retry.
    Stopped(RouteError),
}

/// What the shell must do after reporting a dial result: start an
/// independent relay session for the paired connections, or drop the
/// inbound connection and keep accepting.
#[derive(Clone, Copy, PartialEq, Eq, Structural, Debug)]
pub enum DialDecision {
    SpawnRelay,
    DropInbound,
}

/// The decision core of one route's accept loop. The shell binds, accepts
/// and dials; this state machine decides what each outcome means: a failed
/// bind or accept stops this route alone, a failed dial drops only that
/// inbound connection, and a successful dial opens one counted relay
/// session. The counter tracks exactly the sessions opened here and not
/// yet reported closed.
pub struct RouteListener {
    route: RouteDefinition,
    status: RouteStatus,
    counter: ConnectionCounter,
    sessions: Ghost<int>,
}

impl RouteListener {
    /// The bytes of the listen address.
    pub closed spec fn source(self) -> Seq<u8> {
        self.route.source@
    }

    /// The bytes of the destination address.
    pub closed spec fn destination(self) -> Seq<u8> {
        self.route.destination@
    }

    /// Where this route's listener is in its lifecycle.
    pub closed spec fn status_spec(self) -> RouteStatus {
        self.status
    }

    /// The value of the route's connection counter.
    pub closed spec fn counter_value(self) -> int {
        self.counter.count()
    }

    /// The number of relay sessions opened on this route and not yet
    /// reported closed.
    pub closed spec fn open_sessions(self) -> int {
        self.sessions@
    }

    /// Well-formedness: the counter is exactly the number of
    /// currently-open relay sessions, and never negative.
    pub open spec fn wf(self) -> bool {
        &&& self.counter_value() == self.open_sessions()
        &&& self.open_sessions() >= 0
    }

    /// Creates the listener state for one route; nothing is bound yet and
    /// no session is open.
    pub fn new(route: RouteDefinition) -> (l: RouteListener)
        ensures
            l.wf(),
            l.status_spec() == RouteStatus::Starting,
            l.open_sessions() == 0,
            l.source() == route.source@,
            l.destination() == route.destination@,
    {
        RouteListener {
            route,
            status: RouteStatus::Starting,
            counter: ConnectionCounter::new(),
            sessions: Ghost(0),
        }
    }

    /// Reads the listener's status.
    pub fn status(&self) -> (r: RouteStatus)
        ensures
            r == self.status_spec(),
    {
        self.status
    }

    /// Reads the route's connection counter.
    pub fn connection_count(&self) -> (n: i64)
        ensures
            n as int == self.counter_value(),
    {
        self.counter.current()
    }

    /// Borrows the listen address, for the shell to bind.
    pub fn source_address(&self) -> (r: &Vec<u8>)
        ensures
            r@ == self.source(),
    {
        &self.route.source
    }

    /// Borrows the destination address, for the shell to dial.
    pub fn destination_address(&self) -> (r: &Vec<u8>)
        ensures
            r@ == self.destination(),
    {
        &self.route.destination
    }

    /// Records the outcome of binding the listen address. A failed bind is
    /// fatal for this route only: the listener stops permanently and is
    /// never retried.
    pub fn on_bind_result(&mut self, ok: bool)
        requires
            old(self).wf(),
            old(self).status_spec() == RouteStatus::Starting,
        ensures
            final(self).wf(),
            final(self).status_spec() == (if ok {
                RouteStatus::Listening
            } else {
                RouteStatus::Stopped(RouteError::BindFailed)
            }),
            final(self).open_sessions() == old(self).open_sessions(),
            final(self).counter_value() == old(self).counter_value(),
            final(self).source() == old(self).source(),
            final(self).destination() == old(self).destination(),
    {
        if ok {
            self.status = RouteStatus::Listening;
        } else {
            self.status = RouteStatus::Stopped(RouteError::BindFailed);
        }
    }

    /// Records the outcome of one accept call. A failed accept stops this
    /// route's listener permanently, exactly as a failed bind does; a
    /// successful accept keeps it listening, and the shell goes on to dial
    /// the destination for the new inbound connection.
    pub fn on_accept_result(&mut self, ok: bool)
        requires
            old(self).wf(),
            old(self).status_spec() == RouteStatus::Listening,
        ensures
            final(self).wf(),
            final(self).status_spec() == (if ok {
                RouteStatus::Listening
            } else {
                RouteStatus::Stopped(RouteError::AcceptFailed)
            }),
            final(self).open_sessions() == old(self).open_sessions(),
            final(self).counter_value() == old(self).counter_value(),
            final(self).source() == old(self).source(),
            final(self).destination() == old(self).destination(),
    {
        if !ok {
            self.status = RouteStatus::Stopped(RouteError::AcceptFailed);
        }
    }

    /// Records the outcome of dialing the destination for one accepted
    /// inbound connection. A failed dial is non-fatal: that inbound
    /// connection is dropped, nothing is counted, and the listener keeps
    /// accepting. A successful dial opens exactly one relay session and
    /// raises the counter by one.
    pub fn on_dial_result(&mut self, ok: bool) -> (d: DialDecision)
        requires
            old(self).wf(),
            old(self).status_spec() == RouteStatus::Listening,
            old(self).counter_value() < i64::MAX,
        ensures
            final(self).wf(),
            final(self).status_spec() == RouteStatus::Listening,
            final(self).source() == old(self).source(),
            final(self).destination() == old(self).destination(),
            ok ==> d == DialDecision::SpawnRelay && final(self).open_sessions() == old(
                self,
            ).open_sessions() + 1 && final(self).counter_value() == old(self).counter_value()
                + 1,
            !ok ==> d == DialDecision::DropInbound && final(self).open_sessions() == old(
                self,
            ).open_sessions() && final(self).counter_value() == old(self).counter_value(),
    {
        if ok {
            let _ = self.counter.increment();
            self.sessions = Ghost(self.sessions@ + 1);
            DialDecision::SpawnRelay
        } else {
            DialDecision::DropInbound
        }
    }

    /// Records that one of this route's relay sessions ended, whether
    /// cleanly or on an error: the counter comes back down by exactly one.
    /// The listener itself may have stopped in the meantime; sessions
    /// outlive it independently.
    pub fn on_session_closed(&mut self)
        requires
            old(self).wf(),
            old(self).open_sessions() > 0,
        ensures
            final(self).wf(),
            final(self).open_sessions() == old(self).open_sessions() - 1,
            final(self).counter_value() == old(self).counter_value() - 1,
            final(self).status_spec() == old(self).status_spec(),
            final(self).source() == old(self).source(),
            final(self).destination() == old(self).destination(),
    {
        let _ = self.counter.decrement();
        self.sessions = Ghost(self.sessions@ - 1);
    }
}

/// Law: the connection counter of a well-formed route equals the number of
/// its currently-open relay sessions — it goes up by exactly one per
/// successfully dialed connection and down by exactly one when that
/// session ends, however the session ended.
pub proof fn lemma_counter_matches_sessions(l: RouteListener)
    requires
        l.wf(),
    ensures
        l.counter_value() == l.open_sessions(),
{
}

} // verus!
