use vstd::prelude::*;
use crate::listener::{DialDecision, RouteError, RouteListener, RouteStatus};
use crate::route::RouteDefinition;

verus! {

/// The top-level supervisor: one listener state machine per configured
/// route, each advanced independently. Every event names the route it
/// belongs to, and advancing one route leaves every other route exactly as
/// it was — a failed bind, a failed accept or a dropped connection on one
/// route never disturbs its siblings. Failed routes are reported, never
/// restarted, and never terminate the rest.
pub struct RelayEngine {
    listeners: Vec<RouteListener>,
}

impl RelayEngine {
    /// The per-route listener states.
    pub closed spec fn listeners_spec(self) -> Seq<RouteListener> {
        self.listeners@
    }

    /// Well-formedness: every route's listener is well formed.
    pub open spec fn wf(self) -> bool {
        forall|i: int|
            0 <= i < self.listeners_spec().len() ==> #[trigger] self.listeners_spec()[i].wf()
    }

    /// Builds the engine for a list of routes: one fresh listener per
    /// route, in the given order, none bound yet.
    pub fn new(routes: Vec<RouteDefinition>) -> (e: RelayEngine)
        ensures
            e.wf(),
            e.listeners_spec().len() == routes@.len(),
            forall|i: int|
                0 <= i < routes@.len() ==> {
                    let l = #[trigger] e.listeners_spec()[i];
                    &&& l.status_spec() == RouteStatus::Starting
                    &&& l.open_sessions() == 0
                    &&& l.source() == routes@[i].source@
                    &&& l.destination() == routes@[i].destination@
                },
    {
        let ghost orig = routes@;
        let mut rest = routes;
        let mut listeners: Vec<RouteListener> = Vec::new();
        while rest.len() > 0
            invariant
                orig.len() == listeners@.len() + rest@.len(),
                rest@ == orig.skip(listeners@.len() as int),
                forall|i: int|
                    0 <= i < listeners@.len() ==> {
                        let l = #[trigger] listeners@[i];
                        &&& l.wf()
                        &&& l.status_spec() == RouteStatus::Starting
                        &&& l.open_sessions() == 0
                        &&& l.source() == orig[i].source@
                        &&& l.destination() == orig[i].destination@
                    },
            decreases rest@.len(),
        {
            let ghost k = listeners@.len() as int;
            let r = rest.remove(0);
            proof {
                assert(orig.skip(k)[0] == orig[k]);
                assert(orig.skip(k).remove(0) =~= orig.skip(k + 1));
            }
            let l = RouteListener::new(r);
            listeners.push(l);
        }
        RelayEngine { listeners }
    }

    /// The number of configured routes.
    pub fn route_count(&self) -> (n: usize)
        ensures
            n == self.listeners_spec().len(),
    {
        self.listeners.len()
    }

    /// Reads the status of route `i`.
    pub fn status_of(&self, i: usize) -> (r: RouteStatus)
        requires
            i < self.listeners_spec().len(),
        ensures
            r == self.listeners_spec()[i as int].status_spec(),
    {
        self.listeners[i].status()
    }

    /// Reads the connection counter of route `i`.
    pub fn connection_count_of(&self, i: usize) -> (n: i64)
        requires
            i < self.listeners_spec().len(),
        ensures
            n as int == self.listeners_spec()[i as int].counter_value(),
    {
        self.listeners[i].connection_count()
    }

    /// Borrows the listen address of route `i`.
    pub fn source_address_of(&self, i: usize) -> (r: &Vec<u8>)
        requires
            i < self.listeners_spec().len(),
        ensures
            r@ == self.listeners_spec()[i as int].source(),
    {
        self.listeners[i].source_address()
    }

    /// Borrows the destination address of route `i`.
    pub fn destination_address_of(&self, i: usize) -> (r: &Vec<u8>)
        requires
            i < self.listeners_spec().len(),
        ensures
            r@ == self.listeners_spec()[i as int].destination(),
    {
        self.listeners[i].destination_address()
    }

    /// Records the bind outcome for route `i`. A failed bind stops route
    /// `i` alone: every other configured route is left exactly as it was,
    /// free to start and serve traffic.
    pub fn on_bind_result(&mut self, i: usize, ok: bool)
        requires
            old(self).wf(),
            i < old(self).listeners_spec().len(),
            old(self).listeners_spec()[i as int].status_spec() == RouteStatus::Starting,
        ensures
            final(self).wf(),
            final(self).listeners_spec().len() == old(self).listeners_spec().len(),
            forall|j: int|
                0 <= j < old(self).listeners_spec().len() && j != i ==> #[trigger] final(self).listeners_spec()[j] == old(self).listeners_spec()[j],
            final(self).listeners_spec()[i as int].status_spec() == (if ok {
                RouteStatus::Listening
            } else {
                RouteStatus::Stopped(RouteError::BindFailed)
            }),
            final(self).listeners_spec()[i as int].counter_value() == old(self).listeners_spec()[i as int].counter_value(),
            final(self).listeners_spec()[i as int].source() == old(self).listeners_spec()[
                i as int].source(),
            final(self).listeners_spec()[i as int].destination() == old(self).listeners_spec()[i as int].destination(),
    {
        let ghost before = self.listeners@;
        let mut l = self.listeners.remove(i);
        l.on_bind_result(ok);
        let ghost lv = l;
        self.listeners.insert(i, l);
        proof {
            assert(self.listeners@ =~= before.update(i as int, lv));
        }
    }

    /// Records one accept outcome for route `i`: a failure stops that
    /// route's listener alone; a success keeps it listening and the shell
    /// dials the destination next. Other routes are untouched.
    pub fn on_accept_result(&mut self, i: usize, ok: bool)
        requires
            old(self).wf(),
            i < old(self).listeners_spec().len(),
            old(self).listeners_spec()[i as int].status_spec() == RouteStatus::Listening,
        ensures
            final(self).wf(),
            final(self).listeners_spec().len() == old(self).listeners_spec().len(),
            forall|j: int|
                0 <= j < old(self).listeners_spec().len() && j != i ==> #[trigger] final(self).listeners_spec()[j] == old(self).listeners_spec()[j],
            final(self).listeners_spec()[i as int].status_spec() == (if ok {
                RouteStatus::Listening
            } else {
                RouteStatus::Stopped(RouteError::AcceptFailed)
            }),
            final(self).listeners_spec()[i as int].counter_value() == old(self).listeners_spec()[i as int].counter_value(),
            final(self).listeners_spec()[i as int].source() == old(self).listeners_spec()[
                i as int].source(),
            final(self).listeners_spec()[i as int].destination() == old(self).listeners_spec()[i as int].destination(),
    {
        let ghost before = self.listeners@;
        let mut l = self.listeners.remove(i);
        l.on_accept_result(ok);
        let ghost lv = l;
        self.listeners.insert(i, l);
        proof {
            assert(self.listeners@ =~= before.update(i as int, lv));
        }
    }

    /// Records one dial outcome for route `i` and decides what the shell
    /// does with the accepted inbound connection: spawn a counted relay
    /// session, or drop it and keep accepting. Other routes are untouched.
    pub fn on_dial_result(&mut self, i: usize, ok: bool) -> (d: DialDecision)
        requires
            old(self).wf(),
            i < old(self).listeners_spec().len(),
            old(self).listeners_spec()[i as int].status_spec() == RouteStatus::Listening,
            old(self).listeners_spec()[i as int].counter_value() < i64::MAX,
        ensures
            final(self).wf(),
            final(self).listeners_spec().len() == old(self).listeners_spec().len(),
            forall|j: int|
                0 <= j < old(self).listeners_spec().len() && j != i ==> #[trigger] final(self).listeners_spec()[j] == old(self).listeners_spec()[j],
            final(self).listeners_spec()[i as int].status_spec() == RouteStatus::Listening,
            final(self).listeners_spec()[i as int].source() == old(self).listeners_spec()[
                i as int].source(),
            final(self).listeners_spec()[i as int].destination() == old(self).listeners_spec()[i as int].destination(),
            ok ==> d == DialDecision::SpawnRelay && final(self).listeners_spec()[
                i as int].counter_value() == old(self).listeners_spec()[
                i as int].counter_value() + 1 && final(self).listeners_spec()[
                i as int].open_sessions() == old(self).listeners_spec()[
                i as int].open_sessions() + 1,
            !ok ==> d == DialDecision::DropInbound && final(self).listeners_spec()[
                i as int].counter_value() == old(self).listeners_spec()[
                i as int].counter_value() && final(self).listeners_spec()[
                i as int].open_sessions() == old(self).listeners_spec()[
                i as int].open_sessions(),
    {
        let ghost before = self.listeners@;
        let mut l = self.listeners.remove(i);
        let d = l.on_dial_result(ok);
        let ghost lv = l;
        self.listeners.insert(i, l);
        proof {
            assert(self.listeners@ =~= before.update(i as int, lv));
        }
        d
    }

    /// Records that one relay session of route `i` ended: its counter
    /// comes back down by one. Other routes are untouched.
    pub fn on_session_closed(&mut self, i: usize)
        requires
            old(self).wf(),
            i < old(self).listeners_spec().len(),
            old(self).listeners_spec()[i as int].open_sessions() > 0,
        ensures
            final(self).wf(),
            final(self).listeners_spec().len() == old(self).listeners_spec().len(),
            forall|j: int|
                0 <= j < old(self).listeners_spec().len() && j != i ==> #[trigger] final(self).listeners_spec()[j] == old(self).listeners_spec()[j],
            final(self).listeners_spec()[i as int].counter_value() == old(self).listeners_spec()[i as int].counter_value() - 1,
            final(self).listeners_spec()[i as int].open_sessions() == old(self).listeners_spec()[i as int].open_sessions() - 1,
            final(self).listeners_spec()[i as int].status_spec() == old(self).listeners_spec()[i as int].status_spec(),
            final(self).listeners_spec()[i as int].source() == old(self).listeners_spec()[
                i as int].source(),
            final(self).listeners_spec()[i as int].destination() == old(self).listeners_spec()[i as int].destination(),
    {
        let ghost before = self.listeners@;
        let mut l = self.listeners.remove(i);
        l.on_session_closed();
        let ghost lv = l;
        self.listeners.insert(i, l);
        proof {
            assert(self.listeners@ =~= before.update(i as int, lv));
        }
    }
}

} // verus!
