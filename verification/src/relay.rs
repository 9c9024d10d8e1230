use vstd::prelude::*;

verus! {

/// Size in bytes of the read buffer the shell should use for each copy step.
pub const RELAY_BUFFER_SIZE: usize = 1024;

/// Which way bytes are flowing through a relay session.
#[derive(Clone, Copy, PartialEq, Eq, Structural, Debug)]
pub enum Direction {
    /// From the accepted inbound connection toward the dialed destination.
    ClientToServer,
    /// From the dialed destination back toward the inbound connection.
    ServerToClient,
}

/// Why a relay session ended.
#[derive(Clone, Copy, PartialEq, Eq, Structural, Debug)]
pub enum CloseReason {
    /// One stream reached end of input (a read returned zero bytes).
    Eof,
    /// A read or a write failed.
    IoFailure,
}

/// What one read on one of the two streams produced: `Data` carries the
/// bytes of a successful read (possibly none, which means end of input),
/// `Failed` stands for a read error.
pub enum ReadOutcome {
    Data(Vec<u8>),
    Failed,
}

/// What the shell must do next with the session: write the given bytes to
/// the opposite stream, or close both streams.
pub enum RelayAction {
    Forward(Vec<u8>),
    Shutdown,
}

/// A session event, at the specification level: a read on one direction
/// (`Some` bytes on success, `None` on a read error), or the completion of
/// a forwarded write (`true` on success).
pub enum SessionEvent {
    Read(Direction, Option<Seq<u8>>),
    WriteDone(Direction, bool),
}

/// The mathematical state of one relay session: whether it is still
/// relaying, why it closed, the bytes read from and written to each
/// direction so far, and the chunk currently handed to the shell for
/// writing but not yet confirmed.
#[verifier::ext_equal]
pub struct SessionModel {
    pub open: bool,
    pub reason: Option<CloseReason>,
    pub c2s_read: Seq<u8>,
    pub c2s_written: Seq<u8>,
    pub s2c_read: Seq<u8>,
    pub s2c_written: Seq<u8>,
    pub pending: Option<(Direction, Seq<u8>)>,
}

impl SessionModel {
    /// Bytes read so far from the source stream of direction `d`.
    pub open spec fn read_log(self, d: Direction) -> Seq<u8> {
        match d {
            Direction::ClientToServer => self.c2s_read,
            Direction::ServerToClient => self.s2c_read,
        }
    }

    /// Bytes confirmed written so far to the sink stream of direction `d`.
    pub open spec fn written_log(self, d: Direction) -> Seq<u8> {
        match d {
            Direction::ClientToServer => self.c2s_written,
            Direction::ServerToClient => self.s2c_written,
        }
    }

    /// `self` with `b` appended to the read log of direction `d`.
    pub open spec fn with_read(self, d: Direction, b: Seq<u8>) -> SessionModel {
        match d {
            Direction::ClientToServer => SessionModel { c2s_read: self.c2s_read + b, ..self },
            Direction::ServerToClient => SessionModel { s2c_read: self.s2c_read + b, ..self },
        }
    }

    /// `self` with `b` appended to the written log of direction `d`.
    pub open spec fn with_written(self, d: Direction, b: Seq<u8>) -> SessionModel {
        match d {
            Direction::ClientToServer => SessionModel { c2s_written: self.c2s_written + b, ..self },
            Direction::ServerToClient => SessionModel { s2c_written: self.s2c_written + b, ..self },
        }
    }

    /// `self` closed for reason `r`; a chunk still in flight is discarded
    /// with the connection.
    pub open spec fn closed(self, r: CloseReason) -> SessionModel {
        SessionModel { open: false, reason: Some(r), pending: None, ..self }
    }
}

/// A fresh session: open, nothing read, nothing written, no write in flight.
pub open spec fn session_init() -> SessionModel {
    SessionModel {
        open: true,
        reason: None,
        c2s_read: Seq::empty(),
        c2s_written: Seq::empty(),
        s2c_read: Seq::empty(),
        s2c_written: Seq::empty(),
        pending: None,
    }
}

/// How one event advances a session. A read of zero bytes is end of input;
/// the first end of input or failure, in either direction, closes the whole
/// session. Events on a closed session, reads while a write is still in
/// flight, and write completions that match no in-flight write change
/// nothing (the shell never produces them).
pub open spec fn session_step(m: SessionModel, e: SessionEvent) -> SessionModel {
    if !m.open {
        m
    } else {
        match e {
            SessionEvent::Read(d, out) => {
                if m.pending is Some {
                    m
                } else {
                    match out {
                        Some(b) => {
                            if b.len() == 0 {
                                m.closed(CloseReason::Eof)
                            } else {
                                SessionModel { pending: Some((d, b)), ..m.with_read(d, b) }
                            }
                        },
                        None => m.closed(CloseReason::IoFailure),
                    }
                }
            },
            SessionEvent::WriteDone(d, ok) => {
                match m.pending {
                    Some(p) => {
                        if p.0 == d {
                            if ok {
                                SessionModel { pending: None, ..m.with_written(d, p.1) }
                            } else {
                                m.closed(CloseReason::IoFailure)
                            }
                        } else {
                            m
                        }
                    },
                    None => m,
                }
            },
        }
    }
}

/// A session advanced by a whole trace of events, first event first.
pub open spec fn session_run(m: SessionModel, t: Seq<SessionEvent>) -> SessionModel
    decreases t.len(),
{
    if t.len() == 0 {
        m
    } else {
        session_run(session_step(m, t[0]), t.skip(1))
    }
}

/// The forwarding guarantee for one direction: the bytes written out are
/// exactly the bytes read in, in the same order. While a chunk is in
/// flight it is precisely the missing suffix; after a clean close (end of
/// input) the logs agree exactly; after an I/O failure the written log is
/// still a prefix of the read log — bytes are never reordered, altered or
/// invented, only cut short with the failed connection.
pub open spec fn direction_ok(m: SessionModel, d: Direction) -> bool {
    match m.pending {
        Some(p) => {
            if p.0 == d {
                p.1.len() > 0 && m.written_log(d) + p.1 == m.read_log(d)
            } else {
                m.written_log(d) == m.read_log(d)
            }
        },
        None => {
            if m.open || m.reason == Some(CloseReason::Eof) {
                m.written_log(d) == m.read_log(d)
            } else {
                m.written_log(d).is_prefix_of(m.read_log(d))
            }
        },
    }
}

/// Well-formedness of a session state.
pub open spec fn session_wf(m: SessionModel) -> bool {
    &&& (m.open <==> m.reason is None)
    &&& (m.pending is Some ==> m.open)
    &&& direction_ok(m, Direction::ClientToServer)
    &&& direction_ok(m, Direction::ServerToClient)
}

/// A quiescent session: no write is in flight, and the session is either
/// still open or was closed by a clean end of input.
pub open spec fn session_quiescent(m: SessionModel) -> bool {
    m.pending is None && (m.open || m.reason == Some(CloseReason::Eof))
}

/// The bytes of a read outcome, or `None` for a failed read.
pub open spec fn read_view(o: ReadOutcome) -> Option<Seq<u8>> {
    match o {
        ReadOutcome::Data(b) => Some(b@),
        ReadOutcome::Failed => None,
    }
}

/// One relay session: the decision core of the per-connection duplex copy.
/// The shell reads from the two sockets, hands each outcome to `on_read`,
/// performs the returned action, and reports write completions back through
/// `on_write_result`; the session decides when everything stops.
pub struct RelaySession {
    open: bool,
    reason: Option<CloseReason>,
    pending: Option<Direction>,
    c2s_read: Ghost<Seq<u8>>,
    c2s_written: Ghost<Seq<u8>>,
    s2c_read: Ghost<Seq<u8>>,
    s2c_written: Ghost<Seq<u8>>,
    pending_bytes: Ghost<Seq<u8>>,
    events: Ghost<Seq<SessionEvent>>,
}

impl RelaySession {
    /// Every event this session has been fed, oldest first.
    pub closed spec fn trace(self) -> Seq<SessionEvent> {
        self.events@
    }

    /// A session is well formed when its state is exactly what its trace
    /// of events produces from a fresh session. `new` establishes this and
    /// every method keeps it.
    pub open spec fn wf(self) -> bool {
        self.model() == session_run(session_init(), self.trace())
    }

    /// The mathematical state this session is in.
    pub closed spec fn model(self) -> SessionModel {
        SessionModel {
            open: self.open,
            reason: self.reason,
            c2s_read: self.c2s_read@,
            c2s_written: self.c2s_written@,
            s2c_read: self.s2c_read@,
            s2c_written: self.s2c_written@,
            pending: match self.pending {
                Some(d) => Some((d, self.pending_bytes@)),
                None => None,
            },
        }
    }

    /// Starts a session for one freshly paired connection.
    pub fn new() -> (s: RelaySession)
        ensures
            s.model() == session_init(),
            s.trace() == Seq::<SessionEvent>::empty(),
            s.wf(),
    {
        let s = RelaySession {
            open: true,
            reason: None,
            pending: None,
            c2s_read: Ghost(Seq::empty()),
            c2s_written: Ghost(Seq::empty()),
            s2c_read: Ghost(Seq::empty()),
            s2c_written: Ghost(Seq::empty()),
            pending_bytes: Ghost(Seq::empty()),
            events: Ghost(Seq::empty()),
        };
        proof {
            assert(s.model() =~= session_init());
        }
        s
    }

    /// Whether the session is still relaying.
    pub fn is_open(&self) -> (r: bool)
        ensures
            r == self.model().open,
    {
        self.open
    }

    /// Why the session closed, once it has.
    pub fn close_reason(&self) -> (r: Option<CloseReason>)
        ensures
            r == self.model().reason,
    {
        self.reason
    }

    /// Decides what to do with the outcome of one read on direction `dir`:
    /// a non-empty read is forwarded unchanged to the opposite stream; a
    /// zero-byte read or a failed read closes the session at once — the
    /// other direction is not drained further.
    pub fn on_read(&mut self, dir: Direction, outcome: ReadOutcome) -> (a: RelayAction)
        requires
            old(self).model().open,
            old(self).model().pending is None,
        ensures
            final(self).model() == session_step(
                old(self).model(),
                SessionEvent::Read(dir, read_view(outcome)),
            ),
            final(self).trace() == old(self).trace().push(
                SessionEvent::Read(dir, read_view(outcome)),
            ),
            old(self).wf() ==> final(self).wf(),
            match outcome {
                ReadOutcome::Data(b) => {
                    if b@.len() > 0 {
                        &&& (a matches RelayAction::Forward(c) && c@ == b@)
                        &&& final(self).model().open
                        &&& final(self).model().pending == Some((dir, b@))
                    } else {
                        &&& a is Shutdown
                        &&& !final(self).model().open
                        &&& final(self).model().reason == Some(CloseReason::Eof)
                    }
                },
                ReadOutcome::Failed => {
                    &&& a is Shutdown
                    &&& !final(self).model().open
                    &&& final(self).model().reason == Some(CloseReason::IoFailure)
                },
            },
    {
        let ghost m0 = self.model();
        let ghost t0 = self.events@;
        let ghost ev = SessionEvent::Read(dir, read_view(outcome));
        proof {
            lemma_run_snoc(session_init(), t0, ev);
        }
        match outcome {
            ReadOutcome::Data(buf) => {
                if buf.len() == 0 {
                    self.open = false;
                    self.reason = Some(CloseReason::Eof);
                    self.events = Ghost(t0.push(ev));
                    proof {
                        assert(self.model() =~= session_step(
                            m0,
                            SessionEvent::Read(dir, Some(buf@)),
                        ));
                    }
                    RelayAction::Shutdown
                } else {
                    match dir {
                        Direction::ClientToServer => {
                            self.c2s_read = Ghost(self.c2s_read@ + buf@);
                        },
                        Direction::ServerToClient => {
                            self.s2c_read = Ghost(self.s2c_read@ + buf@);
                        },
                    }
                    self.pending = Some(dir);
                    self.pending_bytes = Ghost(buf@);
                    self.events = Ghost(t0.push(ev));
                    proof {
                        assert(self.model() =~= session_step(
                            m0,
                            SessionEvent::Read(dir, Some(buf@)),
                        ));
                    }
                    RelayAction::Forward(buf)
                }
            },
            ReadOutcome::Failed => {
                self.open = false;
                self.reason = Some(CloseReason::IoFailure);
                self.events = Ghost(t0.push(ev));
                proof {
                    assert(self.model() =~= session_step(m0, SessionEvent::Read(dir, None)));
                }
                RelayAction::Shutdown
            },
        }
    }

    /// Records the completion of the forwarded write on direction `dir`:
    /// on success the chunk is now delivered and the session goes on; on
    /// failure the session closes at once. Returns whether the session is
    /// still open.
    pub fn on_write_result(&mut self, dir: Direction, ok: bool) -> (still_open: bool)
        requires
            old(self).model().open,
            old(self).model().pending matches Some(p) && p.0 == dir,
        ensures
            final(self).model() == session_step(
                old(self).model(),
                SessionEvent::WriteDone(dir, ok),
            ),
            final(self).trace() == old(self).trace().push(SessionEvent::WriteDone(dir, ok)),
            old(self).wf() ==> final(self).wf(),
            still_open == final(self).model().open,
            ok ==> final(self).model().open && final(self).model().pending is None,
            !ok ==> !final(self).model().open
                && final(self).model().reason == Some(CloseReason::IoFailure),
    {
        let ghost m0 = self.model();
        let ghost t0 = self.events@;
        let ghost ev = SessionEvent::WriteDone(dir, ok);
        proof {
            lemma_run_snoc(session_init(), t0, ev);
        }
        if ok {
            match dir {
                Direction::ClientToServer => {
                    self.c2s_written = Ghost(self.c2s_written@ + self.pending_bytes@);
                },
                Direction::ServerToClient => {
                    self.s2c_written = Ghost(self.s2c_written@ + self.pending_bytes@);
                },
            }
            self.pending = None;
            self.events = Ghost(t0.push(ev));
            proof {
                assert(self.model() =~= session_step(m0, SessionEvent::WriteDone(dir, ok)));
            }
            true
        } else {
            self.open = false;
            self.reason = Some(CloseReason::IoFailure);
            self.pending = None;
            self.events = Ghost(t0.push(ev));
            proof {
                assert(self.model() =~= session_step(m0, SessionEvent::WriteDone(dir, ok)));
            }
            false
        }
    }
}

/// Running a trace extended by one event is the same as running the trace
/// and then stepping once.
pub proof fn lemma_run_snoc(m: SessionModel, t: Seq<SessionEvent>, e: SessionEvent)
    ensures
        session_run(m, t.push(e)) == session_step(session_run(m, t), e),
    decreases t.len(),
{
    if t.len() == 0 {
        assert(t.push(e)[0] == e);
        assert(t.push(e).skip(1) =~= Seq::<SessionEvent>::empty());
        assert(session_run(m, t.push(e)) == session_run(
            session_step(m, e),
            t.push(e).skip(1),
        ));
        assert(session_run(session_step(m, e), Seq::<SessionEvent>::empty()) == session_step(
            m,
            e,
        ));
    } else {
        assert(t.push(e)[0] == t[0]);
        assert(t.push(e).skip(1) =~= t.skip(1).push(e));
        lemma_run_snoc(session_step(m, t[0]), t.skip(1), e);
        assert(session_run(m, t.push(e)) == session_run(
            session_step(m, t[0]),
            t.skip(1).push(e),
        ));
        assert(session_run(m, t) == session_run(session_step(m, t[0]), t.skip(1)));
    }
}

/// Every step keeps a session well formed.
pub proof fn lemma_step_preserves_wf(m: SessionModel, e: SessionEvent)
    requires
        session_wf(m),
    ensures
        session_wf(session_step(m, e)),
{
    let m1 = session_step(m, e);
    match e {
        SessionEvent::Read(d, out) => {
            if m.open && m.pending is None {
                match out {
                    Some(b) => {
                        if b.len() > 0 {
                            assert(m1.read_log(d) == m.read_log(d) + b);
                        }
                    },
                    None => {},
                }
            }
        },
        SessionEvent::WriteDone(d, ok) => {
            if m.open {
                match m.pending {
                    Some(p) => {
                        if p.0 == d {
                            if ok {
                                assert(m1.written_log(d) == m.written_log(d) + p.1);
                            } else {
                                assert(m.written_log(d).is_prefix_of(m.written_log(d) + p.1));
                                assert(m1.written_log(d).is_prefix_of(m1.read_log(d)));
                            }
                        }
                    },
                    None => {},
                }
            }
        },
    }
}

/// A whole trace keeps a session well formed.
pub proof fn lemma_run_preserves_wf(m: SessionModel, t: Seq<SessionEvent>)
    requires
        session_wf(m),
    ensures
        session_wf(session_run(m, t)),
    decreases t.len(),
{
    if t.len() > 0 {
        lemma_step_preserves_wf(m, t[0]);
        lemma_run_preserves_wf(session_step(m, t[0]), t.skip(1));
    }
}

/// Law: byte-exact, order-preserving, full-duplex forwarding. However a
/// fresh session is driven, in each direction the bytes written out are a
/// prefix of the bytes read in — never reordered, altered or invented.
/// Whenever no write is in flight, a session that is still open, or closed
/// by a clean end of input, has written out exactly what it read, in order,
/// in both directions.
pub proof fn lemma_byte_exact_forwarding(t: Seq<SessionEvent>)
    ensures
        session_wf(session_run(session_init(), t)),
        forall|d: Direction|
            #[trigger] session_run(session_init(), t).written_log(d).is_prefix_of(
                session_run(session_init(), t).read_log(d),
            ),
        session_quiescent(session_run(session_init(), t)) ==> forall|d: Direction|
            #[trigger] session_run(session_init(), t).written_log(d) == session_run(
                session_init(),
                t,
            ).read_log(d),
{
    lemma_run_preserves_wf(session_init(), t);
    let m = session_run(session_init(), t);
    assert forall|d: Direction| #[trigger] m.written_log(d).is_prefix_of(m.read_log(d)) by {
        assert(direction_ok(m, d));
        lemma_direction_ok_prefix(m, d);
    }
}

/// In a well-formed session each direction's written log is a prefix of its
/// read log, whichever case of `direction_ok` holds.
proof fn lemma_direction_ok_prefix(m: SessionModel, d: Direction)
    requires
        direction_ok(m, d),
    ensures
        m.written_log(d).is_prefix_of(m.read_log(d)),
{
    match m.pending {
        Some(p) => {
            if p.0 == d {
                assert(m.written_log(d).is_prefix_of(m.written_log(d) + p.1));
            } else {
                assert(m.written_log(d).is_prefix_of(m.written_log(d)));
            }
        },
        None => {
            if m.open || m.reason == Some(CloseReason::Eof) {
                assert(m.written_log(d).is_prefix_of(m.written_log(d)));
            }
        },
    }
}

/// Law, on the session type itself: a well-formed session — one reached
/// from `new` by any sequence of calls — has, in each direction, written
/// out a prefix of what it read, and exactly what it read whenever it is
/// quiescent.
pub proof fn lemma_session_byte_exact(s: RelaySession)
    requires
        s.wf(),
    ensures
        session_wf(s.model()),
        forall|d: Direction| #[trigger] s.model().written_log(d).is_prefix_of(
            s.model().read_log(d),
        ),
        session_quiescent(s.model()) ==> forall|d: Direction| #[trigger] s.model().written_log(
            d,
        ) == s.model().read_log(d),
{
    lemma_byte_exact_forwarding(s.trace());
}

/// The events of one session, picked out of an interleaved trace over two
/// simultaneous sessions on the same route. The tag `true` selects the
/// first session, `false` the second.
pub open spec fn project_events(t: Seq<(bool, SessionEvent)>, id: bool) -> Seq<SessionEvent>
    decreases t.len(),
{
    if t.len() == 0 {
        Seq::empty()
    } else {
        let rest = project_events(t.skip(1), id);
        if t[0].0 == id {
            seq![t[0].1] + rest
        } else {
            rest
        }
    }
}

/// Two simultaneous sessions driven by one interleaved trace, each event
/// applied to the session its tag names.
pub open spec fn run_pair(
    a: SessionModel,
    b: SessionModel,
    t: Seq<(bool, SessionEvent)>,
) -> (SessionModel, SessionModel)
    decreases t.len(),
{
    if t.len() == 0 {
        (a, b)
    } else if t[0].0 {
        run_pair(session_step(a, t[0].1), b, t.skip(1))
    } else {
        run_pair(a, session_step(b, t[0].1), t.skip(1))
    }
}

/// Law: two simultaneous connections on the same route are fully isolated.
/// However the events of two sessions interleave, each session ends in
/// exactly the state it would reach run alone on its own events; in
/// particular no byte of one connection's streams ever appears in the
/// other's.
pub proof fn lemma_session_isolation(
    a: SessionModel,
    b: SessionModel,
    t: Seq<(bool, SessionEvent)>,
)
    ensures
        run_pair(a, b, t).0 == session_run(a, project_events(t, true)),
        run_pair(a, b, t).1 == session_run(b, project_events(t, false)),
    decreases t.len(),
{
    if t.len() > 0 {
        let e = t[0].1;
        let rest = t.skip(1);
        if t[0].0 {
            lemma_session_isolation(session_step(a, e), b, rest);
            assert((seq![e] + project_events(rest, true)).skip(1) =~= project_events(
                rest,
                true,
            ));
        } else {
            lemma_session_isolation(a, session_step(b, e), rest);
            assert((seq![e] + project_events(rest, false)).skip(1) =~= project_events(
                rest,
                false,
            ));
        }
    }
}

} // verus!
