use vstd::prelude::*;

verus! {

/// The size of the buffer that each direction of a relay reads into.
pub const BUF_SIZE: usize = 8192;

/// What a direction of the relay asks of its caller next.
#[derive(Debug, PartialEq, Eq)]
pub enum PumpAction {
    /// Read at most `BUF_SIZE` bytes from the ingress.
    Read,
    /// Write these bytes to the egress.
    Write(Vec<u8>),
    /// The direction is over: end the connection.
    Stop,
}

/// One direction of a relay: it hands every byte read from its ingress to its egress,
/// chunk by chunk, in order.
pub struct Pump {
    unsent: Vec<u8>,
    ended: bool,
    ingress: Ghost<Seq<u8>>,
    egress: Ghost<Seq<u8>>,
}

impl Pump {
    /// Every byte read so far, in order.
    pub closed spec fn ingress(&self) -> Seq<u8> {
        self.ingress@
    }

    /// Every byte written so far, in order.
    pub closed spec fn egress(&self) -> Seq<u8> {
        self.egress@
    }

    /// The bytes read and not yet written.
    pub closed spec fn unsent(&self) -> Seq<u8> {
        self.unsent@
    }

    pub closed spec fn ended(&self) -> bool {
        self.ended
    }

    pub closed spec fn wf(&self) -> bool {
        &&& self.egress@ + self.unsent@ == self.ingress@
        &&& self.unsent@.len() <= BUF_SIZE
    }

    pub fn new() -> (r: Pump)
        ensures
            r.wf(),
            r.ingress() == Seq::<u8>::empty(),
            r.egress() == Seq::<u8>::empty(),
            r.unsent() == Seq::<u8>::empty(),
            !r.ended(),
    {
        Pump { unsent: Vec::new(), ended: false, ingress: Ghost(Seq::empty()), egress: Ghost(Seq::empty()) }
    }

    pub fn is_ended(&self) -> (r: bool)
        ensures
            r == self.ended(),
    {
        self.ended
    }

    /// A read returned `chunk`; an empty chunk is the end of the stream, which ends the
    /// direction. Otherwise the whole chunk is to be written.
    pub fn on_read(&mut self, chunk: &[u8]) -> (r: PumpAction)
        requires
            old(self).wf(),
            !old(self).ended(),
            old(self).unsent().len() == 0,
            chunk@.len() <= BUF_SIZE,
        ensures
            final(self).wf(),
            final(self).egress() == old(self).egress(),
            final(self).ingress() == old(self).ingress() + chunk@,
            final(self).unsent() == chunk@,
            chunk@.len() == 0 ==> r == PumpAction::Stop && final(self).ended(),
            chunk@.len() > 0 ==> !final(self).ended() && (r matches PumpAction::Write(w) && w@
                == chunk@),
    {
        if chunk.len() == 0 {
            self.ended = true;
            assert(self.ingress@ + chunk@ =~= self.ingress@);
            self.ingress = Ghost(self.ingress@ + chunk@);
            return PumpAction::Stop;
        }
        let mut v: Vec<u8> = Vec::new();
        let mut i: usize = 0;
        while i < chunk.len()
            invariant
                i <= chunk@.len(),
                v@ == chunk@.take(i as int),
            decreases chunk@.len() - i,
        {
            v.push(chunk[i]);
            i = i + 1;
            assert(v@ =~= chunk@.take(i as int));
        }
        assert(chunk@.take(chunk@.len() as int) =~= chunk@);
        self.ingress = Ghost(self.ingress@ + chunk@);
        assert(self.egress@ + chunk@ =~= self.ingress@) by {
            assert(old(self).unsent@.len() == 0);
            assert(old(self).egress@ =~= old(self).ingress@);
        }
        self.unsent = v.clone();
        PumpAction::Write(v)
    }

    /// A write took the first `n` unsent bytes. A write that takes none ends the direction;
    /// once all are taken the next read is due, else the rest is to be written.
    pub fn on_written(&mut self, n: usize) -> (r: PumpAction)
        requires
            old(self).wf(),
            !old(self).ended(),
            n <= old(self).unsent().len(),
        ensures
            final(self).wf(),
            final(self).ingress() == old(self).ingress(),
            final(self).egress() == old(self).egress() + old(self).unsent().take(n as int),
            final(self).unsent() == old(self).unsent().skip(n as int),
            n == 0 ==> r == PumpAction::Stop && final(self).ended(),
            n > 0 && n == old(self).unsent().len() ==> r == PumpAction::Read
                && !final(self).ended(),
            n > 0 && n < old(self).unsent().len() ==> !final(self).ended() && (
            r matches PumpAction::Write(w) && w@ == final(self).unsent()),
    {
        let ghost u = self.unsent@;
        if n == 0 {
            self.ended = true;
            assert(u.take(0) =~= Seq::<u8>::empty());
            assert(u.skip(0) =~= u);
            assert(self.egress@ + u.take(0) =~= self.egress@);
            return PumpAction::Stop;
        }
        let mut rest: Vec<u8> = Vec::new();
        let mut i: usize = n;
        while i < self.unsent.len()
            invariant
                n <= i <= self.unsent@.len(),
                self.unsent@ == u,
                rest@ == u.subrange(n as int, i as int),
            decreases self.unsent@.len() - i,
        {
            rest.push(self.unsent[i]);
            i = i + 1;
            assert(rest@ =~= u.subrange(n as int, i as int));
        }
        assert(rest@ =~= u.skip(n as int));
        self.egress = Ghost(self.egress@ + u.take(n as int));
        assert(self.egress@ + rest@ =~= self.ingress@) by {
            assert(u =~= u.take(n as int) + u.skip(n as int));
        }
        self.unsent = rest.clone();
        if rest.len() == 0 {
            PumpAction::Read
        } else {
            PumpAction::Write(rest)
        }
    }

    /// A read or a write failed: the direction ends.
    pub fn on_error(&mut self) -> (r: PumpAction)
        requires
            old(self).wf(),
        ensures
            final(self).wf(),
            final(self).ended(),
            final(self).ingress() == old(self).ingress(),
            final(self).egress() == old(self).egress(),
            final(self).unsent() == old(self).unsent(),
            r == PumpAction::Stop,
    {
        self.ended = true;
        PumpAction::Stop
    }
}

/// Whatever chunks were read and however the writes split them, the bytes written are the
/// bytes read, in order, with nothing lost, doubled or moved; once no byte waits, the two
/// are equal.
pub proof fn lemma_pump_exact(p: &Pump)
    requires
        p.wf(),
    ensures
        p.egress() + p.unsent() == p.ingress(),
        p.egress().len() <= p.ingress().len(),
        p.egress() == p.ingress().take(p.egress().len() as int),
        p.unsent().len() == 0 ==> p.egress() == p.ingress(),
{
    assert(p.ingress().take(p.egress().len() as int) =~= p.egress());
    if p.unsent().len() == 0 {
        assert(p.egress() + p.unsent() =~= p.egress());
    }
}

/// Where a connection stands.
#[derive(Clone, Copy, Debug, PartialEq, Eq, Structural)]
pub enum ConnState {
    Accepted,
    Connecting,
    Relaying,
    Closed,
    Failed,
}

/// The two directions of a relay.
#[derive(Clone, Copy, Debug, PartialEq, Eq, Structural)]
pub enum Direction {
    ClientToServer,
    ServerToClient,
}

/// What happened to a connection.
#[derive(Clone, Copy, Debug, PartialEq, Eq, Structural)]
pub enum ConnEvent {
    /// The supervisor took the connection in hand.
    Start,
    /// The outbound stream is open.
    Connected,
    /// The outbound stream could not be opened.
    ConnectFailed,
    /// A direction read the end of its stream.
    PeerClosed(Direction),
    /// A read or a write of a direction failed.
    IoFailed(Direction),
}

/// What the caller is to do for a connection.
#[derive(Clone, Copy, Debug, PartialEq, Eq, Structural)]
pub enum ConnAction {
    /// Open the outbound stream.
    Connect,
    /// Run both directions.
    StartRelay,
    /// Cancel both directions and close both sockets.
    CloseBoth,
    /// Cancel both directions, close both sockets and report the I/O error.
    CloseBothAndReport,
    /// Close the client socket and report that the outbound stream could not be opened.
    DropAndReport,
    /// Nothing.
    Nothing,
}

/// The life of one connection: `Accepted`, `Connecting`, then `Relaying` or `Failed`, and
/// from `Relaying` to `Closed` when the first of its two directions ends. `Closed` and
/// `Failed` are final; an event that does not fit the state changes nothing.
pub open spec fn conn_step(s: ConnState, e: ConnEvent) -> (ConnState, ConnAction) {
    match (s, e) {
        (ConnState::Accepted, ConnEvent::Start) => (ConnState::Connecting, ConnAction::Connect),
        (ConnState::Connecting, ConnEvent::Connected) => (ConnState::Relaying, ConnAction::StartRelay),
        (ConnState::Connecting, ConnEvent::ConnectFailed) => (ConnState::Failed, ConnAction::DropAndReport),
        (ConnState::Relaying, ConnEvent::PeerClosed(_)) => (ConnState::Closed, ConnAction::CloseBoth),
        (ConnState::Relaying, ConnEvent::IoFailed(_)) => (ConnState::Closed, ConnAction::CloseBothAndReport),
        _ => (s, ConnAction::Nothing),
    }
}

pub fn next_state(s: ConnState, e: ConnEvent) -> (r: (ConnState, ConnAction))
    ensures
        r == conn_step(s, e),
{
    match (s, e) {
        (ConnState::Accepted, ConnEvent::Start) => (ConnState::Connecting, ConnAction::Connect),
        (ConnState::Connecting, ConnEvent::Connected) => (ConnState::Relaying, ConnAction::StartRelay),
        (ConnState::Connecting, ConnEvent::ConnectFailed) => (ConnState::Failed, ConnAction::DropAndReport),
        (ConnState::Relaying, ConnEvent::PeerClosed(_)) => (ConnState::Closed, ConnAction::CloseBoth),
        (ConnState::Relaying, ConnEvent::IoFailed(_)) => (ConnState::Closed, ConnAction::CloseBothAndReport),
        _ => (s, ConnAction::Nothing),
    }
}

/// Whether an action cancels both directions and closes both sockets.
pub open spec fn closes_both(a: ConnAction) -> bool {
    a == ConnAction::CloseBoth || a == ConnAction::CloseBothAndReport
}

/// Ending either direction of a relaying connection, by a peer's close or by an I/O error,
/// closes both sockets and cancels the other direction in that one step, and the
/// connection then stays closed whatever comes after.
pub proof fn lemma_first_end_closes(d: Direction, failed: bool, later: ConnEvent)
    ensures
        ({
            let e = if failed {
                ConnEvent::IoFailed(d)
            } else {
                ConnEvent::PeerClosed(d)
            };
            let (s, a) = conn_step(ConnState::Relaying, e);
            &&& s == ConnState::Closed
            &&& closes_both(a)
            &&& conn_step(s, later) == (ConnState::Closed, ConnAction::Nothing)
        }),
{
}

/// A connection never goes back: from `Closed` or `Failed` no event leads anywhere else.
pub proof fn lemma_single_shot(s: ConnState, e: ConnEvent)
    requires
        s == ConnState::Closed || s == ConnState::Failed,
    ensures
        conn_step(s, e) == (s, ConnAction::Nothing),
{
}

} // verus!
