//! The per-connection relay as a state machine. It decides; whoever owns the
//! sockets performs the action it asks for and reports what happened.

use vstd::prelude::*;

verus! {

/// Which of the four phases of an exchange a connection is in.
#[derive(Clone, Copy, Debug, PartialEq, Eq, Structural)]
pub enum ConnectionState {
    /// Collecting the client's bytes until the client stops sending.
    ClientReading,
    /// Passing the collected bytes on to the server.
    ServerWriting,
    /// Collecting the server's bytes until the server stops sending.
    ServerReading,
    /// Passing the collected bytes back to the client.
    ClientWriting,
}

/// The socket operation a pump waits for.
#[derive(Clone, Copy, Debug, PartialEq, Eq, Structural)]
pub enum Action {
    /// Read from the client socket.
    ReadClient,
    /// Write the whole send buffer to the server socket, then shut down the
    /// write half of that socket.
    WriteServer,
    /// Read from the server socket.
    ReadServer,
    /// Write the whole receive buffer to the client socket.
    WriteClient,
}

/// What came of the socket operation.
#[derive(Clone, Copy, Debug)]
pub enum Event<'a> {
    /// A read returned these bytes; none means the peer stopped sending.
    Read(&'a [u8]),
    /// The write, and the shutdown where one was asked for, went through.
    Written,
    /// The socket is not ready.
    WouldBlock,
    /// The operation failed for any other reason.
    Failed,
}

/// `Event` with its bytes as a sequence.
pub enum EventView {
    Read(Seq<u8>),
    Written,
    WouldBlock,
    Failed,
}

impl<'a> View for Event<'a> {
    type V = EventView;

    open spec fn view(&self) -> EventView {
        match *self {
            Event::Read(data) => EventView::Read(data@),
            Event::Written => EventView::Written,
            Event::WouldBlock => EventView::WouldBlock,
            Event::Failed => EventView::Failed,
        }
    }
}

/// What the owner of the sockets does next.
#[derive(Clone, Copy, Debug, PartialEq, Eq, Structural)]
pub enum Verdict {
    /// Perform the pump's current action.
    Continue,
    /// Wait until the socket is ready, then perform the same action again.
    Suspend,
    /// Report the failure and drop the pump with both sockets.
    Fail,
}

impl ConnectionState {
    /// The phase that follows this one. The order is fixed and has no end.
    pub open spec fn successor(self) -> ConnectionState {
        match self {
            ConnectionState::ClientReading => ConnectionState::ServerWriting,
            ConnectionState::ServerWriting => ConnectionState::ServerReading,
            ConnectionState::ServerReading => ConnectionState::ClientWriting,
            ConnectionState::ClientWriting => ConnectionState::ClientReading,
        }
    }

    /// The socket operation that belongs to this phase.
    pub open spec fn action_spec(self) -> Action {
        match self {
            ConnectionState::ClientReading => Action::ReadClient,
            ConnectionState::ServerWriting => Action::WriteServer,
            ConnectionState::ServerReading => Action::ReadServer,
            ConnectionState::ClientWriting => Action::WriteClient,
        }
    }

    /// The phase that follows this one.
    pub fn next(self) -> (r: ConnectionState)
        ensures
            r == self.successor(),
    {
        match self {
            ConnectionState::ClientReading => ConnectionState::ServerWriting,
            ConnectionState::ServerWriting => ConnectionState::ServerReading,
            ConnectionState::ServerReading => ConnectionState::ClientWriting,
            ConnectionState::ClientWriting => ConnectionState::ClientReading,
        }
    }

    /// The socket operation that belongs to this phase.
    pub fn action(self) -> (r: Action)
        ensures
            r == self.action_spec(),
    {
        match self {
            ConnectionState::ClientReading => Action::ReadClient,
            ConnectionState::ServerWriting => Action::WriteServer,
            ConnectionState::ServerReading => Action::ReadServer,
            ConnectionState::ClientWriting => Action::WriteClient,
        }
    }
}

/// A pump as contracts see it.
pub struct PumpView {
    pub state: ConnectionState,
    /// Bytes collected from the client, for the server.
    pub send_buf: Seq<u8>,
    /// Bytes collected from the server, for the client.
    pub recv_buf: Seq<u8>,
}

/// The pump after `event`, and what its owner does next.
///
/// A socket that is not ready, and a failure, leave the pump as it is. In a
/// reading phase, bytes that were read join that phase's buffer, and a read
/// of nothing moves on. In a writing phase, a completed write moves on and
/// leaves both buffers as they are. An event that cannot answer the phase's
/// action is a failure.
pub open spec fn step_spec(pump: PumpView, event: EventView) -> (PumpView, Verdict) {
    match event {
        EventView::WouldBlock => (pump, Verdict::Suspend),
        EventView::Failed => (pump, Verdict::Fail),
        EventView::Read(data) => match pump.state {
            ConnectionState::ClientReading => if data.len() == 0 {
                (PumpView { state: pump.state.successor(), ..pump }, Verdict::Continue)
            } else {
                (PumpView { send_buf: pump.send_buf + data, ..pump }, Verdict::Continue)
            },
            ConnectionState::ServerReading => if data.len() == 0 {
                (PumpView { state: pump.state.successor(), ..pump }, Verdict::Continue)
            } else {
                (PumpView { recv_buf: pump.recv_buf + data, ..pump }, Verdict::Continue)
            },
            _ => (pump, Verdict::Fail),
        },
        EventView::Written => match pump.state {
            ConnectionState::ServerWriting | ConnectionState::ClientWriting => (
                PumpView { state: pump.state.successor(), ..pump },
                Verdict::Continue,
            ),
            _ => (pump, Verdict::Fail),
        },
    }
}

/// The pump after each of `events` in turn.
pub open spec fn run_spec(pump: PumpView, events: Seq<EventView>) -> PumpView
    decreases events.len(),
{
    if events.len() == 0 {
        pump
    } else {
        step_spec(run_spec(pump, events.drop_last()), events.last()).0
    }
}

/// Relays one exchange between a client and a server, phase by phase.
pub struct Pump {
    state: ConnectionState,
    send_buf: Vec<u8>,
    recv_buf: Vec<u8>,
}

impl View for Pump {
    type V = PumpView;

    closed spec fn view(&self) -> PumpView {
        PumpView { state: self.state, send_buf: self.send_buf@, recv_buf: self.recv_buf@ }
    }
}

impl Pump {
    /// A pump for a fresh connection: nothing collected, waiting for the
    /// client.
    pub fn new() -> (pump: Pump)
        ensures
            pump@ == (PumpView {
                state: ConnectionState::ClientReading,
                send_buf: Seq::empty(),
                recv_buf: Seq::empty(),
            }),
    {
        Pump { state: ConnectionState::ClientReading, send_buf: Vec::new(), recv_buf: Vec::new() }
    }

    /// The current phase.
    pub fn state(&self) -> (r: ConnectionState)
        ensures
            r == self@.state,
    {
        self.state
    }

    /// The socket operation the pump waits for.
    pub fn action(&self) -> (r: Action)
        ensures
            r == self@.state.action_spec(),
    {
        self.state.action()
    }

    /// The bytes collected from the client.
    pub fn send_buf(&self) -> (r: &[u8])
        ensures
            r@ == self@.send_buf,
    {
        self.send_buf.as_slice()
    }

    /// The bytes collected from the server.
    pub fn recv_buf(&self) -> (r: &[u8])
        ensures
            r@ == self@.recv_buf,
    {
        self.recv_buf.as_slice()
    }

    /// Takes in what came of the current action and says what to do next.
    pub fn step(&mut self, event: Event) -> (verdict: Verdict)
        ensures
            (final(self)@, verdict) == step_spec(old(self)@, event@),
    {
        match event {
            Event::WouldBlock => Verdict::Suspend,
            Event::Failed => Verdict::Fail,
            Event::Read(data) => match self.state {
                ConnectionState::ClientReading => {
                    if data.len() == 0 {
                        self.state = self.state.next();
                    } else {
                        append(&mut self.send_buf, data);
                    }
                    Verdict::Continue
                },
                ConnectionState::ServerReading => {
                    if data.len() == 0 {
                        self.state = self.state.next();
                    } else {
                        append(&mut self.recv_buf, data);
                    }
                    Verdict::Continue
                },
                _ => Verdict::Fail,
            },
            Event::Written => match self.state {
                ConnectionState::ServerWriting | ConnectionState::ClientWriting => {
                    self.state = self.state.next();
                    Verdict::Continue
                },
                _ => Verdict::Fail,
            },
        }
    }
}

fn append(buf: &mut Vec<u8>, data: &[u8])
    ensures
        final(buf)@ == old(buf)@ + data@,
{
    let ghost before = buf@;
    buf.extend_from_slice(data);
    assert(buf@ =~= before + data@);
}

/// The phases follow one another in a fixed cycle of four: no phase follows
/// itself, and the fourth successor of a phase is that phase.
pub proof fn lemma_cycle(s: ConnectionState)
    ensures
        s.successor() != s,
        s.successor().successor() != s,
        s.successor().successor().successor() != s,
        s.successor().successor().successor().successor() == s,
{
}

/// Whatever happens, a pump keeps its phase or enters the next one, what it
/// has collected is never lost or reordered, and a failure never changes it.
pub proof fn lemma_step_is_monotone(pump: PumpView, event: EventView)
    ensures
        ({
            let (after, verdict) = step_spec(pump, event);
            &&& (after.state == pump.state || after.state == pump.state.successor())
            &&& pump.send_buf.is_prefix_of(after.send_buf)
            &&& pump.recv_buf.is_prefix_of(after.recv_buf)
            &&& (verdict != Verdict::Continue ==> after == pump)
        }),
{
}

/// One whole exchange: the client's bytes, the end of its sending, the write
/// to the server, the server's bytes, the end of its sending and the write to
/// the client bring a fresh pump back to its first phase, holding exactly the
/// client's bytes for the server and the server's bytes for the client.
pub proof fn lemma_exchange(request: Seq<u8>, response: Seq<u8>)
    requires
        request.len() > 0,
        response.len() > 0,
    ensures
        ({
            let fresh = PumpView {
                state: ConnectionState::ClientReading,
                send_buf: Seq::empty(),
                recv_buf: Seq::empty(),
            };
            let events = seq![
                EventView::Read(request),
                EventView::Read(Seq::empty()),
                EventView::Written,
                EventView::Read(response),
                EventView::Read(Seq::empty()),
                EventView::Written,
            ];
            run_spec(fresh, events) == (PumpView {
                state: ConnectionState::ClientReading,
                send_buf: request,
                recv_buf: response,
            })
        }),
{
    let fresh = PumpView {
        state: ConnectionState::ClientReading,
        send_buf: Seq::empty(),
        recv_buf: Seq::empty(),
    };
    let events = seq![
        EventView::Read(request),
        EventView::Read(Seq::empty()),
        EventView::Written,
        EventView::Read(response),
        EventView::Read(Seq::empty()),
        EventView::Written,
    ];
    let e5 = events.drop_last();
    let e4 = e5.drop_last();
    let e3 = e4.drop_last();
    let e2 = e3.drop_last();
    let e1 = e2.drop_last();
    let e0 = e1.drop_last();
    assert(e0.len() == 0);
    assert(run_spec(fresh, e0) == fresh);
    assert(Seq::<u8>::empty() + request =~= request);
    assert(Seq::<u8>::empty() + response =~= response);
    assert(run_spec(fresh, e1).send_buf == request);
    assert(run_spec(fresh, e2).state == ConnectionState::ServerWriting);
    assert(run_spec(fresh, e3).state == ConnectionState::ServerReading);
    assert(run_spec(fresh, e4).recv_buf == response);
    assert(run_spec(fresh, e5).state == ConnectionState::ClientWriting);
}

} // verus!
