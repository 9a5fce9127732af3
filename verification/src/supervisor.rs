//! The server supervisor: the transport policies that the endpoint is built
//! with, and the bookkeeping of shutdown. On interrupt the supervisor stops
//! accepting and cancels every session, and it returns when all the work it
//! started has finished.

use vstd::prelude::*;

verus! {

/// Limits that the transport endpoint is configured with.
#[derive(Clone, Copy, Debug, PartialEq, Eq, Structural)]
pub struct TransportPolicy {
    /// Unidirectional streams that a peer may open at once.
    pub max_concurrent_uni_streams: u32,
    /// Bidirectional streams that a peer may open at once.
    pub max_concurrent_bidi_streams: u32,
    /// Bytes of incoming datagrams that are buffered.
    pub datagram_receive_buffer_size: usize,
    /// Bytes that a peer may send on one stream before they are read.
    pub stream_receive_window: u32,
}

/// The policies of the server: no unidirectional streams, five
/// bidirectional ones for control, 5 KiB of datagram buffer and a 1 KiB
/// window per stream.
pub open spec fn server_policy() -> TransportPolicy {
    TransportPolicy {
        max_concurrent_uni_streams: 0,
        max_concurrent_bidi_streams: 5,
        datagram_receive_buffer_size: 5120,
        stream_receive_window: 1024,
    }
}

/// Whether a policy is within what the server allows: no unidirectional
/// streams, at most five bidirectional ones, at least 5 KiB of datagram
/// buffer and at least 1 KiB of window per stream.
pub open spec fn admissible(p: TransportPolicy) -> bool {
    &&& p.max_concurrent_uni_streams == 0
    &&& p.max_concurrent_bidi_streams <= 5
    &&& p.datagram_receive_buffer_size >= 5120
    &&& p.stream_receive_window >= 1024
}

/// The bytes of the ALPN identifier, `hq-29`.
pub open spec fn alpn_bytes() -> Seq<u8> {
    seq![104u8, 113u8, 45u8, 50u8, 57u8]
}

/// The policies that the server's endpoint is built with.
pub fn transport_policy() -> (p: TransportPolicy)
    ensures
        p == server_policy(),
        admissible(p),
{
    TransportPolicy {
        max_concurrent_uni_streams: 0,
        max_concurrent_bidi_streams: 5,
        datagram_receive_buffer_size: 5120,
        stream_receive_window: 1024,
    }
}

/// Whether a policy is within what the server allows.
pub fn check_policy(p: &TransportPolicy) -> (ok: bool)
    ensures
        ok == admissible(*p),
{
    p.max_concurrent_uni_streams == 0 && p.max_concurrent_bidi_streams <= 5
        && p.datagram_receive_buffer_size >= 5120 && p.stream_receive_window >= 1024
}

/// The ALPN identifier that the server offers.
pub fn alpn() -> (id: Vec<u8>)
    ensures
        id@ == alpn_bytes(),
{
    let mut id: Vec<u8> = Vec::new();
    id.push(104);
    id.push(113);
    id.push(45);
    id.push(50);
    id.push(57);
    assert(id@ =~= alpn_bytes());
    id
}

/// The process exit code: 0 after a clean shutdown, 1 after a failure to
/// start.
pub fn exit_code(started: bool) -> (code: u8)
    ensures
        code == (if started {
            0u8
        } else {
            1u8
        }),
{
    if started {
        0
    } else {
        1
    }
}

/// Where the supervisor stands.
#[derive(Clone, Copy, Debug, PartialEq, Eq, Structural)]
pub enum SupervisorState {
    /// Accepting connections.
    Running,
    /// Interrupted: no longer accepting, waiting for the work in flight.
    Stopping,
    /// All the work in flight has finished; the supervisor may return.
    Stopped,
}

/// The supervisor as a mathematical value.
pub struct SupervisorView {
    pub state: SupervisorState,
    /// Units of work that were started and have not finished.
    pub in_flight: nat,
}

/// The state after the interrupt: with nothing to wait for the supervisor
/// is done at once.
pub open spec fn after_interrupt(s: SupervisorView) -> SupervisorView {
    match s.state {
        SupervisorState::Running => SupervisorView {
            state: if s.in_flight == 0 {
                SupervisorState::Stopped
            } else {
                SupervisorState::Stopping
            },
            ..s
        },
        _ => s,
    }
}

/// The state after one unit of work has finished.
pub open spec fn after_finished(s: SupervisorView) -> SupervisorView {
    if s.in_flight == 0 {
        s
    } else {
        SupervisorView {
            in_flight: (s.in_flight - 1) as nat,
            state: if s.state is Stopping && s.in_flight == 1 {
                SupervisorState::Stopped
            } else {
                s.state
            },
        }
    }
}

/// The state after `n` units of work have finished.
pub open spec fn after_finishes(s: SupervisorView, n: nat) -> SupervisorView
    decreases n,
{
    if n == 0 {
        s
    } else {
        after_finished(after_finishes(s, (n - 1) as nat))
    }
}

/// Owns the shutdown: whether connections are still accepted, and how much
/// work is still running.
pub struct Supervisor {
    state: SupervisorState,
    in_flight: usize,
}

impl View for Supervisor {
    type V = SupervisorView;

    closed spec fn view(&self) -> SupervisorView {
        SupervisorView { state: self.state, in_flight: self.in_flight as nat }
    }
}

impl Supervisor {
    /// A supervisor that accepts connections and has no work in flight yet.
    pub fn new() -> (s: Supervisor)
        ensures
            s@ == (SupervisorView { state: SupervisorState::Running, in_flight: 0 }),
    {
        Supervisor { state: SupervisorState::Running, in_flight: 0 }
    }

    /// Where the supervisor stands.
    pub fn state(&self) -> (st: SupervisorState)
        ensures
            st == self@.state,
    {
        self.state
    }

    /// Units of work that were started and have not finished.
    pub fn in_flight(&self) -> (n: usize)
        ensures
            n == self@.in_flight,
    {
        self.in_flight
    }

    /// Whether connections are still accepted.
    pub fn is_accepting(&self) -> (a: bool)
        ensures
            a == (self@.state is Running),
    {
        match self.state {
            SupervisorState::Running => true,
            _ => false,
        }
    }

    /// Whether the cancellation token has been cancelled.
    pub fn is_cancelled(&self) -> (c: bool)
        ensures
            c == !(self@.state is Running),
    {
        match self.state {
            SupervisorState::Running => false,
            _ => true,
        }
    }

    /// Whether the supervisor may return.
    pub fn may_return(&self) -> (r: bool)
        ensures
            r == (self@.state is Stopped),
    {
        match self.state {
            SupervisorState::Stopped => true,
            _ => false,
        }
    }

    /// Counts one more unit of work as started, if connections are still
    /// accepted and the count has room; says whether it did.
    pub fn start_work(&mut self) -> (started: bool)
        ensures
            started == (old(self)@.state is Running && old(self)@.in_flight < usize::MAX),
            started ==> final(self)@ == (SupervisorView {
                in_flight: old(self)@.in_flight + 1,
                ..old(self)@
            }),
            !started ==> final(self)@ == old(self)@,
    {
        match self.state {
            SupervisorState::Running => {
                if self.in_flight < usize::MAX {
                    self.in_flight = self.in_flight + 1;
                    true
                } else {
                    false
                }
            },
            _ => false,
        }
    }

    /// Takes note that one unit of work has finished.
    pub fn on_finished(&mut self)
        ensures
            final(self)@ == after_finished(old(self)@),
    {
        if self.in_flight > 0 {
            self.in_flight = self.in_flight - 1;
            if self.in_flight == 0 {
                match self.state {
                    SupervisorState::Stopping => {
                        self.state = SupervisorState::Stopped;
                    },
                    _ => {},
                }
            }
        }
    }

    /// Takes in the interrupt; says whether the cancellation token is to be
    /// cancelled now, which it is the first time only.
    pub fn on_interrupt(&mut self) -> (cancel: bool)
        ensures
            cancel == (old(self)@.state is Running),
            final(self)@ == after_interrupt(old(self)@),
    {
        match self.state {
            SupervisorState::Running => {
                if self.in_flight == 0 {
                    self.state = SupervisorState::Stopped;
                } else {
                    self.state = SupervisorState::Stopping;
                }
                true
            },
            _ => false,
        }
    }
}

/// Work that finishes after the interrupt only ever lowers the count, and
/// the supervisor does not go back to accepting.
pub proof fn lemma_finishes_count_down(s: SupervisorView, n: nat)
    requires
        !(s.state is Running),
        n <= s.in_flight,
    ensures
        after_finishes(s, n).in_flight == s.in_flight - n,
        !(after_finishes(s, n).state is Running),
        s.state is Stopping && n < s.in_flight ==> after_finishes(s, n).state is Stopping,
        s.state is Stopping && n == s.in_flight && n > 0 ==> after_finishes(s, n).state is Stopped,
    decreases n,
{
    if n > 0 {
        lemma_finishes_count_down(s, (n - 1) as nat);
    }
}

/// After the interrupt the supervisor accepts nothing more, and it may
/// return exactly when all the work that was in flight has finished.
pub proof fn lemma_supervisor_stops(s: SupervisorView, n: nat)
    requires
        s.state is Running,
        n <= s.in_flight,
    ensures
        !(after_interrupt(s).state is Running),
        after_finishes(after_interrupt(s), n).state is Stopped <==> n == s.in_flight,
{
    let i = after_interrupt(s);
    if s.in_flight > 0 {
        lemma_finishes_count_down(i, n);
    } else {
        assert(n == 0);
    }
}

} // verus!
