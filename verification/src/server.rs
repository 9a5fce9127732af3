//! The server's front door: admission and shutdown taken together. A
//! connection that is let in is one unit of work in flight; while the
//! server runs there are never more of them than the connection limit, and
//! after the interrupt none is let in any more.

use vstd::prelude::*;
use crate::admission::{
    after_admit,
    after_close,
    decision_for,
    AdmissionDecision,
    AdmissionView,
    ConnectionAdmission,
};
use crate::supervisor::{
    after_finished,
    after_interrupt,
    Supervisor,
    SupervisorState,
    SupervisorView,
};

verus! {

/// What to do with an incoming connection.
#[derive(Clone, Copy, Debug, PartialEq, Eq, Structural)]
pub enum Incoming {
    /// Accept it and run a session on it.
    Serve,
    /// Refuse it.
    Refuse,
    /// Ask the peer to come back with an address-validation token.
    Retry,
}

/// The front door as a mathematical value.
pub struct ServerView {
    pub supervisor: SupervisorView,
    pub admission: AdmissionView,
}

/// What is done with an incoming connection: nothing is let in after the
/// interrupt; before it, admission decides.
pub open spec fn incoming_for(s: ServerView, address_validated: bool) -> Incoming {
    if !(s.supervisor.state is Running) {
        Incoming::Refuse
    } else {
        match decision_for(s.admission, address_validated) {
            AdmissionDecision::Admitted => Incoming::Serve,
            AdmissionDecision::RefusedOverLimit => Incoming::Refuse,
            AdmissionDecision::RequireAddressValidation => Incoming::Retry,
        }
    }
}

/// The front door after an incoming connection was dealt with: one that is
/// served counts as open and as work in flight.
pub open spec fn after_incoming(s: ServerView, address_validated: bool) -> ServerView {
    if incoming_for(s, address_validated) is Serve {
        ServerView {
            supervisor: SupervisorView { in_flight: s.supervisor.in_flight + 1, ..s.supervisor },
            admission: after_admit(s.admission, address_validated),
        }
    } else {
        s
    }
}

/// The front door after a session has ended.
pub open spec fn after_session_closed(s: ServerView) -> ServerView {
    ServerView {
        supervisor: after_finished(s.supervisor),
        admission: after_close(s.admission),
    }
}

/// The front door after the interrupt.
pub open spec fn after_server_interrupt(s: ServerView) -> ServerView {
    ServerView { supervisor: after_interrupt(s.supervisor), ..s }
}

/// What holds of the front door at all times: every open connection is a
/// unit of work in flight and the other way round, and there are no more
/// of them than the limit.
pub open spec fn balanced(s: ServerView) -> bool {
    s.supervisor.in_flight == s.admission.open && s.admission.open <= s.admission.limit
}

/// Admission and shutdown of one server.
pub struct Server {
    supervisor: Supervisor,
    admission: ConnectionAdmission,
}

impl View for Server {
    type V = ServerView;

    closed spec fn view(&self) -> ServerView {
        ServerView { supervisor: self.supervisor@, admission: self.admission@ }
    }
}

impl Server {
    /// The front door is balanced.
    pub closed spec fn wf(&self) -> bool {
        self.admission.wf() && balanced(self@)
    }

    /// A running server with no connection open.
    pub fn new(connection_limit: usize) -> (s: Server)
        ensures
            s.wf(),
            balanced(s@),
            s@.supervisor == (SupervisorView { state: SupervisorState::Running, in_flight: 0 }),
            s@.admission == (AdmissionView { open: 0, limit: connection_limit as nat }),
    {
        Server { supervisor: Supervisor::new(), admission: ConnectionAdmission::new(connection_limit) }
    }

    /// Connections that are open.
    pub fn open_connections(&self) -> (n: usize)
        ensures
            n == self@.admission.open,
    {
        self.admission.open_connections()
    }

    /// Whether connections are still accepted.
    pub fn is_accepting(&self) -> (a: bool)
        ensures
            a == (self@.supervisor.state is Running),
    {
        self.supervisor.is_accepting()
    }

    /// Whether the server may return: the interrupt has come and no work is
    /// in flight.
    pub fn may_return(&self) -> (r: bool)
        ensures
            r == (self@.supervisor.state is Stopped),
    {
        self.supervisor.may_return()
    }

    /// Decides on an incoming connection, and counts it if it is served.
    pub fn on_incoming(&mut self, address_validated: bool) -> (what: Incoming)
        requires
            old(self).wf(),
        ensures
            final(self).wf(),
            balanced(final(self)@),
            what == incoming_for(old(self)@, address_validated),
            final(self)@ == after_incoming(old(self)@, address_validated),
    {
        if !self.supervisor.is_accepting() {
            return Incoming::Refuse;
        }
        proof {
            self.admission.lemma_counts_fit();
        }
        match self.admission.try_admit(address_validated) {
            AdmissionDecision::Admitted => {
                let started = self.supervisor.start_work();
                assert(started);
                Incoming::Serve
            },
            AdmissionDecision::RefusedOverLimit => Incoming::Refuse,
            AdmissionDecision::RequireAddressValidation => Incoming::Retry,
        }
    }

    /// Takes note that a session has ended: its connection is no longer
    /// open and its work no longer in flight.
    pub fn on_session_closed(&mut self)
        requires
            old(self).wf(),
        ensures
            final(self).wf(),
            balanced(final(self)@),
            final(self)@ == after_session_closed(old(self)@),
    {
        self.admission.on_closed();
        self.supervisor.on_finished();
    }

    /// Takes in the interrupt; says whether the cancellation token is to be
    /// cancelled now, which it is the first time only.
    pub fn on_interrupt(&mut self) -> (cancel: bool)
        requires
            old(self).wf(),
        ensures
            final(self).wf(),
            balanced(final(self)@),
            cancel == (old(self)@.supervisor.state is Running),
            final(self)@ == after_server_interrupt(old(self)@),
    {
        self.supervisor.on_interrupt()
    }
}

/// The front door stays balanced whatever happens: open connections and
/// work in flight are counted alike and never pass the limit.
pub proof fn lemma_server_stays_balanced(s: ServerView, address_validated: bool)
    requires
        balanced(s),
    ensures
        balanced(after_incoming(s, address_validated)),
        balanced(after_session_closed(s)),
        balanced(after_server_interrupt(s)),
{
}

/// After the interrupt no connection is served, and the server may return
/// as soon as the last session has ended.
pub proof fn lemma_server_winds_down(s: ServerView, address_validated: bool)
    requires
        balanced(s),
        !(s.supervisor.state is Running),
    ensures
        incoming_for(s, address_validated) is Refuse,
        after_incoming(s, address_validated) == s,
        !(after_session_closed(s).supervisor.state is Running),
        s.supervisor.state is Stopping && s.supervisor.in_flight == 1 ==> after_session_closed(
            s,
        ).supervisor.state is Stopped,
{
}

} // verus!
