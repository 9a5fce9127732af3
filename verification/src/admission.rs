//! Connection admission: how many transport connections are open, how many
//! may be, and what to do with the next one that knocks.

use vstd::prelude::*;

verus! {

/// What to do with an incoming connection.
#[derive(Clone, Copy, Debug, PartialEq, Eq, Structural)]
pub enum AdmissionDecision {
    /// Accept it; it now counts as open.
    Admitted,
    /// Refuse it: as many connections are open as may be.
    RefusedOverLimit,
    /// Ask the peer to come back with an address-validation token.
    RequireAddressValidation,
}

/// The admission state as a mathematical value.
pub struct AdmissionView {
    /// Connections admitted and not yet closed.
    pub open: nat,
    /// Most connections that may be open at once.
    pub limit: nat,
}

/// The decision for the next connection. The limit is looked at first, then
/// whether the transport has validated the peer's address.
pub open spec fn decision_for(a: AdmissionView, address_validated: bool) -> AdmissionDecision {
    if a.open >= a.limit {
        AdmissionDecision::RefusedOverLimit
    } else if !address_validated {
        AdmissionDecision::RequireAddressValidation
    } else {
        AdmissionDecision::Admitted
    }
}

/// The state after the next connection was decided on: only an admitted one
/// is counted.
pub open spec fn after_admit(a: AdmissionView, address_validated: bool) -> AdmissionView {
    if decision_for(a, address_validated) is Admitted {
        AdmissionView { open: a.open + 1, ..a }
    } else {
        a
    }
}

/// The state after a session has reported that it is closed.
pub open spec fn after_close(a: AdmissionView) -> AdmissionView {
    if a.open > 0 {
        AdmissionView { open: (a.open - 1) as nat, ..a }
    } else {
        a
    }
}

/// The state after `n` peers with validated addresses have knocked, one
/// after the other.
pub open spec fn after_admits(a: AdmissionView, n: nat) -> AdmissionView
    decreases n,
{
    if n == 0 {
        a
    } else {
        after_admit(after_admits(a, (n - 1) as nat), true)
    }
}

/// Decides on a connection from the number of connections that the transport
/// reports as open.
pub fn decide(open: usize, limit: usize, address_validated: bool) -> (d: AdmissionDecision)
    ensures
        d == decision_for(AdmissionView { open: open as nat, limit: limit as nat }, address_validated),
{
    if open >= limit {
        AdmissionDecision::RefusedOverLimit
    } else if !address_validated {
        AdmissionDecision::RequireAddressValidation
    } else {
        AdmissionDecision::Admitted
    }
}

/// What a server without a fixed policy does with an incoming connection.
#[derive(Clone, Copy, Debug, PartialEq, Eq, Structural)]
pub enum Screening {
    /// Refuse it: as many connections are open as may be.
    RefuseOverLimit,
    /// Refuse it: its address is blocked.
    RefuseBlocked,
    /// Ask the peer to come back with an address-validation token.
    Retry,
    Accept,
}

/// The screening of a connection where the limit and address validation
/// are optional and one address may be blocked: the limit is looked at
/// first, then the block, then the validation.
pub open spec fn screening_for(
    open: usize,
    limit: Option<usize>,
    blocked: bool,
    stateless_retry: bool,
    address_validated: bool,
) -> Screening {
    if limit matches Some(n) && open >= n {
        Screening::RefuseOverLimit
    } else if blocked {
        Screening::RefuseBlocked
    } else if stateless_retry && !address_validated {
        Screening::Retry
    } else {
        Screening::Accept
    }
}

/// Screens a connection where the limit and address validation are
/// optional and one address may be blocked.
pub fn screen(
    open: usize,
    limit: Option<usize>,
    blocked: bool,
    stateless_retry: bool,
    address_validated: bool,
) -> (s: Screening)
    ensures
        s == screening_for(open, limit, blocked, stateless_retry, address_validated),
{
    let over = match limit {
        Some(n) => open >= n,
        None => false,
    };
    if over {
        Screening::RefuseOverLimit
    } else if blocked {
        Screening::RefuseBlocked
    } else if stateless_retry && !address_validated {
        Screening::Retry
    } else {
        Screening::Accept
    }
}

/// With a limit, address validation and no block, screening comes to the
/// same as the fixed policy.
pub proof fn lemma_screening_agrees(open: usize, limit: usize, address_validated: bool)
    ensures
        match decision_for(
            AdmissionView { open: open as nat, limit: limit as nat },
            address_validated,
        ) {
            AdmissionDecision::Admitted => screening_for(
                open,
                Some(limit),
                false,
                true,
                address_validated,
            ) is Accept,
            AdmissionDecision::RefusedOverLimit => screening_for(
                open,
                Some(limit),
                false,
                true,
                address_validated,
            ) is RefuseOverLimit,
            AdmissionDecision::RequireAddressValidation => screening_for(
                open,
                Some(limit),
                false,
                true,
                address_validated,
            ) is Retry,
        },
{
}

/// Counts the open connections against the limit set at startup.
pub struct ConnectionAdmission {
    open: usize,
    limit: usize,
}

impl View for ConnectionAdmission {
    type V = AdmissionView;

    closed spec fn view(&self) -> AdmissionView {
        AdmissionView { open: self.open as nat, limit: self.limit as nat }
    }
}

impl ConnectionAdmission {
    /// Never more connections are open than may be.
    pub closed spec fn wf(&self) -> bool {
        self.open <= self.limit
    }

    /// Both counts are machine numbers.
    pub proof fn lemma_counts_fit(&self)
        ensures
            self@.open <= usize::MAX,
            self@.limit <= usize::MAX,
    {
    }

    /// No connection open, at most `limit` admitted at once.
    pub fn new(limit: usize) -> (a: ConnectionAdmission)
        ensures
            a.wf(),
            a@ == (AdmissionView { open: 0, limit: limit as nat }),
    {
        ConnectionAdmission { open: 0, limit }
    }

    /// Connections admitted and not yet closed.
    pub fn open_connections(&self) -> (n: usize)
        ensures
            n == self@.open,
    {
        self.open
    }

    /// Most connections that may be open at once.
    pub fn connection_limit(&self) -> (n: usize)
        ensures
            n == self@.limit,
    {
        self.limit
    }

    /// Decides on an incoming connection and counts it if it is admitted.
    pub fn try_admit(&mut self, address_validated: bool) -> (d: AdmissionDecision)
        requires
            old(self).wf(),
        ensures
            final(self).wf(),
            d == decision_for(old(self)@, address_validated),
            final(self)@ == after_admit(old(self)@, address_validated),
    {
        let d = decide(self.open, self.limit, address_validated);
        match d {
            AdmissionDecision::Admitted => {
                self.open = self.open + 1;
            },
            _ => {},
        }
        d
    }

    /// Takes note that a session has reported Closed.
    pub fn on_closed(&mut self)
        requires
            old(self).wf(),
        ensures
            final(self).wf(),
            final(self)@ == after_close(old(self)@),
    {
        if self.open > 0 {
            self.open = self.open - 1;
        }
    }
}

/// From an empty state, the first `n` validated peers up to the limit are
/// all admitted and counted.
pub proof fn lemma_admits_up_to_limit(limit: nat, n: nat)
    requires
        n <= limit,
    ensures
        after_admits(AdmissionView { open: 0, limit }, n) == (AdmissionView { open: n, limit }),
    decreases n,
{
    if n > 0 {
        lemma_admits_up_to_limit(limit, (n - 1) as nat);
    }
}

/// Admission cap. With a limit of `k`, after `k` connections were admitted
/// the next one is refused, validated or not, and is not counted; and once
/// one of the open ones has closed, exactly one more is admitted before the
/// next is refused again.
pub proof fn lemma_admission_cap(k: nat, address_validated: bool)
    ensures
        ({
            let full = after_admits(AdmissionView { open: 0, limit: k }, k);
            let freed = after_close(full);
            let refilled = after_admit(freed, true);
            &&& full.open == k
            &&& decision_for(full, address_validated) is RefusedOverLimit
            &&& after_admit(full, address_validated) == full
            &&& k > 0 ==> decision_for(freed, true) is Admitted
            &&& k > 0 ==> refilled.open == k
            &&& decision_for(refilled, address_validated) is RefusedOverLimit
        }),
{
    lemma_admits_up_to_limit(k, k);
}

/// The count never passes the limit, whatever happens.
pub proof fn lemma_open_stays_within_limit(a: AdmissionView, address_validated: bool)
    requires
        a.open <= a.limit,
    ensures
        after_admit(a, address_validated).open <= a.limit,
        after_admit(a, address_validated).limit == a.limit,
        after_close(a).open <= a.limit,
        after_close(a).limit == a.limit,
{
}

} // verus!
