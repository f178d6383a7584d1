//! The decisions of registering the Gateway API custom resource definitions:
//! which definitions, and for each one a state machine that the controller
//! drives with what the Kubernetes API answered.
use vstd::prelude::*;

verus! {

/// The custom resources of the Gateway API.
#[derive(PartialEq, Eq, Structural, Clone, Copy)]
pub enum CrdKind {
    GatewayClass,
    Gateway,
    HTTPRoute,
    GRPCRoute,
    TCPRoute,
    UDPRoute,
    TLSRoute,
    ReferenceGrant,
}

/// The definitions to register, in order: the standard channel, or the
/// experimental one with the GRPC, TCP, UDP and TLS routes before the
/// reference grants.
pub open spec fn crd_kinds(experimental: bool) -> Seq<CrdKind> {
    if experimental {
        seq![
            CrdKind::GatewayClass,
            CrdKind::Gateway,
            CrdKind::HTTPRoute,
            CrdKind::GRPCRoute,
            CrdKind::TCPRoute,
            CrdKind::UDPRoute,
            CrdKind::TLSRoute,
            CrdKind::ReferenceGrant,
        ]
    } else {
        seq![CrdKind::GatewayClass, CrdKind::Gateway, CrdKind::HTTPRoute, CrdKind::ReferenceGrant]
    }
}

/// The definitions to register, in order.
pub fn crds_to_register(experimental: bool) -> (r: Vec<CrdKind>)
    ensures
        r@ == crd_kinds(experimental),
{
    let mut r: Vec<CrdKind> = Vec::new();
    r.push(CrdKind::GatewayClass);
    r.push(CrdKind::Gateway);
    r.push(CrdKind::HTTPRoute);
    if experimental {
        r.push(CrdKind::GRPCRoute);
        r.push(CrdKind::TCPRoute);
        r.push(CrdKind::UDPRoute);
        r.push(CrdKind::TLSRoute);
    }
    r.push(CrdKind::ReferenceGrant);
    assert(r@ =~= crd_kinds(experimental));
    r
}

/// The annotation key that marks a definition in a `*.k8s.io` group as
/// approved by the Kubernetes API review.
pub const API_APPROVED_KEY: &'static str = "api-approved.kubernetes.io";

/// The value of the API-approval annotation: the link to the approval.
pub const API_APPROVED_VALUE: &'static str = "https://github.com/kubernetes/enhancements/pull/1111";

/// The annotations that a definition is created with: the API-approval
/// annotation alone.
pub open spec fn creation_annotations() -> Seq<(Seq<char>, Seq<char>)> {
    seq![(API_APPROVED_KEY@, API_APPROVED_VALUE@)]
}

/// The annotations, as key and value, that a definition is created with.
pub fn create_annotations() -> (r: Vec<(String, String)>)
    ensures
        r@.len() == creation_annotations().len(),
        forall|i: int|
            0 <= i < r@.len() ==> (#[trigger] r@[i]).0@ == creation_annotations()[i].0 && r@[i].1@
                == creation_annotations()[i].1,
{
    let mut r: Vec<(String, String)> = Vec::new();
    r.push((API_APPROVED_KEY.to_owned(), API_APPROVED_VALUE.to_owned()));
    r
}

/// How often the controller waits for a created definition to be
/// established before it gives up.
pub const WAIT_ATTEMPTS: u32 = 10;

/// Why registering a definition failed.
#[derive(PartialEq, Eq, Structural, Clone, Copy)]
pub enum CrdFailure {
    LookupFailed,
    CreateFailed,
    NotEstablished,
}

/// Where the registration of one definition stands.
#[derive(PartialEq, Eq, Structural, Clone, Copy)]
pub enum CrdState {
    /// The definition is to be looked up.
    Lookup,
    /// The definition is missing and is to be created.
    Create,
    /// The definition was created; the controller waits for it to be
    /// established, at most `retries` more times.
    Await { retries: u32 },
    /// The definition is there.
    Registered,
    /// The registration failed.
    Failed(CrdFailure),
}

/// What the Kubernetes API answered.
#[derive(PartialEq, Eq, Structural, Clone, Copy)]
pub enum CrdEvent {
    /// The lookup found the definition.
    Found,
    /// The lookup answered 404.
    NotFound,
    /// The lookup failed otherwise.
    LookupError,
    /// The definition was created.
    Created,
    /// Creating the definition failed.
    CreateError,
    /// The wait ended within its time limit.
    Established,
    /// The wait ran out of time.
    TimedOut,
}

/// What the controller does next.
#[derive(PartialEq, Eq, Structural, Clone, Copy)]
pub enum CrdAction {
    /// Look the definition up.
    Get,
    /// Create the definition, with the API-approval annotation.
    Create,
    /// Wait, for a limited time, for the definition to be established.
    AwaitEstablished,
    /// Stop: the definition is registered.
    Done,
    /// Stop: the registration failed.
    Fail(CrdFailure),
}

impl CrdState {
    /// The events that can answer the action of this state.
    pub open spec fn expects(self, event: CrdEvent) -> bool {
        match self {
            CrdState::Lookup => event == CrdEvent::Found || event == CrdEvent::NotFound || event
                == CrdEvent::LookupError,
            CrdState::Create => event == CrdEvent::Created || event == CrdEvent::CreateError,
            CrdState::Await { retries } => retries > 0 && (event == CrdEvent::Established || event
                == CrdEvent::TimedOut),
            CrdState::Registered => false,
            CrdState::Failed(_) => false,
        }
    }

    /// The state after an event.
    pub open spec fn after(self, event: CrdEvent) -> CrdState {
        match self {
            CrdState::Lookup => match event {
                CrdEvent::Found => CrdState::Registered,
                CrdEvent::NotFound => CrdState::Create,
                _ => CrdState::Failed(CrdFailure::LookupFailed),
            },
            CrdState::Create => match event {
                CrdEvent::Created => CrdState::Await { retries: WAIT_ATTEMPTS },
                _ => CrdState::Failed(CrdFailure::CreateFailed),
            },
            CrdState::Await { retries } => match event {
                CrdEvent::Established => CrdState::Registered,
                _ => if retries <= 1 {
                    CrdState::Failed(CrdFailure::NotEstablished)
                } else {
                    CrdState::Await { retries: (retries - 1) as u32 }
                },
            },
            _ => self,
        }
    }

    /// The action of a state.
    pub open spec fn action_of(self) -> CrdAction {
        match self {
            CrdState::Lookup => CrdAction::Get,
            CrdState::Create => CrdAction::Create,
            CrdState::Await { .. } => CrdAction::AwaitEstablished,
            CrdState::Registered => CrdAction::Done,
            CrdState::Failed(f) => CrdAction::Fail(f),
        }
    }

    /// Whether `event` can answer the action of this state.
    pub fn expects_event(&self, event: CrdEvent) -> (r: bool)
        ensures
            r == self.expects(event),
    {
        match self {
            CrdState::Lookup => event == CrdEvent::Found || event == CrdEvent::NotFound || event
                == CrdEvent::LookupError,
            CrdState::Create => event == CrdEvent::Created || event == CrdEvent::CreateError,
            CrdState::Await { retries } => *retries > 0 && (event == CrdEvent::Established || event
                == CrdEvent::TimedOut),
            CrdState::Registered => false,
            CrdState::Failed(_) => false,
        }
    }

    /// The state in which the registration of a definition starts.
    pub fn start() -> (r: CrdState)
        ensures
            r == CrdState::Lookup,
    {
        CrdState::Lookup
    }

    /// The next state, when the action of this state was answered by `event`.
    pub fn step(&self, event: CrdEvent) -> (r: CrdState)
        requires
            self.expects(event),
        ensures
            r == self.after(event),
    {
        match self {
            CrdState::Lookup => match event {
                CrdEvent::Found => CrdState::Registered,
                CrdEvent::NotFound => CrdState::Create,
                _ => CrdState::Failed(CrdFailure::LookupFailed),
            },
            CrdState::Create => match event {
                CrdEvent::Created => CrdState::Await { retries: WAIT_ATTEMPTS },
                _ => CrdState::Failed(CrdFailure::CreateFailed),
            },
            CrdState::Await { retries } => match event {
                CrdEvent::Established => CrdState::Registered,
                _ => {
                    let left: u32 = *retries - 1;
                    if left == 0 {
                        CrdState::Failed(CrdFailure::NotEstablished)
                    } else {
                        CrdState::Await { retries: left }
                    }
                },
            },
            CrdState::Registered => CrdState::Registered,
            CrdState::Failed(f) => CrdState::Failed(*f),
        }
    }

    /// What the controller does in this state.
    pub fn action(&self) -> (r: CrdAction)
        ensures
            r == self.action_of(),
    {
        match self {
            CrdState::Lookup => CrdAction::Get,
            CrdState::Create => CrdAction::Create,
            CrdState::Await { .. } => CrdAction::AwaitEstablished,
            CrdState::Registered => CrdAction::Done,
            CrdState::Failed(f) => CrdAction::Fail(*f),
        }
    }
}

/// The state after a run of events, each answering the action of the state
/// before it.
pub open spec fn run(state: CrdState, events: Seq<CrdEvent>) -> CrdState
    decreases events.len(),
{
    if events.len() == 0 {
        state
    } else {
        run(state.after(events[0]), events.skip(1))
    }
}

/// `k` timeouts in a row.
pub open spec fn timeouts(k: nat) -> Seq<CrdEvent> {
    Seq::new(k, |i: int| CrdEvent::TimedOut)
}

/// The wait budget: after a definition was created, fewer than ten
/// timeouts leave the controller waiting with as many attempts fewer, and
/// the tenth timeout fails the registration.
pub proof fn law_wait_budget(k: nat)
    requires
        1 <= k <= WAIT_ATTEMPTS,
    ensures
        run(CrdState::Await { retries: WAIT_ATTEMPTS }, timeouts(k)) == (if k < WAIT_ATTEMPTS {
            CrdState::Await { retries: (WAIT_ATTEMPTS - k) as u32 }
        } else {
            CrdState::Failed(CrdFailure::NotEstablished)
        }),
    decreases k,
{
    lemma_timeouts_from(WAIT_ATTEMPTS, k);
}

proof fn lemma_timeouts_from(r: u32, k: nat)
    requires
        1 <= k <= r,
    ensures
        run(CrdState::Await { retries: r }, timeouts(k)) == (if k < r {
            CrdState::Await { retries: (r - k) as u32 }
        } else {
            CrdState::Failed(CrdFailure::NotEstablished)
        }),
    decreases k,
{
    let s = CrdState::Await { retries: r };
    let t = timeouts(k);
    assert(t[0] == CrdEvent::TimedOut);
    let s1 = s.after(CrdEvent::TimedOut);
    assert(run(s, t) == run(s1, t.skip(1)));
    if k == 1 {
        assert(t.skip(1) =~= Seq::<CrdEvent>::empty());
        assert(run(s1, t.skip(1)) == s1);
    } else {
        assert(t.skip(1) =~= timeouts((k - 1) as nat));
        assert(s1 == CrdState::Await { retries: (r - 1) as u32 });
        lemma_timeouts_from((r - 1) as u32, (k - 1) as nat);
    }
}

/// The registered and the failed states are final: they expect no answer,
/// and their actions stop the controller.
pub proof fn law_final_states(event: CrdEvent, f: CrdFailure)
    ensures
        !CrdState::Registered.expects(event),
        !CrdState::Failed(f).expects(event),
        CrdState::Registered.action_of() == CrdAction::Done,
        CrdState::Failed(f).action_of() == CrdAction::Fail(f),
{
}

/// A definition that is created and then established after fewer than
/// `WAIT_ATTEMPTS` timeouts is registered.
pub proof fn law_created_then_established(k: nat)
    requires
        k < WAIT_ATTEMPTS,
    ensures
        run(CrdState::Lookup, seq![CrdEvent::NotFound, CrdEvent::Created] + timeouts(k) + seq![
            CrdEvent::Established,
        ]) == CrdState::Registered,
{
    let events = seq![CrdEvent::NotFound, CrdEvent::Created] + timeouts(k) + seq![CrdEvent::Established];
    assert(events[0] == CrdEvent::NotFound);
    assert(events.skip(1)[0] == CrdEvent::Created);
    assert(events.skip(1).skip(1) =~= timeouts(k) + seq![CrdEvent::Established]);
    lemma_run_append(CrdState::Await { retries: WAIT_ATTEMPTS }, timeouts(k), seq![CrdEvent::Established]);
    if k > 0 {
        lemma_timeouts_from(WAIT_ATTEMPTS, k);
    }
    let mid = run(CrdState::Await { retries: WAIT_ATTEMPTS }, timeouts(k));
    if k == 0 {
        assert(timeouts(k) =~= Seq::<CrdEvent>::empty());
    }
    assert(mid is Await);
    let e = seq![CrdEvent::Established];
    assert(e[0] == CrdEvent::Established);
    assert(e.skip(1) =~= Seq::<CrdEvent>::empty());
    assert(run(mid, e) == run(mid.after(CrdEvent::Established), e.skip(1)));
    assert(run(mid.after(CrdEvent::Established), e.skip(1)) == mid.after(CrdEvent::Established));
    assert(run(CrdState::Lookup, events) == run(CrdState::Create, events.skip(1)));
    assert(run(CrdState::Create, events.skip(1)) == run(
        CrdState::Await { retries: WAIT_ATTEMPTS },
        events.skip(1).skip(1),
    ));
}

/// Each event of the run answers the action of the state before it.
pub open spec fn follows(state: CrdState, events: Seq<CrdEvent>) -> bool
    decreases events.len(),
{
    if events.len() == 0 {
        true
    } else {
        state.expects(events[0]) && follows(state.after(events[0]), events.skip(1))
    }
}

/// How many more answers a state can take.
pub open spec fn answers_left(state: CrdState) -> nat {
    match state {
        CrdState::Lookup => (WAIT_ATTEMPTS + 2) as nat,
        CrdState::Create => (WAIT_ATTEMPTS + 1) as nat,
        CrdState::Await { retries } => retries as nat,
        CrdState::Registered => 0,
        CrdState::Failed(_) => 0,
    }
}

/// Every registration ends: a run that follows the protocol from the start
/// takes at most `WAIT_ATTEMPTS + 2` answers (a lookup, a creation and at
/// most `WAIT_ATTEMPTS` waits).
pub proof fn law_registration_ends(events: Seq<CrdEvent>)
    requires
        follows(CrdState::Lookup, events),
    ensures
        events.len() <= WAIT_ATTEMPTS + 2,
{
    lemma_follows_bound(CrdState::Lookup, events);
}

proof fn lemma_follows_bound(state: CrdState, events: Seq<CrdEvent>)
    requires
        follows(state, events),
        state is Await ==> state->retries <= WAIT_ATTEMPTS,
    ensures
        events.len() <= answers_left(state),
    decreases events.len(),
{
    if events.len() > 0 {
        let next = state.after(events[0]);
        lemma_follows_bound(next, events.skip(1));
        assert(answers_left(next) < answers_left(state));
    }
}

pub proof fn lemma_run_append(s: CrdState, a: Seq<CrdEvent>, b: Seq<CrdEvent>)
    ensures
        run(s, a + b) == run(run(s, a), b),
    decreases a.len(),
{
    if a.len() == 0 {
        assert(a + b =~= b);
    } else {
        assert((a + b)[0] == a[0]);
        assert((a + b).skip(1) =~= a.skip(1) + b);
        lemma_run_append(s.after(a[0]), a.skip(1), b);
    }
}

/// How each answer moves the registration: a found definition is
/// registered, a missing one is created, a failed lookup or creation fails
/// with its cause, a creation leads to a full wait budget, an established
/// definition is registered whatever the budget left, and a timeout spends
/// one attempt of the budget, failing when it was the last.
pub proof fn law_answers_move_the_registration(retries: u32)
    requires
        retries > 0,
    ensures
        CrdState::Lookup.after(CrdEvent::Found) == CrdState::Registered,
        CrdState::Lookup.after(CrdEvent::NotFound) == CrdState::Create,
        CrdState::Lookup.after(CrdEvent::LookupError) == CrdState::Failed(CrdFailure::LookupFailed),
        CrdState::Create.after(CrdEvent::Created) == (CrdState::Await { retries: WAIT_ATTEMPTS }),
        CrdState::Create.after(CrdEvent::CreateError) == CrdState::Failed(CrdFailure::CreateFailed),
        (CrdState::Await { retries }).after(CrdEvent::Established) == CrdState::Registered,
        retries == 1 ==> (CrdState::Await { retries }).after(CrdEvent::TimedOut) == CrdState::Failed(
            CrdFailure::NotEstablished,
        ),
        retries > 1 ==> (CrdState::Await { retries }).after(CrdEvent::TimedOut) == (CrdState::Await {
            retries: (retries - 1) as u32,
        }),
        CrdState::Lookup.action_of() == CrdAction::Get,
        CrdState::Create.action_of() == CrdAction::Create,
        (CrdState::Await { retries }).action_of() == CrdAction::AwaitEstablished,
{
}

} // verus!
