//! One backend session: startup handshake and transaction-state tracking.
//!
//! The transport (TCP or TLS) lives outside the crate. It decodes each server
//! frame into a [`BackendMessage`] and feeds it here; this module holds every
//! decision the session makes: how startup advances, how `ReadyForQuery`
//! status bytes drive the transaction state, when new work may be issued, and
//! when the session has permanently failed.

use vstd::prelude::*;
use crate::errors::Error;
use crate::messages::{BackendKeyData, BackendMessage};
use crate::state::State;

verus! {

/// The state a session is in after observing one more message.
///
/// A `ReadyForQuery` with a valid status byte moves the session to the state
/// that byte denotes; an invalid status byte is a protocol violation and
/// poisons the session; every other message leaves the state alone.
pub open spec fn step_state(s: State, m: BackendMessage) -> State {
    match m {
        BackendMessage::ReadyForQuery { status } => match State::of_status(status) {
            Some(next) => next,
            None => State::Error,
        },
        _ => s,
    }
}

/// The state after each message of `ms`, starting from `s0`: element `i` is
/// the state once `ms[i]` has been observed.
pub open spec fn state_trace(s0: State, ms: Seq<BackendMessage>) -> Seq<State>
    decreases ms.len(),
{
    if ms.len() == 0 {
        Seq::empty()
    } else {
        let s1 = step_state(s0, ms[0]);
        seq![s1] + state_trace(s1, ms.drop_first())
    }
}

/// The trace is as long as the message sequence.
pub proof fn lemma_state_trace_len(s0: State, ms: Seq<BackendMessage>)
    ensures
        state_trace(s0, ms).len() == ms.len(),
    decreases ms.len(),
{
    if ms.len() > 0 {
        lemma_state_trace_len(step_state(s0, ms[0]), ms.drop_first());
    }
}

/// Order of observed states: at every `ReadyForQuery` the session is in
/// exactly the state its status byte denotes, and a message that is not a
/// `ReadyForQuery` does not move the state. The states a reader observes
/// therefore match the sequence of `Z` status bytes received, in order.
pub proof fn lemma_state_follows_status(s0: State, ms: Seq<BackendMessage>, i: int)
    requires
        0 <= i < ms.len(),
    ensures
        state_trace(s0, ms).len() == ms.len(),
        (ms[i] matches BackendMessage::ReadyForQuery { status } ==> state_trace(s0, ms)[i]
            == step_state(s0, ms[i])),
        (!(ms[i] matches BackendMessage::ReadyForQuery { .. }) ==> state_trace(s0, ms)[i] == (
        if i == 0 {
            s0
        } else {
            state_trace(s0, ms)[i - 1]
        })),
    decreases i,
{
    lemma_state_trace_len(s0, ms);
    let s1 = step_state(s0, ms[0]);
    lemma_state_trace_len(s1, ms.drop_first());
    if i == 0 {
    } else {
        lemma_state_follows_status(s1, ms.drop_first(), i - 1);
        assert(state_trace(s0, ms)[i] == state_trace(s1, ms.drop_first())[i - 1]);
        if i == 1 {
            assert(state_trace(s0, ms)[0] == s1);
        } else {
            assert(ms.drop_first()[i - 1] == ms[i]);
            assert(ms.drop_first()[i - 2] == ms[i - 1]);
        }
        if ms[i] matches BackendMessage::ReadyForQuery { .. } {
            assert(step_state(s1, ms[i]) == step_state(s0, ms[i]));
        }
    }
}

/// A message that ends a statement's reply stream: a `ReadyForQuery` whose
/// status byte either says idle or is invalid (which poisons the session).
/// Any other message leaves the session mid-statement.
pub open spec fn settles(m: BackendMessage) -> bool {
    match m {
        BackendMessage::ReadyForQuery { status } => status == 73 || State::of_status(
            status,
        ) is None,
        _ => false,
    }
}

/// Index of the first settling message in `ms`; `ms.len()` if there is none.
pub open spec fn first_settling(ms: Seq<BackendMessage>) -> int
    decreases ms.len(),
{
    if ms.len() == 0 {
        0
    } else if settles(ms[0]) {
        0
    } else {
        1 + first_settling(ms.drop_first())
    }
}

/// What [`first_settling`] means: nothing before it settles, and it points at
/// a settling message whenever one exists.
pub proof fn lemma_first_settling(ms: Seq<BackendMessage>)
    ensures
        0 <= first_settling(ms) <= ms.len(),
        forall|i: int| 0 <= i < first_settling(ms) ==> !settles(ms[i]),
        first_settling(ms) < ms.len() ==> settles(ms[first_settling(ms)]),
    decreases ms.len(),
{
    if ms.len() > 0 && !settles(ms[0]) {
        lemma_first_settling(ms.drop_first());
        assert forall|i: int| 0 <= i < first_settling(ms) implies !settles(ms[i]) by {
            if i > 0 {
                assert(ms.drop_first()[i - 1] == ms[i]);
            }
        }
    }
}

/// Converse characterization of [`first_settling`].
pub proof fn lemma_first_settling_is(ms: Seq<BackendMessage>, k: int)
    requires
        0 <= k <= ms.len(),
        forall|i: int| 0 <= i < k ==> !settles(ms[i]),
        k < ms.len() ==> settles(ms[k]),
    ensures
        first_settling(ms) == k,
    decreases ms.len(),
{
    if ms.len() > 0 && k > 0 {
        assert forall|i: int| 0 <= i < k - 1 implies !settles(ms.drop_first()[i]) by {
            assert(ms.drop_first()[i] == ms[i + 1]);
        }
        if k < ms.len() {
            assert(ms.drop_first()[k - 1] == ms[k]);
        }
        lemma_first_settling_is(ms.drop_first(), k - 1);
    }
}

/// The state after observing every message of `ms`, starting from `s0`.
pub open spec fn run_state(s0: State, ms: Seq<BackendMessage>) -> State
    decreases ms.len(),
{
    if ms.len() == 0 {
        s0
    } else {
        run_state(step_state(s0, ms[0]), ms.drop_first())
    }
}

/// One established connection to a PostgreSQL server.
#[derive(Debug)]
pub struct Server {
    id: BackendKeyData,
    params: Vec<(String, String)>,
    state: State,
    created_at: u64,
}

impl Server {
    /// The transaction state.
    pub closed spec fn spec_state(&self) -> State {
        self.state
    }

    /// The cancellation key the server assigned.
    pub closed spec fn spec_id(&self) -> BackendKeyData {
        self.id
    }

    /// The parameters the server reported at startup, in arrival order.
    pub closed spec fn spec_params(&self) -> Seq<(String, String)> {
        self.params@
    }

    /// When the connection was established, in milliseconds of the
    /// transport's clock.
    pub closed spec fn spec_created_at(&self) -> u64 {
        self.created_at
    }

    /// Everything but the transaction state is equal: observations never
    /// touch identity, parameters or age.
    pub open spec fn same_identity(&self, other: &Server) -> bool {
        &&& self.spec_id() == other.spec_id()
        &&& self.spec_params() == other.spec_params()
        &&& self.spec_created_at() == other.spec_created_at()
    }

    /// Record one message read from the server. On `ReadyForQuery` the
    /// transaction state follows the status byte; a status byte other than
    /// `I`, `T` or `E` is a protocol violation: the session is poisoned and
    /// the violation reported. Other messages pass through untouched.
    pub fn observe(&mut self, m: &BackendMessage) -> (r: Result<(), Error>)
        ensures
            final(self).spec_state() == step_state(old(self).spec_state(), *m),
            final(self).same_identity(&*old(self)),
            r is Err <==> (m matches BackendMessage::ReadyForQuery { status } && State::of_status(
                *status,
            ) is None),
            r matches Err(e) ==> (m matches BackendMessage::ReadyForQuery { status } && e
                == Error::UnexpectedTransactionStatus(*status)),
    {
        match m {
            BackendMessage::ReadyForQuery { status } => {
                if *status == 73 {
                    self.state = State::Idle;
                    Ok(())
                } else if *status == 84 {
                    self.state = State::IdleInTransaction;
                    Ok(())
                } else if *status == 69 {
                    self.state = State::TransactionError;
                    Ok(())
                } else {
                    self.state = State::Error;
                    Err(Error::UnexpectedTransactionStatus(*status))
                }
            },
            _ => Ok(()),
        }
    }

    /// Record the outcome of handing messages to the transport: a send puts
    /// the session mid-exchange, a transport failure poisons it.
    pub fn sent(&mut self, ok: bool)
        ensures
            final(self).spec_state() == if ok {
                State::Active
            } else {
                State::Error
            },
            final(self).same_identity(&*old(self)),
    {
        if ok {
            self.state = State::Active;
        } else {
            self.state = State::Error;
        }
    }

    /// Record the outcome of flushing the transport: a failure poisons the
    /// session, a success changes nothing.
    pub fn flushed(&mut self, ok: bool)
        ensures
            final(self).spec_state() == if ok {
                old(self).spec_state()
            } else {
                State::Error
            },
            final(self).same_identity(&*old(self)),
    {
        if !ok {
            self.state = State::Error;
        }
    }

    /// Record that a read from the transport failed: the session is poisoned.
    pub fn read_failed(&mut self)
        ensures
            final(self).spec_state() == State::Error,
            final(self).same_identity(&*old(self)),
    {
        self.state = State::Error;
    }

    /// Start a statement. Refused with `NotInSync` unless the session is
    /// synchronized; otherwise the session goes mid-exchange and the caller
    /// may hand the statement to the transport.
    pub fn begin_statement(&mut self) -> (r: Result<(), Error>)
        ensures
            old(self).spec_state().in_sync_spec() ==> r == Ok::<(), Error>(())
                && final(self).spec_state() == State::Active,
            !old(self).spec_state().in_sync_spec() ==> r == Err::<(), Error>(Error::NotInSync)
                && *final(self) == *old(self),
            final(self).same_identity(&*old(self)),
    {
        if self.in_sync() {
            self.state = State::Active;
            Ok(())
        } else {
            Err(Error::NotInSync)
        }
    }

    /// Run one statement over the replies the transport read, in order:
    /// refused with `NotInSync` unless the session is synchronized, otherwise
    /// the session goes mid-exchange and observes replies until it settles —
    /// back to idle at a `ReadyForQuery` with the idle status, or poisoned by
    /// an invalid one. Returns how many replies were consumed; a transport
    /// reading one message at a time stops at exactly that point.
    pub fn execute(&mut self, replies: &Vec<BackendMessage>) -> (r: Result<usize, Error>)
        ensures
            final(self).same_identity(&*old(self)),
            !old(self).spec_state().in_sync_spec() ==> r == Err::<usize, Error>(Error::NotInSync)
                && *final(self) == *old(self),
            old(self).spec_state().in_sync_spec() ==> {
                let k = first_settling(replies@);
                if k < replies@.len() {
                    match replies@[k] {
                        BackendMessage::ReadyForQuery { status } => if status == 73 {
                            r == Ok::<usize, Error>((k + 1) as usize) && final(self).spec_state()
                                == State::Idle
                        } else {
                            r == Err::<usize, Error>(Error::UnexpectedTransactionStatus(status))
                                && final(self).spec_state() == State::Error
                        },
                        _ => false,
                    }
                } else {
                    r == Ok::<usize, Error>(replies@.len() as usize) && final(self).spec_state()
                        == run_state(State::Active, replies@)
                }
            },
    {
        if !self.in_sync() {
            return Err(Error::NotInSync);
        }
        self.state = State::Active;
        proof {
            assert(replies@.subrange(0, replies@.len() as int) =~= replies@);
        }
        let mut i: usize = 0;
        while i < replies.len()
            invariant
                i <= replies@.len(),
                old(self).spec_state().in_sync_spec(),
                self.same_identity(&*old(self)),
                forall|j: int| 0 <= j < i ==> !settles(#[trigger] replies@[j]),
                run_state(State::Active, replies@) == run_state(
                    self.spec_state(),
                    replies@.subrange(i as int, replies@.len() as int),
                ),
                self.spec_state() != State::Idle,
                self.spec_state() != State::Error,
            decreases replies@.len() - i,
        {
            let ghost tail = replies@.subrange(i as int, replies@.len() as int);
            proof {
                assert(tail[0] == replies@[i as int]);
                assert(tail.drop_first() =~= replies@.subrange(i + 1, replies@.len() as int));
            }
            let m = &replies[i];
            match self.observe(m) {
                Err(e) => {
                    proof {
                        lemma_first_settling_is(replies@, i as int);
                    }
                    return Err(e);
                },
                Ok(()) => {
                    if self.done() {
                        proof {
                            lemma_first_settling_is(replies@, i as int);
                        }
                        return Ok(i + 1);
                    }
                },
            }
            i = i + 1;
        }
        proof {
            assert(replies@.subrange(replies@.len() as int, replies@.len() as int)
                =~= Seq::<BackendMessage>::empty());
            lemma_first_settling_is(replies@, replies@.len() as int);
        }
        Ok(replies.len())
    }

    /// A statement's reply stream is exhausted once the session is back to
    /// `Idle` or has failed; reading continues until this holds.
    pub fn settled(&self) -> (r: bool)
        ensures
            r == (self.spec_state() == State::Idle || self.spec_state() == State::Error),
    {
        match self.state {
            State::Idle => true,
            State::Error => true,
            _ => false,
        }
    }

    /// Settle the session after a rollback attempt: if it is still not
    /// synchronized, it is beyond recovery and is poisoned.
    pub fn rollback_settle(&mut self)
        ensures
            final(self).spec_state() == if old(self).spec_state().in_sync_spec() {
                old(self).spec_state()
            } else {
                State::Error
            },
            final(self).same_identity(&*old(self)),
    {
        if !self.in_sync() {
            self.state = State::Error;
        }
    }

    /// The transaction state.
    pub fn state(&self) -> (s: State)
        ensures
            s == self.spec_state(),
    {
        self.state
    }

    /// The server sent everything: the session is idle.
    pub fn done(&self) -> (r: bool)
        ensures
            r == (self.spec_state() == State::Idle),
    {
        match self.state {
            State::Idle => true,
            _ => false,
        }
    }

    /// The session is synchronized and can receive more statements.
    pub fn in_sync(&self) -> (r: bool)
        ensures
            r == self.spec_state().in_sync_spec(),
    {
        match self.state {
            State::Idle => true,
            State::IdleInTransaction => true,
            State::TransactionError => true,
            _ => false,
        }
    }

    /// The session is still inside a transaction.
    pub fn in_transaction(&self) -> (r: bool)
        ensures
            r == self.spec_state().in_transaction_spec(),
    {
        match self.state {
            State::IdleInTransaction => true,
            State::TransactionError => true,
            _ => false,
        }
    }

    /// The session permanently failed.
    pub fn error(&self) -> (r: bool)
        ensures
            r == (self.spec_state() == State::Error),
    {
        match self.state {
            State::Error => true,
            _ => false,
        }
    }

    /// The parameters the server reported at startup.
    pub fn params(&self) -> (r: &Vec<(String, String)>)
        ensures
            r@ == self.spec_params(),
    {
        &self.params
    }

    /// The cancellation key of this session.
    pub fn id(&self) -> (r: &BackendKeyData)
        ensures
            *r == self.spec_id(),
    {
        &self.id
    }

    /// Age of the connection at `now_millis` on the transport's clock, in
    /// milliseconds; zero if the clock ran backwards.
    pub fn age(&self, now_millis: u64) -> (r: u64)
        ensures
            r == if now_millis >= self.spec_created_at() {
                now_millis - self.spec_created_at()
            } else {
                0
            },
    {
        if now_millis >= self.created_at {
            now_millis - self.created_at
        } else {
            0
        }
    }
}

/// Phase of the startup exchange with a server.
#[derive(Clone, Copy, Debug, PartialEq, Eq, Structural)]
pub enum StartupPhase {
    /// Waiting for the authentication exchange to conclude.
    Authenticating,
    /// Authenticated; collecting parameters and the key until `ReadyForQuery`.
    Syncing,
    /// The handshake finished; a session can be built.
    Complete,
}

/// The startup handshake, message by message.
///
/// After the transport has opened the connection (and upgraded it to TLS when
/// the server accepted the SSL request) and sent the startup message, every
/// reply is fed to [`Startup::step`] until [`Startup::complete`] holds; then
/// [`Startup::finish`] yields the established session.
pub struct Startup {
    phase: StartupPhase,
    params: Vec<(String, String)>,
    key: Option<BackendKeyData>,
}

impl Startup {
    /// Current phase.
    pub closed spec fn spec_phase(&self) -> StartupPhase {
        self.phase
    }

    /// Parameters collected so far, in arrival order.
    pub closed spec fn spec_params(&self) -> Seq<(String, String)> {
        self.params@
    }

    /// The key received so far, if any.
    pub closed spec fn spec_key(&self) -> Option<BackendKeyData> {
        self.key
    }

    /// A completed handshake always carries a key.
    pub open spec fn wf(&self) -> bool {
        self.spec_phase() == StartupPhase::Complete ==> self.spec_key() is Some
    }

    /// Begin a handshake: authenticating, nothing collected.
    pub fn new() -> (s: Startup)
        ensures
            s.spec_phase() == StartupPhase::Authenticating,
            s.spec_params() =~= Seq::<(String, String)>::empty(),
            s.spec_key() is None,
            s.wf(),
    {
        Startup { phase: StartupPhase::Authenticating, params: Vec::new(), key: None }
    }

    /// The handshake finished.
    pub fn complete(&self) -> (r: bool)
        ensures
            r == (self.spec_phase() == StartupPhase::Complete),
    {
        match self.phase {
            StartupPhase::Complete => true,
            _ => false,
        }
    }

    /// Advance the handshake by one server message.
    ///
    /// While authenticating: an `ErrorResponse` means the server rejected the
    /// startup; `AuthenticationOk` moves on to syncing; any other message is
    /// a protocol violation. While syncing: parameters and the key are
    /// collected, and `ReadyForQuery` completes the handshake, which fails
    /// with `NoBackendKeyData` if no key ever arrived. On an error the
    /// handshake is left as it was and must be abandoned.
    pub fn step(&mut self, m: BackendMessage) -> (r: Result<(), Error>)
        requires
            old(self).spec_phase() != StartupPhase::Complete,
            old(self).wf(),
        ensures
            final(self).wf(),
            r is Err ==> *final(self) == *old(self),
            r matches Err(e) ==> match old(self).spec_phase() {
                StartupPhase::Authenticating => match m {
                    BackendMessage::ErrorResponse { error } => e == Error::ConnectionError(error),
                    BackendMessage::Authentication { ok } => !ok && e == Error::UnexpectedMessage(
                        82,
                    ),
                    _ => e == Error::UnexpectedMessage(m.code_spec()),
                },
                StartupPhase::Syncing => match m {
                    BackendMessage::ReadyForQuery { .. } => old(self).spec_key() is None && e
                        == Error::NoBackendKeyData,
                    BackendMessage::ParameterStatus { .. } => false,
                    BackendMessage::BackendKeyData { .. } => false,
                    _ => e == Error::UnexpectedMessage(m.code_spec()),
                },
                StartupPhase::Complete => false,
            },
            r is Ok ==> match old(self).spec_phase() {
                StartupPhase::Authenticating => {
                    &&& m matches BackendMessage::Authentication { ok: true }
                    &&& final(self).spec_phase() == StartupPhase::Syncing
                    &&& final(self).spec_params() == old(self).spec_params()
                    &&& final(self).spec_key() == old(self).spec_key()
                },
                StartupPhase::Syncing => match m {
                    BackendMessage::ParameterStatus { name, value } => {
                        &&& final(self).spec_phase() == StartupPhase::Syncing
                        &&& final(self).spec_params() == old(self).spec_params().push(
                            (name, value),
                        )
                        &&& final(self).spec_key() == old(self).spec_key()
                    },
                    BackendMessage::BackendKeyData { key } => {
                        &&& final(self).spec_phase() == StartupPhase::Syncing
                        &&& final(self).spec_params() == old(self).spec_params()
                        &&& final(self).spec_key() == Some(key)
                    },
                    BackendMessage::ReadyForQuery { .. } => {
                        &&& final(self).spec_phase() == StartupPhase::Complete
                        &&& final(self).spec_params() == old(self).spec_params()
                        &&& final(self).spec_key() == old(self).spec_key()
                    },
                    _ => false,
                },
                StartupPhase::Complete => false,
            },
    {
        match self.phase {
            StartupPhase::Authenticating => match m {
                BackendMessage::ErrorResponse { error } => Err(Error::ConnectionError(error)),
                BackendMessage::Authentication { ok } => {
                    if ok {
                        self.phase = StartupPhase::Syncing;
                        Ok(())
                    } else {
                        Err(Error::UnexpectedMessage(82))
                    }
                },
                other => Err(Error::UnexpectedMessage(other.code())),
            },
            StartupPhase::Syncing => match m {
                BackendMessage::ParameterStatus { name, value } => {
                    self.params.push((name, value));
                    Ok(())
                },
                BackendMessage::BackendKeyData { key } => {
                    self.key = Some(key);
                    Ok(())
                },
                BackendMessage::ReadyForQuery { .. } => {
                    if self.key.is_some() {
                        self.phase = StartupPhase::Complete;
                        Ok(())
                    } else {
                        Err(Error::NoBackendKeyData)
                    }
                },
                other => Err(Error::UnexpectedMessage(other.code())),
            },
            StartupPhase::Complete => {
                proof {
                    assert(false);
                }
                Err(Error::NotInSync)
            },
        }
    }

    /// Build the established session: idle, with everything the handshake
    /// collected and the moment the transport's clock shows.
    pub fn finish(self, created_at_millis: u64) -> (s: Server)
        requires
            self.spec_phase() == StartupPhase::Complete,
            self.wf(),
        ensures
            s.spec_state() == State::Idle,
            s.spec_params() == self.spec_params(),
            Some(s.spec_id()) == self.spec_key(),
            s.spec_created_at() == created_at_millis,
    {
        let key = match self.key {
            Some(k) => k,
            None => {
                proof {
                    assert(false);
                }
                BackendKeyData { pid: 0, secret: 0 }
            },
        };
        Server { id: key, params: self.params, state: State::Idle, created_at: created_at_millis }
    }
}

} // verus!
