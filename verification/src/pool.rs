//! A bounded reservoir of backend sessions for one server address.
//!
//! The pool lends sessions out one caller at a time. A checkout either hands
//! over an idle session, reserves a slot for a fresh connection the transport
//! must open, or tells the caller to wait for a return. All accounting is
//! verified here; the transport performs the dialing and the waiting.

use vstd::prelude::*;
use crate::config::{PoolerMode, Role, requeue_ok, requeue_ok_exec};
use crate::errors::Error;
use crate::messages::BackendKeyData;
use crate::server::Server;
use crate::state::State;

verus! {

/// Network address of one PostgreSQL server.
#[derive(Clone, Debug)]
pub struct Address {
    pub host: String,
    pub port: u16,
}

impl Address {
    /// An identical copy.
    pub fn duplicate(&self) -> (a: Address)
        ensures
            a == *self,
    {
        Address { host: self.host.clone(), port: self.port }
    }
}

/// Tunables of one pool. Durations are in milliseconds.
#[derive(Clone, Copy, Debug, PartialEq, Eq, Structural)]
pub struct PoolSettings {
    /// Most sessions the pool will ever have alive at once.
    pub max_size: usize,
    /// Sessions the pool warms up ahead of demand.
    pub min_size: usize,
    /// An idle session older than this is eligible for eviction.
    pub idle_timeout: u64,
    /// How long a checkout may wait for a returned session.
    pub checkout_timeout: u64,
    /// How often idle sessions are probed for liveness.
    pub healthcheck_interval: u64,
}

impl PoolSettings {
    /// Whether a checkout that began waiting at `started_millis` has used up
    /// the configured checkout timeout by `now_millis` and must fail with
    /// `Timeout` instead of waiting on.
    pub fn checkout_expired(&self, started_millis: u64, now_millis: u64) -> (r: bool)
        ensures
            r == (now_millis >= started_millis && now_millis - started_millis
                >= self.checkout_timeout),
    {
        now_millis >= started_millis && now_millis - started_millis >= self.checkout_timeout
    }
}

/// Address plus settings: everything a pool is built from.
#[derive(Clone, Debug)]
pub struct PoolConfig {
    /// Database address.
    pub address: Address,
    /// Pool settings.
    pub config: PoolSettings,
}

impl PoolConfig {
    /// An identical copy.
    pub fn duplicate(&self) -> (c: PoolConfig)
        ensures
            c == *self,
    {
        PoolConfig { address: self.address.duplicate(), config: self.config }
    }
}

/// Which pool of a cluster a checkout touched.
#[derive(Clone, Copy, Debug, PartialEq, Eq, Structural)]
pub struct PoolRef {
    /// Shard index inside the cluster.
    pub shard: usize,
    /// Primary or replica side of the shard.
    pub role: Role,
    /// Index inside the replica set; zero for the primary.
    pub index: usize,
}

/// Exclusive checkout of one backend session.
///
/// The guard owns the session outright, so no second guard can reference the
/// same session; `at` names the pool the session must go back to.
#[derive(Debug)]
pub struct Guard {
    /// The session, exclusively owned until checkin.
    pub server: Server,
    /// The client key the checkout was made for.
    pub owner: BackendKeyData,
    /// The pool the session came from.
    pub at: PoolRef,
    /// The address the session is connected to.
    pub addr: Address,
}

/// A reserved slot: the pool counted a session that the transport still has
/// to open. Dial `addr`, run the startup handshake, then wrap the session
/// with [`ConnectTicket::into_guard`]; on failure hand the ticket back
/// through `abandon`.
#[derive(Debug)]
pub struct ConnectTicket {
    /// The pool holding the reservation.
    pub at: PoolRef,
    /// Where to connect.
    pub addr: Address,
    /// The client key the checkout was made for.
    pub owner: BackendKeyData,
}

impl ConnectTicket {
    /// Wrap a freshly established session into the guard the reservation was
    /// made for.
    pub fn into_guard(self, server: Server) -> (g: Guard)
        ensures
            g.server == server,
            g.owner == self.owner,
            g.at == self.at,
            g.addr == self.addr,
    {
        Guard { server, owner: self.owner, at: self.at, addr: self.addr }
    }
}

/// What a checkout attempt decided.
#[derive(Debug)]
pub enum Checkout {
    /// An idle session was handed out.
    Session(Guard),
    /// No idle session, but capacity remains: a slot was reserved and the
    /// transport must open a connection.
    Connect(ConnectTicket),
    /// The pool is at capacity: wait, bounded by the checkout timeout, for a
    /// session to come back, then retry.
    Wait(PoolRef),
}

/// Everything a cancellation needs: the server address and the key of the
/// session whose query is to be cancelled. The transport opens one fresh
/// connection for it; no pooled session is involved.
#[derive(Debug)]
pub struct CancelTicket {
    /// Where to connect.
    pub addr: Address,
    /// The `(pid, secret)` pair authorizing the cancellation.
    pub key: BackendKeyData,
}

/// Append every key of `src` to `dst`, in order.
pub fn extend_keys(dst: &mut Vec<BackendKeyData>, src: &Vec<BackendKeyData>)
    ensures
        final(dst)@ == old(dst)@ + src@,
{
    let ghost base = dst@;
    let mut i: usize = 0;
    while i < src.len()
        invariant
            i <= src@.len(),
            dst@ =~= base + src@.subrange(0, i as int),
        decreases src@.len() - i,
    {
        dst.push(src[i]);
        proof {
            assert(dst@ =~= base + src@.subrange(0, i + 1));
        }
        i = i + 1;
    }
    proof {
        assert(src@.subrange(0, src@.len() as int) =~= src@);
        assert(dst@ =~= base + src@);
    }
}

/// Index of the first session in `s` that has not failed; `s.len()` if every
/// one has.
pub open spec fn first_live(s: Seq<Server>) -> int
    decreases s.len(),
{
    if s.len() == 0 {
        0
    } else if s[0].spec_state() != State::Error {
        0
    } else {
        1 + first_live(s.drop_first())
    }
}

/// What [`first_live`] means: everything before it has failed, and it points
/// at a live session whenever one exists.
pub proof fn lemma_first_live(s: Seq<Server>)
    ensures
        0 <= first_live(s) <= s.len(),
        forall|i: int| 0 <= i < first_live(s) ==> s[i].spec_state() == State::Error,
        first_live(s) < s.len() ==> s[first_live(s)].spec_state() != State::Error,
    decreases s.len(),
{
    if s.len() > 0 && s[0].spec_state() == State::Error {
        lemma_first_live(s.drop_first());
        assert forall|i: int| 0 <= i < first_live(s) implies s[i].spec_state() == State::Error by {
            if i > 0 {
                assert(s.drop_first()[i - 1] == s[i]);
            }
        }
    }
}

/// Converse characterization: a position with failed sessions before it and a
/// live one (or the end) at it is exactly [`first_live`].
pub proof fn lemma_first_live_is(s: Seq<Server>, k: int)
    requires
        0 <= k <= s.len(),
        forall|i: int| 0 <= i < k ==> s[i].spec_state() == State::Error,
        k < s.len() ==> s[k].spec_state() != State::Error,
    ensures
        first_live(s) == k,
    decreases s.len(),
{
    if s.len() > 0 && k > 0 {
        assert(s[0].spec_state() == State::Error);
        assert forall|i: int| 0 <= i < k - 1 implies s.drop_first()[i].spec_state() == State::Error by {
            assert(s.drop_first()[i] == s[i + 1]);
        }
        if k < s.len() {
            assert(s.drop_first()[k - 1] == s[k]);
        }
        lemma_first_live_is(s.drop_first(), k - 1);
    }
}

/// No two sessions in `s` share a cancellation key.
pub open spec fn distinct_ids(s: Seq<Server>) -> bool {
    forall|i: int, j: int|
        0 <= i < j < s.len() ==> s[i].spec_id() != s[j].spec_id()
}

/// A bounded pool of sessions to one address. `waiters` holds the client
/// keys of checkouts waiting at capacity, in arrival order: they are served
/// first come, first served.
pub struct Pool {
    config: PoolConfig,
    idle: Vec<Server>,
    total: usize,
    shut_down: bool,
    waiters: Vec<BackendKeyData>,
}

/// A pool that has just been built from `config`: empty, online, with no
/// sessions and no waiters.
pub open spec fn fresh_pool(p: Pool, config: PoolConfig) -> bool {
    &&& p.spec_config() == config
    &&& p.spec_idle().len() == 0
    &&& p.spec_total() == 0
    &&& !p.spec_shut_down()
    &&& p.spec_waiters().len() == 0
}

/// Some session in `s` carries the key `id`.
pub open spec fn has_key(s: Seq<Server>, id: BackendKeyData) -> bool {
    exists|i: int| 0 <= i < s.len() && s[i].spec_id() == id
}

/// Whether an idle session may still be handed out at `now_millis`: it has
/// not failed and, when an idle timeout is configured, it has not outlived
/// it. Staleness is measured from the session's creation: a bound that needs
/// no per-return stamping and never under-evicts.
pub open spec fn keep_idle(s: Server, now_millis: u64, idle_timeout: u64) -> bool {
    &&& s.spec_state() != State::Error
    &&& !(idle_timeout > 0 && now_millis >= s.spec_created_at() && now_millis
        - s.spec_created_at() >= idle_timeout)
}

/// The idle sessions that survive an eviction sweep at `now_millis`, in
/// order.
pub open spec fn surviving(s: Seq<Server>, now_millis: u64, idle_timeout: u64) -> Seq<Server>
    decreases s.len(),
{
    if s.len() == 0 {
        Seq::empty()
    } else {
        (if keep_idle(s[0], now_millis, idle_timeout) {
            seq![s[0]]
        } else {
            Seq::empty()
        }) + surviving(s.drop_first(), now_millis, idle_timeout)
    }
}

/// A sweep never grows the queue, keeps keys distinct, and introduces no key
/// that was not already there.
pub proof fn lemma_surviving(s: Seq<Server>, now_millis: u64, idle_timeout: u64)
    ensures
        surviving(s, now_millis, idle_timeout).len() <= s.len(),
        distinct_ids(s) ==> distinct_ids(surviving(s, now_millis, idle_timeout)),
        forall|id: BackendKeyData|
            has_key(surviving(s, now_millis, idle_timeout), id) ==> has_key(s, id),
    decreases s.len(),
{
    if s.len() > 0 {
        let rest = s.drop_first();
        let sv = surviving(s, now_millis, idle_timeout);
        let svr = surviving(rest, now_millis, idle_timeout);
        lemma_surviving(rest, now_millis, idle_timeout);
        let off: int = if keep_idle(s[0], now_millis, idle_timeout) {
            1
        } else {
            0
        };
        assert forall|id: BackendKeyData| has_key(sv, id) implies has_key(s, id) by {
            let i = choose|i: int| 0 <= i < sv.len() && sv[i].spec_id() == id;
            if off == 1 && i == 0 {
                assert(s[0].spec_id() == id);
            } else {
                assert(sv[i] == svr[i - off]);
                assert(has_key(svr, id));
                assert(has_key(rest, id));
                let j = choose|j: int| 0 <= j < rest.len() && rest[j].spec_id() == id;
                assert(s[j + 1].spec_id() == id);
            }
        }
        if distinct_ids(s) {
            assert forall|i: int, j: int|
                0 <= i < j < rest.len() implies rest[i].spec_id() != rest[j].spec_id() by {
                assert(rest[i] == s[i + 1]);
                assert(rest[j] == s[j + 1]);
            }
            assert forall|i: int, j: int|
                0 <= i < j < sv.len() implies sv[i].spec_id() != sv[j].spec_id() by {
                if off == 1 && i == 0 {
                    assert(sv[j] == svr[j - 1]);
                    if sv[0].spec_id() == sv[j].spec_id() {
                        assert(has_key(svr, s[0].spec_id()));
                        assert(has_key(rest, s[0].spec_id()));
                        let k = choose|k: int|
                            0 <= k < rest.len() && rest[k].spec_id() == s[0].spec_id();
                        assert(rest[k] == s[k + 1]);
                        assert(false);
                    }
                } else {
                    assert(sv[i] == svr[i - off]);
                    assert(sv[j] == svr[j - off]);
                }
            }
        }
    }
}

/// The full effect of one eviction sweep at `now_millis`: exactly the
/// serviceable idle sessions stay, in order, the destroyed ones are
/// uncounted, and nothing else moves.
pub open spec fn sweep_outcome(p0: Pool, p1: Pool, now_millis: u64) -> bool {
    &&& p1.spec_config() == p0.spec_config()
    &&& p1.spec_shut_down() == p0.spec_shut_down()
    &&& p1.spec_waiters() == p0.spec_waiters()
    &&& p1.spec_idle() == surviving(
        p0.spec_idle(),
        now_millis,
        p0.spec_config().config.idle_timeout,
    )
    &&& p1.spec_total() == p0.spec_total() - (p0.spec_idle().len() - p1.spec_idle().len())
}

/// The full effect of withdrawing the waiter `w`: the first queue entry
/// carrying it leaves, the rest keep their order, and nothing else moves.
pub open spec fn cancel_waiter_outcome(p0: Pool, p1: Pool, w: BackendKeyData, found: bool) -> bool {
    &&& p1.spec_config() == p0.spec_config()
    &&& p1.spec_shut_down() == p0.spec_shut_down()
    &&& p1.spec_idle() == p0.spec_idle()
    &&& p1.spec_total() == p0.spec_total()
    &&& found == (first_waiter(p0.spec_waiters(), w) < p0.spec_waiters().len() as int)
    &&& found ==> p1.spec_waiters() == p0.spec_waiters().remove(
        first_waiter(p0.spec_waiters(), w),
    )
    &&& !found ==> p1.spec_waiters() == p0.spec_waiters()
}

/// Position of the first waiter carrying `w`; `ws.len()` if none does.
pub open spec fn first_waiter(ws: Seq<BackendKeyData>, w: BackendKeyData) -> int
    decreases ws.len(),
{
    if ws.len() == 0 {
        0
    } else if ws[0] == w {
        0
    } else {
        1 + first_waiter(ws.drop_first(), w)
    }
}

/// Converse characterization of [`first_waiter`].
pub proof fn lemma_first_waiter_is(ws: Seq<BackendKeyData>, w: BackendKeyData, k: int)
    requires
        0 <= k <= ws.len(),
        forall|i: int| 0 <= i < k ==> ws[i] != w,
        k < ws.len() ==> ws[k] == w,
    ensures
        first_waiter(ws, w) == k,
    decreases ws.len(),
{
    if ws.len() > 0 && k > 0 {
        assert forall|i: int| 0 <= i < k - 1 implies ws.drop_first()[i] != w by {
            assert(ws.drop_first()[i] == ws[i + 1]);
        }
        if k < ws.len() {
            assert(ws.drop_first()[k - 1] == ws[k]);
        }
        lemma_first_waiter_is(ws.drop_first(), w, k - 1);
    }
}

/// The full effect of one checkout attempt on a pool: how `p0` became `p1`
/// and what the caller was given. A shut-down pool refuses. Otherwise failed
/// sessions at the front of the idle queue are discarded, the first live one
/// is handed out; with the queue exhausted, a slot is reserved for a fresh
/// connection when the pool is under its maximum, and the caller is told to
/// wait when it is not — and joins the back of the waiter queue, to be served
/// first come, first served.
pub open spec fn checkout_outcome(
    p0: Pool,
    p1: Pool,
    r: Result<Checkout, Error>,
    at: PoolRef,
    owner: BackendKeyData,
) -> bool {
    &&& p1.spec_config() == p0.spec_config()
    &&& p1.spec_shut_down() == p0.spec_shut_down()
    &&& if p0.spec_shut_down() {
        r == Err::<Checkout, Error>(Error::Shutdown) && p1 == p0
    } else {
        let k = first_live(p0.spec_idle());
        let n = p0.spec_idle().len() as int;
        if k < n {
            &&& r == Ok::<Checkout, Error>(
                Checkout::Session(
                    Guard {
                        server: p0.spec_idle()[k],
                        owner: owner,
                        at: at,
                        addr: p0.spec_config().address,
                    },
                ),
            )
            &&& p1.spec_idle() == p0.spec_idle().subrange(k + 1, n)
            &&& p1.spec_total() == p0.spec_total() - k
            &&& p1.spec_waiters() == p0.spec_waiters()
        } else {
            &&& p1.spec_idle().len() == 0
            &&& if p0.spec_total() - n < p0.spec_max_size() {
                &&& r == Ok::<Checkout, Error>(
                    Checkout::Connect(
                        ConnectTicket { at: at, addr: p0.spec_config().address, owner: owner },
                    ),
                )
                &&& p1.spec_total() == p0.spec_total() - n + 1
                &&& p1.spec_waiters() == p0.spec_waiters()
            } else {
                &&& r == Ok::<Checkout, Error>(Checkout::Wait(at))
                &&& p1.spec_total() == p0.spec_total() - n
                &&& p1.spec_waiters() == p0.spec_waiters().push(owner)
            }
        }
    }
}

/// What became of a returned session.
#[derive(Debug)]
pub enum Checkin {
    /// The session joined the back of the idle queue.
    Requeued,
    /// The session was handed straight to the first waiter in line, who now
    /// owns it exclusively: waiters are served first come, first served.
    Handed(BackendKeyData, Server),
    /// The session was destroyed. When a waiter was in line, the first one
    /// is named so the transport can wake it: its turn has come and the
    /// freed slot lets its retry reserve a connection.
    Discarded(Option<BackendKeyData>),
}

/// The full effect of returning `server` to a pool under `mode`: a clean
/// session (or, in session mode, one still inside a transaction) goes to the
/// first waiter in line, or to the back of the idle queue when nobody waits;
/// anything else — a failed session above all — is discarded, its slot freed
/// and the first waiter (if any) woken. The guards against foreign returns
/// (a duplicate key, a return nothing was lent out for, a pool already shut
/// down) also discard.
pub open spec fn checkin_outcome(
    p0: Pool,
    p1: Pool,
    server: Server,
    mode: PoolerMode,
    r: Checkin,
) -> bool {
    &&& p1.spec_config() == p0.spec_config()
    &&& p1.spec_shut_down() == p0.spec_shut_down()
    &&& if requeue_ok(mode, server.spec_state()) && p0.spec_idle().len() < p0.spec_total() && !(
    exists|i: int|
        0 <= i < p0.spec_idle().len() && p0.spec_idle()[i].spec_id() == server.spec_id())
        && !p0.spec_shut_down() {
        if p0.spec_waiters().len() > 0 {
            &&& r == Checkin::Handed(p0.spec_waiters()[0], server)
            &&& p1.spec_idle() == p0.spec_idle()
            &&& p1.spec_total() == p0.spec_total()
            &&& p1.spec_waiters() == p0.spec_waiters().drop_first()
        } else {
            &&& r == Checkin::Requeued
            &&& p1.spec_idle() == p0.spec_idle().push(server)
            &&& p1.spec_total() == p0.spec_total()
            &&& p1.spec_waiters() == p0.spec_waiters()
        }
    } else {
        &&& p1.spec_idle() == p0.spec_idle()
        &&& p1.spec_total() == if p0.spec_total() > p0.spec_idle().len() {
            p0.spec_total() - 1
        } else {
            p0.spec_total()
        }
        &&& if p0.spec_waiters().len() > 0 {
            &&& r == Checkin::Discarded(Some(p0.spec_waiters()[0]))
            &&& p1.spec_waiters() == p0.spec_waiters().drop_first()
        } else {
            &&& r == Checkin::Discarded(None::<BackendKeyData>)
            &&& p1.spec_waiters() == p0.spec_waiters()
        }
    }
}

/// The full effect of freeing a reserved slot: the idle queue is untouched,
/// one outstanding session is uncounted (when one is outstanding at all),
/// and the first waiter in line, if any, is named so the transport can wake
/// it — the freed slot is its to take.
pub open spec fn abandon_outcome(p0: Pool, p1: Pool, woken: Option<BackendKeyData>) -> bool {
    &&& p1.spec_config() == p0.spec_config()
    &&& p1.spec_shut_down() == p0.spec_shut_down()
    &&& p1.spec_idle() == p0.spec_idle()
    &&& p1.spec_total() == if p0.spec_total() > p0.spec_idle().len() {
        p0.spec_total() - 1
    } else {
        p0.spec_total()
    }
    &&& if p0.spec_waiters().len() > 0 {
        woken == Some(p0.spec_waiters()[0]) && p1.spec_waiters()
            == p0.spec_waiters().drop_first()
    } else {
        woken is None && p1.spec_waiters() == p0.spec_waiters()
    }
}

/// The full effect of warming a session into the idle queue: accepted exactly
/// while the pool is online, under capacity and the key is new, in which case
/// the session joins the back of the queue.
pub open spec fn add_idle_outcome(p0: Pool, p1: Pool, server: Server, accepted: bool) -> bool {
    &&& p1.spec_config() == p0.spec_config()
    &&& p1.spec_shut_down() == p0.spec_shut_down()
    &&& accepted == (!p0.spec_shut_down() && p0.spec_total() < p0.spec_max_size() && !(exists|
    i: int|
        0 <= i < p0.spec_idle().len() && p0.spec_idle()[i].spec_id() == server.spec_id()))
    &&& accepted ==> p1.spec_idle() == p0.spec_idle().push(server) && p1.spec_total()
        == p0.spec_total() + 1 && p1.spec_waiters() == p0.spec_waiters()
    &&& !accepted ==> p1 == p0
}

/// Discard on error: a session returned in the failed state is never added
/// to the idle queue — whatever the mode, the queue is exactly what it was
/// and the failed session's slot is freed.
pub proof fn lemma_discard_on_error(
    p0: Pool,
    p1: Pool,
    server: Server,
    mode: PoolerMode,
    r: Checkin,
)
    requires
        checkin_outcome(p0, p1, server, mode, r),
        server.spec_state() == State::Error,
    ensures
        p1.spec_idle() == p0.spec_idle(),
        p0.spec_total() > p0.spec_idle().len() ==> p1.spec_total() == p0.spec_total() - 1,
{
}

impl Pool {
    /// The pool's address and settings.
    pub closed spec fn spec_config(&self) -> PoolConfig {
        self.config
    }

    /// The idle queue, front first.
    pub closed spec fn spec_idle(&self) -> Seq<Server> {
        self.idle@
    }

    /// Sessions alive: idle, checked out, or reserved for dialing.
    pub closed spec fn spec_total(&self) -> int {
        self.total as int
    }

    /// The pool refuses checkouts.
    pub closed spec fn spec_shut_down(&self) -> bool {
        self.shut_down
    }

    /// The clients waiting at capacity, first in line first.
    pub closed spec fn spec_waiters(&self) -> Seq<BackendKeyData> {
        self.waiters@
    }

    /// The configured capacity.
    pub open spec fn spec_max_size(&self) -> int {
        self.spec_config().config.max_size as int
    }

    /// Sessions currently lent out or being dialed.
    pub open spec fn spec_in_use(&self) -> int {
        self.spec_total() - self.spec_idle().len()
    }

    /// Pool accounting is sound: the idle queue never outgrows the live
    /// count, the live count never exceeds the capacity, and no two idle
    /// sessions share a key.
    pub open spec fn wf(&self) -> bool {
        &&& self.spec_idle().len() <= self.spec_total() <= self.spec_max_size()
        &&& distinct_ids(self.spec_idle())
    }

    /// Capacity law: sessions in use plus sessions idle never exceed the
    /// configured maximum.
    pub proof fn lemma_capacity(&self)
        requires
            self.wf(),
        ensures
            self.spec_in_use() + self.spec_idle().len() <= self.spec_max_size(),
    {
    }

    /// A fresh pool: empty, online, bound to `config`, nobody waiting.
    pub fn new(config: &PoolConfig) -> (p: Pool)
        ensures
            p.wf(),
            fresh_pool(p, *config),
    {
        Pool {
            config: config.duplicate(),
            idle: Vec::new(),
            total: 0,
            shut_down: false,
            waiters: Vec::new(),
        }
    }

    /// An equivalent, independent pool: same address and settings, no
    /// sessions yet. Used for live reconfiguration, where the original is
    /// dropped afterwards.
    pub fn duplicate(&self) -> (p: Pool)
        ensures
            p.wf(),
            fresh_pool(p, self.spec_config()),
    {
        Pool::new(&self.config)
    }

    /// The address the pool connects to.
    pub fn addr(&self) -> (a: &Address)
        ensures
            *a == self.spec_config().address,
    {
        &self.config.address
    }

    /// The pool's settings.
    pub fn settings(&self) -> (s: PoolSettings)
        ensures
            s == self.spec_config().config,
    {
        self.config.config
    }

    /// Sessions currently lent out or being dialed.
    pub fn in_use(&self) -> (r: usize)
        requires
            self.wf(),
        ensures
            r == self.spec_in_use(),
    {
        self.total - self.idle.len()
    }

    /// Sessions alive in any form.
    pub fn len(&self) -> (r: usize)
        ensures
            r == self.spec_total(),
    {
        self.total
    }

    /// Sessions waiting in the idle queue.
    pub fn idle_len(&self) -> (r: usize)
        ensures
            r == self.spec_idle().len(),
    {
        self.idle.len()
    }

    /// The pool refuses checkouts.
    pub fn is_shut_down(&self) -> (r: bool)
        ensures
            r == self.spec_shut_down(),
    {
        self.shut_down
    }

    /// Whether some idle session carries this key.
    pub fn has_id(&self, id: &BackendKeyData) -> (r: bool)
        ensures
            r == exists|i: int| 0 <= i < self.spec_idle().len() && self.spec_idle()[i].spec_id() == *id,
    {
        let mut i: usize = 0;
        while i < self.idle.len()
            invariant
                i <= self.spec_idle().len(),
                forall|j: int| 0 <= j < i ==> self.spec_idle()[j].spec_id() != *id,
            decreases self.spec_idle().len() - i,
        {
            if self.idle[i].id().pid == id.pid && self.idle[i].id().secret == id.secret {
                assert(self.spec_idle()[i as int].spec_id() == *id);
                return true;
            }
            i = i + 1;
        }
        false
    }

    /// One checkout attempt for the client `owner`, with this pool standing
    /// at `at` in its cluster. Failed sessions found at the front of the idle
    /// queue are discarded on the way, exactly as [`checkout_outcome`] says.
    ///
    /// Exclusivity: a handed-out session leaves the pool entirely; no idle
    /// session shares its key.
    pub fn get(&mut self, owner: &BackendKeyData, at: PoolRef) -> (r: Result<Checkout, Error>)
        requires
            old(self).wf(),
        ensures
            final(self).wf(),
            checkout_outcome(*old(self), *final(self), r, at, *owner),
            r matches Ok(c) ==> (c matches Checkout::Session(g) ==> forall|i: int|
                0 <= i < final(self).spec_idle().len() ==> final(self).spec_idle()[i].spec_id()
                    != g.server.spec_id()),
    {
        if self.shut_down {
            return Err(Error::Shutdown);
        }
        let ghost p0 = *self;
        let mut discarded: usize = 0;
        while self.idle.len() > 0
            invariant
                p0 == *old(self),
                self.wf(),
                self.spec_config() == p0.spec_config(),
                !self.spec_shut_down(),
                !p0.spec_shut_down(),
                discarded <= p0.spec_idle().len(),
                self.spec_idle() =~= p0.spec_idle().subrange(
                    discarded as int,
                    p0.spec_idle().len() as int,
                ),
                self.spec_total() == p0.spec_total() - discarded,
                self.spec_waiters() == p0.spec_waiters(),
                forall|i: int| 0 <= i < discarded ==> p0.spec_idle()[i].spec_state() == State::Error,
                p0.wf(),
            decreases self.spec_idle().len(),
        {
            let s = self.idle.remove(0);
            assert(s == p0.spec_idle()[discarded as int]);
            if s.error() {
                self.total = self.total - 1;
                discarded = discarded + 1;
                assert(self.spec_idle() =~= p0.spec_idle().subrange(
                    discarded as int,
                    p0.spec_idle().len() as int,
                ));
            } else {
                proof {
                    lemma_first_live_is(p0.spec_idle(), discarded as int);
                }
                let g = Guard {
                    server: s,
                    owner: *owner,
                    at,
                    addr: self.config.address.duplicate(),
                };
                proof {
                    let k = first_live(p0.spec_idle());
                    assert(self.spec_idle() =~= p0.spec_idle().subrange(
                        k + 1,
                        p0.spec_idle().len() as int,
                    ));
                    assert forall|i: int| 0 <= i < self.spec_idle().len() implies self.spec_idle()[i].spec_id()
                        != g.server.spec_id() by {
                        assert(self.spec_idle()[i] == p0.spec_idle()[k + 1 + i]);
                    }
                }
                return Ok(Checkout::Session(g));
            }
        }
        proof {
            lemma_first_live_is(p0.spec_idle(), p0.spec_idle().len() as int);
        }
        if self.total < self.config.config.max_size {
            self.total = self.total + 1;
            Ok(
                Checkout::Connect(
                    ConnectTicket { at, addr: self.config.address.duplicate(), owner: *owner },
                ),
            )
        } else {
            self.waiters.push(*owner);
            Ok(Checkout::Wait(at))
        }
    }

    /// Return a session. A clean one goes to the back of the idle queue; one
    /// that failed, is mid-exchange, or holds a transaction the mode forbids
    /// handing off is discarded and its slot freed. A session observed in the
    /// failed state is therefore never requeued. The two guards against
    /// foreign returns (a duplicate key, or a return that nothing was lent
    /// out for) also discard.
    pub fn checkin(&mut self, server: Server, mode: PoolerMode) -> (r: Checkin)
        requires
            old(self).wf(),
        ensures
            final(self).wf(),
            checkin_outcome(*old(self), *final(self), server, mode, r),
    {
        let requeue = requeue_ok_exec(mode, server.state()) && self.idle.len() < self.total
            && !self.has_id(server.id()) && !self.shut_down;
        if requeue {
            if self.waiters.len() > 0 {
                let w = self.waiters.remove(0);
                Checkin::Handed(w, server)
            } else {
                self.idle.push(server);
                assert(self.spec_idle().drop_last() == old(self).spec_idle());
                Checkin::Requeued
            }
        } else {
            if self.total > self.idle.len() {
                self.total = self.total - 1;
            }
            if self.waiters.len() > 0 {
                let w = self.waiters.remove(0);
                Checkin::Discarded(Some(w))
            } else {
                Checkin::Discarded(None)
            }
        }
    }

    /// Free a reserved slot whose connection could not be opened, naming the
    /// first waiter in line (if any) so the transport can wake it.
    pub fn abandon(&mut self) -> (woken: Option<BackendKeyData>)
        requires
            old(self).wf(),
        ensures
            final(self).wf(),
            abandon_outcome(*old(self), *final(self), woken),
    {
        if self.total > self.idle.len() {
            self.total = self.total - 1;
        }
        if self.waiters.len() > 0 {
            Some(self.waiters.remove(0))
        } else {
            None
        }
    }

    /// Put a session straight into the idle queue, used when pre-warming.
    /// Accepted only while the pool is online, under capacity, and the
    /// session's key is new; whether it is still live is the checkout's
    /// concern — an idle session can decay at any time.
    pub fn add_idle(&mut self, server: Server) -> (accepted: bool)
        requires
            old(self).wf(),
        ensures
            final(self).wf(),
            add_idle_outcome(*old(self), *final(self), server, accepted),
    {
        let accepted = !self.shut_down && self.total < self.config.config.max_size
            && !self.has_id(server.id());
        if accepted {
            self.idle.push(server);
            self.total = self.total + 1;
            assert(self.spec_idle().drop_last() == old(self).spec_idle());
        }
        accepted
    }

    /// Bring the pool online and say how many sessions to warm up to reach
    /// the configured minimum.
    pub fn launch(&mut self) -> (warm: usize)
        requires
            old(self).wf(),
        ensures
            final(self).wf(),
            final(self).spec_config() == old(self).spec_config(),
            final(self).spec_idle() == old(self).spec_idle(),
            final(self).spec_total() == old(self).spec_total(),
            final(self).spec_waiters() == old(self).spec_waiters(),
            !final(self).spec_shut_down(),
            warm == if old(self).spec_config().config.min_size > old(self).spec_total() {
                old(self).spec_config().config.min_size - old(self).spec_total()
            } else {
                0
            },
    {
        self.shut_down = false;
        if self.config.config.min_size > self.total {
            self.config.config.min_size - self.total
        } else {
            0
        }
    }

    /// Take the pool offline: the idle queue is drained (those sessions are
    /// destroyed), every further checkout is refused with `Shutdown`, and the
    /// outstanding waiters are returned so the transport can fail each of
    /// them with `Shutdown`.
    pub fn shutdown(&mut self) -> (cancelled: Vec<BackendKeyData>)
        requires
            old(self).wf(),
        ensures
            final(self).wf(),
            final(self).spec_config() == old(self).spec_config(),
            final(self).spec_shut_down(),
            final(self).spec_idle().len() == 0,
            final(self).spec_total() == old(self).spec_total() - old(self).spec_idle().len(),
            final(self).spec_waiters().len() == 0,
            cancelled@ == old(self).spec_waiters(),
    {
        self.total = self.total - self.idle.len();
        self.idle = Vec::new();
        self.shut_down = true;
        let mut cancelled: Vec<BackendKeyData> = Vec::new();
        core::mem::swap(&mut cancelled, &mut self.waiters);
        cancelled
    }

    /// Withdraw a waiter, as when its checkout timed out or its task was
    /// dropped: the first queue entry carrying `w` leaves; the rest keep
    /// their order. Reports whether one was found.
    pub fn cancel_waiter(&mut self, w: &BackendKeyData) -> (found: bool)
        requires
            old(self).wf(),
        ensures
            final(self).wf(),
            cancel_waiter_outcome(*old(self), *final(self), *w, found),
    {
        let mut i: usize = 0;
        while i < self.waiters.len()
            invariant
                *self == *old(self),
                self.wf(),
                i <= self.spec_waiters().len(),
                forall|j: int| 0 <= j < i ==> self.spec_waiters()[j] != *w,
            decreases self.spec_waiters().len() - i,
        {
            if self.waiters[i].pid == w.pid && self.waiters[i].secret == w.secret {
                proof {
                    lemma_first_waiter_is(self.spec_waiters(), *w, i as int);
                }
                self.waiters.remove(i);
                return true;
            }
            i = i + 1;
        }
        proof {
            lemma_first_waiter_is(self.spec_waiters(), *w, self.spec_waiters().len() as int);
        }
        false
    }

    /// Evict from the idle queue every session that has failed or, when an
    /// idle timeout is configured, has outlived it by `now_millis`. The
    /// transport runs this at each healthcheck interval; [`surviving`] says
    /// exactly who stays. Returns how many sessions were destroyed.
    pub fn sweep_idle(&mut self, now_millis: u64) -> (evicted: usize)
        requires
            old(self).wf(),
        ensures
            final(self).wf(),
            sweep_outcome(*old(self), *final(self), now_millis),
            evicted == old(self).spec_idle().len() - final(self).spec_idle().len(),
    {
        let ghost all = self.spec_idle();
        let ghost timeout = self.spec_config().config.idle_timeout;
        let timeout_ms = self.config.config.idle_timeout;
        let mut kept: Vec<Server> = Vec::new();
        let mut evicted: usize = 0;
        while self.idle.len() > 0
            invariant
                timeout == timeout_ms,
                self.spec_config() == old(self).spec_config(),
                self.spec_shut_down() == old(self).spec_shut_down(),
                self.spec_waiters() == old(self).spec_waiters(),
                self.spec_total() == old(self).spec_total(),
                all == old(self).spec_idle(),
                all.len() <= self.spec_total() <= self.spec_config().config.max_size,
                distinct_ids(all),
                kept@.len() + evicted + self.spec_idle().len() == all.len(),
                surviving(all, now_millis, timeout) == kept@ + surviving(
                    self.spec_idle(),
                    now_millis,
                    timeout,
                ),
            decreases self.spec_idle().len(),
        {
            let ghost rem = self.spec_idle();
            let s = self.idle.remove(0);
            let live = !s.error() && !(timeout_ms > 0 && s.age(now_millis) >= timeout_ms);
            proof {
                assert(rem.drop_first() =~= self.spec_idle());
            }
            if live {
                kept.push(s);
                proof {
                    assert(kept@ + surviving(self.spec_idle(), now_millis, timeout)
                        =~= kept@.drop_last() + surviving(rem, now_millis, timeout));
                }
            } else {
                evicted = evicted + 1;
                proof {
                    assert(kept@ + surviving(self.spec_idle(), now_millis, timeout)
                        =~= kept@ + surviving(rem, now_millis, timeout));
                }
            }
        }
        proof {
            assert(surviving(self.spec_idle(), now_millis, timeout)
                =~= Seq::<Server>::empty());
            assert(kept@ =~= surviving(all, now_millis, timeout));
            lemma_surviving(all, now_millis, timeout);
        }
        self.idle = kept;
        self.total = self.total - evicted;
        evicted
    }

    /// Cancellation of whatever query the session keyed by `id` is running:
    /// the ticket carries the pool's address and the key, and the pool itself
    /// is untouched — no pooled session is consumed.
    pub fn cancel(&self, id: &BackendKeyData) -> (t: CancelTicket)
        ensures
            t.addr == self.spec_config().address,
            t.key == *id,
    {
        CancelTicket { addr: self.config.address.duplicate(), key: *id }
    }
}

} // verus!
