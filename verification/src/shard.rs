//! A shard: an optional primary pool plus a replica set.

use vstd::prelude::*;
use crate::config::{LoadBalancingStrategy, PoolerMode, Role};
use crate::errors::Error;
use crate::messages::BackendKeyData;
use crate::pool::{CancelTicket, Checkin, Checkout, Pool, PoolConfig, PoolRef, abandon_outcome, add_idle_outcome, cancel_waiter_outcome, checkin_outcome, checkout_outcome, extend_keys, fresh_pool, sweep_outcome};
use crate::server::Server;
use crate::replicas::{Replicas, pools_waiters, replicas_outcome};

verus! {

/// The full effect of one primary checkout on a shard standing at
/// `shard_index`: without a primary the request fails, otherwise the primary
/// pool went through one checkout attempt and the replicas did not move.
pub open spec fn primary_outcome(
    s0: Shard,
    s1: Shard,
    r: Result<Checkout, Error>,
    shard_index: usize,
    owner: BackendKeyData,
) -> bool {
    &&& s1.spec_replicas() == s0.spec_replicas()
    &&& match s0.spec_primary() {
        None => r == Err::<Checkout, Error>(Error::NoPrimary) && s1 == s0,
        Some(p0) => s1.spec_primary() matches Some(p1) && checkout_outcome(
            p0,
            p1,
            r,
            PoolRef { shard: shard_index, role: Role::Primary, index: 0 },
            owner,
        ),
    }
}

/// The full effect of one replica checkout on a shard: with no replicas
/// configured the request falls back to the primary (and fails with
/// `NoDatabases` when there is none either); otherwise the replica set served
/// it and the primary did not move.
pub open spec fn replica_outcome(
    s0: Shard,
    s1: Shard,
    r: Result<Checkout, Error>,
    shard_index: usize,
    owner: BackendKeyData,
    entropy: u64,
) -> bool {
    if s0.spec_replicas().spec_pools().len() == 0 {
        &&& s1.spec_replicas() == s0.spec_replicas()
        &&& match s0.spec_primary() {
            None => r == Err::<Checkout, Error>(Error::NoDatabases) && s1 == s0,
            Some(p0) => s1.spec_primary() matches Some(p1) && checkout_outcome(
                p0,
                p1,
                r,
                PoolRef { shard: shard_index, role: Role::Primary, index: 0 },
                owner,
            ),
        }
    } else {
        &&& s1.spec_primary() == s0.spec_primary()
        &&& replicas_outcome(
            s0.spec_replicas(),
            s1.spec_replicas(),
            r,
            shard_index,
            owner,
            entropy,
        )
    }
}

/// The cancellation ticket aimed at one pool.
pub open spec fn pool_ticket(p: Pool, id: BackendKeyData) -> CancelTicket {
    CancelTicket { addr: p.spec_config().address, key: id }
}

/// One cancellation ticket per replica pool, in order.
pub open spec fn replica_tickets(pools: Seq<Pool>, id: BackendKeyData) -> Seq<CancelTicket> {
    Seq::new(pools.len(), |i: int| pool_ticket(pools[i], id))
}

/// The tickets a shard-wide cancellation issues: the primary first (when the
/// shard has one), then every replica.
pub open spec fn shard_tickets(s: Shard, id: BackendKeyData) -> Seq<CancelTicket> {
    (match s.spec_primary() {
        Some(p) => seq![pool_ticket(p, id)],
        None => Seq::empty(),
    }) + replica_tickets(s.spec_replicas().spec_pools(), id)
}

/// The full effect of returning a session to the pool `(role, index)` of a
/// shard: that pool went through one checkin and nothing else moved.
pub open spec fn shard_checkin_outcome(
    s0: Shard,
    s1: Shard,
    role: Role,
    index: usize,
    server: Server,
    mode: PoolerMode,
    r: Checkin,
) -> bool {
    match role {
        Role::Primary => s1.spec_replicas() == s0.spec_replicas() && (s0.spec_primary()
            matches Some(p0) && s1.spec_primary() matches Some(p1) && checkin_outcome(
            p0,
            p1,
            server,
            mode,
            r,
        )),
        Role::Replica => {
            &&& s1.spec_primary() == s0.spec_primary()
            &&& s1.spec_replicas().spec_strategy() == s0.spec_replicas().spec_strategy()
            &&& s1.spec_replicas().spec_cursor() == s0.spec_replicas().spec_cursor()
            &&& s1.spec_replicas().spec_pools().len() == s0.spec_replicas().spec_pools().len()
            &&& forall|j: int|
                0 <= j < s0.spec_replicas().spec_pools().len() && j != index
                    ==> s1.spec_replicas().spec_pools()[j] == s0.spec_replicas().spec_pools()[j]
            &&& checkin_outcome(
                s0.spec_replicas().spec_pools()[index as int],
                s1.spec_replicas().spec_pools()[index as int],
                server,
                mode,
                r,
            )
        },
    }
}

/// The full effect of freeing a reserved slot of the pool `(role, index)`.
pub open spec fn shard_abandon_outcome(
    s0: Shard,
    s1: Shard,
    role: Role,
    index: usize,
    woken: Option<BackendKeyData>,
) -> bool {
    match role {
        Role::Primary => s1.spec_replicas() == s0.spec_replicas() && (s0.spec_primary()
            matches Some(p0) && s1.spec_primary() matches Some(p1) && abandon_outcome(
            p0,
            p1,
            woken,
        )),
        Role::Replica => {
            &&& s1.spec_primary() == s0.spec_primary()
            &&& s1.spec_replicas().spec_strategy() == s0.spec_replicas().spec_strategy()
            &&& s1.spec_replicas().spec_cursor() == s0.spec_replicas().spec_cursor()
            &&& s1.spec_replicas().spec_pools().len() == s0.spec_replicas().spec_pools().len()
            &&& forall|j: int|
                0 <= j < s0.spec_replicas().spec_pools().len() && j != index
                    ==> s1.spec_replicas().spec_pools()[j] == s0.spec_replicas().spec_pools()[j]
            &&& abandon_outcome(
                s0.spec_replicas().spec_pools()[index as int],
                s1.spec_replicas().spec_pools()[index as int],
                woken,
            )
        },
    }
}

/// The full effect of withdrawing waiter `w` from the pool `(role, index)`.
pub open spec fn shard_cancel_waiter_outcome(
    s0: Shard,
    s1: Shard,
    role: Role,
    index: usize,
    w: BackendKeyData,
    found: bool,
) -> bool {
    match role {
        Role::Primary => s1.spec_replicas() == s0.spec_replicas() && (s0.spec_primary()
            matches Some(p0) && s1.spec_primary() matches Some(p1) && cancel_waiter_outcome(
            p0,
            p1,
            w,
            found,
        )),
        Role::Replica => {
            &&& s1.spec_primary() == s0.spec_primary()
            &&& s1.spec_replicas().spec_strategy() == s0.spec_replicas().spec_strategy()
            &&& s1.spec_replicas().spec_cursor() == s0.spec_replicas().spec_cursor()
            &&& s1.spec_replicas().spec_pools().len() == s0.spec_replicas().spec_pools().len()
            &&& forall|j: int|
                0 <= j < s0.spec_replicas().spec_pools().len() && j != index
                    ==> s1.spec_replicas().spec_pools()[j] == s0.spec_replicas().spec_pools()[j]
            &&& cancel_waiter_outcome(
                s0.spec_replicas().spec_pools()[index as int],
                s1.spec_replicas().spec_pools()[index as int],
                w,
                found,
            )
        },
    }
}

/// The full effect of warming a session into the pool `(role, index)`.
pub open spec fn shard_add_idle_outcome(
    s0: Shard,
    s1: Shard,
    role: Role,
    index: usize,
    server: Server,
    accepted: bool,
) -> bool {
    match role {
        Role::Primary => s1.spec_replicas() == s0.spec_replicas() && (s0.spec_primary()
            matches Some(p0) && s1.spec_primary() matches Some(p1) && add_idle_outcome(
            p0,
            p1,
            server,
            accepted,
        )),
        Role::Replica => {
            &&& s1.spec_primary() == s0.spec_primary()
            &&& s1.spec_replicas().spec_strategy() == s0.spec_replicas().spec_strategy()
            &&& s1.spec_replicas().spec_cursor() == s0.spec_replicas().spec_cursor()
            &&& s1.spec_replicas().spec_pools().len() == s0.spec_replicas().spec_pools().len()
            &&& forall|j: int|
                0 <= j < s0.spec_replicas().spec_pools().len() && j != index
                    ==> s1.spec_replicas().spec_pools()[j] == s0.spec_replicas().spec_pools()[j]
            &&& add_idle_outcome(
                s0.spec_replicas().spec_pools()[index as int],
                s1.spec_replicas().spec_pools()[index as int],
                server,
                accepted,
            )
        },
    }
}

/// A shard that has just been built from its configuration: a fresh primary
/// pool exactly when one is configured, fresh replica pools in configuration
/// order, the given strategy, rotation cursor at the front.
pub open spec fn built_shard(
    s: Shard,
    primary: Option<PoolConfig>,
    replicas: Seq<PoolConfig>,
    strategy: LoadBalancingStrategy,
) -> bool {
    &&& (s.spec_primary() is Some) == (primary is Some)
    &&& (primary matches Some(c) ==> s.spec_primary() matches Some(p) && fresh_pool(p, c))
    &&& s.spec_replicas().spec_strategy() == strategy
    &&& s.spec_replicas().spec_cursor() == 0
    &&& s.spec_replicas().spec_pools().len() == replicas.len()
    &&& forall|j: int|
        0 <= j < replicas.len() ==> fresh_pool(
            #[trigger] s.spec_replicas().spec_pools()[j],
            replicas[j],
        )
}

/// `s1` is an equivalent, independent copy of `s0`: the same topology,
/// addresses, settings and strategy, but every pool fresh — no session,
/// counter or waiter is shared, and the rotation cursor starts over.
pub open spec fn duplicate_outcome(s0: Shard, s1: Shard) -> bool {
    &&& (s1.spec_primary() is Some) == (s0.spec_primary() is Some)
    &&& (s0.spec_primary() matches Some(p0) ==> s1.spec_primary() matches Some(p1) && fresh_pool(
        p1,
        p0.spec_config(),
    ))
    &&& s1.spec_replicas().spec_strategy() == s0.spec_replicas().spec_strategy()
    &&& s1.spec_replicas().spec_cursor() == 0
    &&& s1.spec_replicas().spec_pools().len() == s0.spec_replicas().spec_pools().len()
    &&& forall|j: int|
        0 <= j < s0.spec_replicas().spec_pools().len() ==> fresh_pool(
            #[trigger] s1.spec_replicas().spec_pools()[j],
            s0.spec_replicas().spec_pools()[j].spec_config(),
        )
}

/// One primary/replica group holding a horizontal partition of the data.
pub struct Shard {
    primary: Option<Pool>,
    replicas: Replicas,
}

impl Shard {
    /// The primary pool, if the shard has one.
    pub closed spec fn spec_primary(&self) -> Option<Pool> {
        self.primary
    }

    /// The replica set.
    pub closed spec fn spec_replicas(&self) -> Replicas {
        self.replicas
    }

    /// Every pool of the shard is sound.
    pub open spec fn wf(&self) -> bool {
        &&& (self.spec_primary() matches Some(p) ==> p.wf())
        &&& self.spec_replicas().wf()
    }

    /// Build the shard: a fresh primary pool when one is configured, and a
    /// fresh replica set.
    pub fn new(
        primary: &Option<PoolConfig>,
        replicas: &Vec<PoolConfig>,
        lb_strategy: LoadBalancingStrategy,
    ) -> (s: Shard)
        ensures
            s.wf(),
            built_shard(s, *primary, replicas@, lb_strategy),
    {
        let p = match primary {
            Some(c) => Some(Pool::new(c)),
            None => None,
        };
        Shard { primary: p, replicas: Replicas::new(replicas, lb_strategy) }
    }

    /// A checkout from the shard's primary pool, or `NoPrimary` if it has
    /// none.
    pub fn primary(&mut self, shard_index: usize, owner: &BackendKeyData) -> (r: Result<
        Checkout,
        Error,
    >)
        requires
            old(self).wf(),
        ensures
            final(self).wf(),
            primary_outcome(*old(self), *final(self), r, shard_index, *owner),
    {
        match &mut self.primary {
            None => Err(Error::NoPrimary),
            Some(p) => p.get(owner, PoolRef { shard: shard_index, role: Role::Primary, index: 0 }),
        }
    }

    /// A checkout from one of the shard's replicas; an empty replica set
    /// falls back to the primary, and `NoDatabases` when that is absent too.
    pub fn replica(&mut self, shard_index: usize, owner: &BackendKeyData, entropy: u64) -> (r:
        Result<Checkout, Error>)
        requires
            old(self).wf(),
        ensures
            final(self).wf(),
            replica_outcome(*old(self), *final(self), r, shard_index, *owner, entropy),
    {
        if self.replicas.is_empty() {
            match &mut self.primary {
                None => Err(Error::NoDatabases),
                Some(p) => p.get(
                    owner,
                    PoolRef { shard: shard_index, role: Role::Primary, index: 0 },
                ),
            }
        } else {
            self.replicas.get(owner, shard_index, entropy)
        }
    }

    /// An equivalent, independent shard: fresh pools, same configuration.
    pub fn duplicate(&self) -> (s: Shard)
        requires
            self.wf(),
        ensures
            s.wf(),
            duplicate_outcome(*self, s),
    {
        let p = match &self.primary {
            Some(p) => Some(p.duplicate()),
            None => None,
        };
        Shard { primary: p, replicas: self.replicas.duplicate() }
    }

    /// A cancellation ticket against the primary (if any) and against every
    /// replica: cancellation is attempted everywhere the query might run.
    pub fn cancel(&self, id: &BackendKeyData) -> (ts: Vec<CancelTicket>)
        ensures
            ts@ == shard_tickets(*self, *id),
            forall|k: int| 0 <= k < ts@.len() ==> (#[trigger] ts@[k]).key == *id,
            match self.spec_primary() {
                Some(p) => {
                    &&& ts@.len() == 1 + self.spec_replicas().spec_pools().len()
                    &&& ts@[0].addr == p.spec_config().address
                    &&& ts@[0].key == *id
                    &&& forall|i: int|
                        0 <= i < self.spec_replicas().spec_pools().len() ==> {
                            &&& ts@[i + 1].addr
                                == self.spec_replicas().spec_pools()[i].spec_config().address
                            &&& ts@[i + 1].key == *id
                        }
                },
                None => {
                    &&& ts@.len() == self.spec_replicas().spec_pools().len()
                    &&& forall|i: int|
                        0 <= i < self.spec_replicas().spec_pools().len() ==> {
                            &&& ts@[i].addr
                                == self.spec_replicas().spec_pools()[i].spec_config().address
                            &&& ts@[i].key == *id
                        }
                },
            },
    {
        let mut ts: Vec<CancelTicket> = Vec::new();
        match &self.primary {
            Some(p) => {
                ts.push(p.cancel(id));
            },
            None => {},
        }
        let mut rest = self.replicas.cancel(id);
        let ghost head = ts@;
        let mut i: usize = 0;
        while i < rest.len()
            invariant
                i <= rest@.len(),
                ts@.len() == head.len() + i,
                forall|j: int| 0 <= j < head.len() ==> #[trigger] ts@[j] == head[j],
                forall|j: int|
                    head.len() <= j < ts@.len() ==> #[trigger] ts@[j] == rest@[j - head.len()],
                forall|k: int| 0 <= k < ts@.len() ==> (#[trigger] ts@[k]).key == *id,
                forall|k: int| 0 <= k < head.len() ==> (#[trigger] head[k]).key == *id,
                rest@.len() == self.spec_replicas().spec_pools().len(),
                forall|j: int|
                    0 <= j < rest@.len() ==> {
                        &&& (#[trigger] rest@[j]).addr
                            == self.spec_replicas().spec_pools()[j].spec_config().address
                        &&& rest@[j].key == *id
                    },
            decreases rest@.len() - i,
        {
            let t = CancelTicket { addr: rest[i].addr.duplicate(), key: rest[i].key };
            ts.push(t);
            i = i + 1;
        }
        proof {
            assert(ts@ =~= shard_tickets(*self, *id));
        }
        ts
    }

    /// The verdict of a shard-wide cancellation: the attempts are the
    /// per-pool outcomes, and partial success is success — the whole attempt
    /// fails only when every pool failed.
    pub fn cancel_verdict(attempts: &Vec<bool>) -> (r: Result<(), Error>)
        ensures
            r == Ok::<(), Error>(()) <==> (attempts@.len() == 0 || exists|i: int|
                0 <= i < attempts@.len() && attempts@[i]),
            r is Err ==> r == Err::<(), Error>(Error::CancelFailed),
    {
        if attempts.len() == 0 {
            return Ok(());
        }
        let mut i: usize = 0;
        while i < attempts.len()
            invariant
                i <= attempts@.len(),
                forall|j: int| 0 <= j < i ==> !attempts@[j],
            decreases attempts@.len() - i,
        {
            if attempts[i] {
                return Ok(());
            }
            i = i + 1;
        }
        Err(Error::CancelFailed)
    }

    /// The configuration of every pool of the shard, primary first.
    pub fn pools(&self) -> (v: Vec<PoolConfig>)
        ensures
            match self.spec_primary() {
                Some(p) => {
                    &&& v@.len() == 1 + self.spec_replicas().spec_pools().len()
                    &&& v@[0] == p.spec_config()
                    &&& forall|i: int|
                        0 <= i < self.spec_replicas().spec_pools().len() ==> v@[i + 1]
                            == self.spec_replicas().spec_pools()[i].spec_config()
                },
                None => {
                    &&& v@.len() == self.spec_replicas().spec_pools().len()
                    &&& forall|i: int|
                        0 <= i < self.spec_replicas().spec_pools().len() ==> v@[i]
                            == self.spec_replicas().spec_pools()[i].spec_config()
                },
            },
    {
        let mut v: Vec<PoolConfig> = Vec::new();
        match &self.primary {
            Some(p) => {
                v.push(PoolConfig { address: p.addr().duplicate(), config: p.settings() });
            },
            None => {},
        }
        let mut rest = self.replicas.pools();
        let ghost head = v@;
        let mut i: usize = 0;
        while i < rest.len()
            invariant
                i <= rest@.len(),
                v@.len() == head.len() + i,
                forall|j: int| 0 <= j < head.len() ==> #[trigger] v@[j] == head[j],
                forall|j: int|
                    head.len() <= j < v@.len() ==> #[trigger] v@[j] == rest@[j - head.len()],
                rest@.len() == self.spec_replicas().spec_pools().len(),
                forall|j: int|
                    0 <= j < rest@.len() ==> (#[trigger] rest@[j])
                        == self.spec_replicas().spec_pools()[j].spec_config(),
            decreases rest@.len() - i,
        {
            let c = rest[i].duplicate();
            v.push(c);
            i = i + 1;
        }
        v
    }

    /// Bring every pool of the shard online.
    pub fn launch(&mut self)
        requires
            old(self).wf(),
        ensures
            final(self).wf(),
            (old(self).spec_primary() is Some) == (final(self).spec_primary() is Some),
            (old(self).spec_primary() matches Some(p0) ==> final(self).spec_primary()
                matches Some(p1) && p1.spec_config() == p0.spec_config() && p1.spec_idle()
                == p0.spec_idle() && p1.spec_total() == p0.spec_total() && p1.spec_waiters()
                == p0.spec_waiters() && !p1.spec_shut_down()),
            final(self).spec_replicas().spec_strategy() == old(self).spec_replicas().spec_strategy(),
            final(self).spec_replicas().spec_cursor() == old(self).spec_replicas().spec_cursor(),
            final(self).spec_replicas().spec_pools().len() == old(self).spec_replicas().spec_pools().len(),
            forall|i: int|
                0 <= i < old(self).spec_replicas().spec_pools().len() ==> {
                    &&& final(self).spec_replicas().spec_pools()[i].spec_config() == old(self).spec_replicas().spec_pools()[i].spec_config()
                    &&& final(self).spec_replicas().spec_pools()[i].spec_idle() == old(self).spec_replicas().spec_pools()[i].spec_idle()
                    &&& final(self).spec_replicas().spec_pools()[i].spec_total() == old(self).spec_replicas().spec_pools()[i].spec_total()
                    &&& final(self).spec_replicas().spec_pools()[i].spec_waiters() == old(self).spec_replicas().spec_pools()[i].spec_waiters()
                    &&& !final(self).spec_replicas().spec_pools()[i].spec_shut_down()
                },
    {
        match &mut self.primary {
            Some(p) => {
                p.launch();
            },
            None => {},
        }
        self.replicas.launch();
    }

    /// Take every pool of the shard offline: idle sessions are destroyed,
    /// further checkouts are refused, and every outstanding waiter is
    /// returned — primary's first — so the transport can fail each with
    /// `Shutdown`.
    pub fn shutdown(&mut self) -> (cancelled: Vec<BackendKeyData>)
        requires
            old(self).wf(),
        ensures
            final(self).wf(),
            (old(self).spec_primary() is Some) == (final(self).spec_primary() is Some),
            (old(self).spec_primary() matches Some(p0) ==> final(self).spec_primary()
                matches Some(p1) && p1.spec_config() == p0.spec_config() && p1.spec_idle().len()
                == 0 && p1.spec_total() == p0.spec_total() - p0.spec_idle().len()
                && p1.spec_waiters().len() == 0 && p1.spec_shut_down()),
            final(self).spec_replicas().spec_pools().len() == old(self).spec_replicas().spec_pools().len(),
            forall|i: int|
                0 <= i < old(self).spec_replicas().spec_pools().len() ==> {
                    &&& final(self).spec_replicas().spec_pools()[i].spec_config() == old(self).spec_replicas().spec_pools()[i].spec_config()
                    &&& final(self).spec_replicas().spec_pools()[i].spec_idle().len() == 0
                    &&& final(self).spec_replicas().spec_pools()[i].spec_total() == old(self).spec_replicas().spec_pools()[i].spec_total()
                        - old(self).spec_replicas().spec_pools()[i].spec_idle().len()
                    &&& final(self).spec_replicas().spec_pools()[i].spec_waiters().len() == 0
                    &&& final(self).spec_replicas().spec_pools()[i].spec_shut_down()
                },
            cancelled@ == (match old(self).spec_primary() {
                Some(p0) => p0.spec_waiters(),
                None => Seq::<BackendKeyData>::empty(),
            }) + pools_waiters(old(self).spec_replicas().spec_pools()),
    {
        let mut cancelled: Vec<BackendKeyData> = match &mut self.primary {
            Some(p) => p.shutdown(),
            None => Vec::new(),
        };
        let rest = self.replicas.shutdown();
        extend_keys(&mut cancelled, &rest);
        proof {
            assert(cancelled@ =~= (match old(self).spec_primary() {
                Some(p0) => p0.spec_waiters(),
                None => Seq::<BackendKeyData>::empty(),
            }) + pools_waiters(old(self).spec_replicas().spec_pools()));
        }
        cancelled
    }

    /// Whether `(role, index)` names a pool of this shard.
    pub open spec fn has_pool(&self, role: Role, index: usize) -> bool {
        match role {
            Role::Primary => self.spec_primary() is Some && index == 0,
            Role::Replica => (index as int) < self.spec_replicas().spec_pools().len(),
        }
    }

    /// Return a session to the pool `(role, index)` of this shard. `None`
    /// means no such pool exists and the session was dropped; otherwise the
    /// verdict says whether it was requeued, handed to the first waiter, or
    /// discarded.
    pub fn checkin(&mut self, role: Role, index: usize, server: Server, mode: PoolerMode) -> (r:
        Option<Checkin>)
        requires
            old(self).wf(),
        ensures
            final(self).wf(),
            (r is Some) == old(self).has_pool(role, index),
            r is None ==> *final(self) == *old(self),
            r matches Some(v) ==> shard_checkin_outcome(
                *old(self),
                *final(self),
                role,
                index,
                server,
                mode,
                v,
            ),
    {
        match role {
            Role::Primary => {
                if index != 0 {
                    return None;
                }
                match &mut self.primary {
                    Some(p) => Some(p.checkin(server, mode)),
                    None => None,
                }
            },
            Role::Replica => {
                if index < self.replicas.len() {
                    Some(self.replicas.checkin_at(index, server, mode))
                } else {
                    None
                }
            },
        }
    }

    /// Free a reserved slot of the pool `(role, index)`. `None` means no such
    /// pool exists; otherwise the inner value names the first waiter to wake,
    /// when one was in line for the freed slot.
    pub fn abandon(&mut self, role: Role, index: usize) -> (r: Option<Option<BackendKeyData>>)
        requires
            old(self).wf(),
        ensures
            final(self).wf(),
            (r is Some) == old(self).has_pool(role, index),
            r is None ==> *final(self) == *old(self),
            r matches Some(woken) ==> shard_abandon_outcome(
                *old(self),
                *final(self),
                role,
                index,
                woken,
            ),
    {
        match role {
            Role::Primary => {
                if index != 0 {
                    return None;
                }
                match &mut self.primary {
                    Some(p) => Some(p.abandon()),
                    None => None,
                }
            },
            Role::Replica => {
                if index < self.replicas.len() {
                    Some(self.replicas.abandon_at(index))
                } else {
                    None
                }
            },
        }
    }

    /// Warm a session into the idle queue of the pool `(role, index)`.
    pub fn add_idle(&mut self, role: Role, index: usize, server: Server) -> (accepted: bool)
        requires
            old(self).wf(),
        ensures
            final(self).wf(),
            !old(self).has_pool(role, index) ==> !accepted && *final(self) == *old(self),
            old(self).has_pool(role, index) ==> shard_add_idle_outcome(
                *old(self),
                *final(self),
                role,
                index,
                server,
                accepted,
            ),
    {
        match role {
            Role::Primary => {
                if index != 0 {
                    return false;
                }
                match &mut self.primary {
                    Some(p) => p.add_idle(server),
                    None => false,
                }
            },
            Role::Replica => {
                if index < self.replicas.len() {
                    self.replicas.add_idle_at(index, server)
                } else {
                    false
                }
            },
        }
    }

    /// Withdraw the waiter `w` from the pool `(role, index)`; reports whether
    /// the pool exists and held such a waiter.
    pub fn cancel_waiter(&mut self, role: Role, index: usize, w: &BackendKeyData) -> (found: bool)
        requires
            old(self).wf(),
        ensures
            final(self).wf(),
            !old(self).has_pool(role, index) ==> !found && *final(self) == *old(self),
            old(self).has_pool(role, index) ==> shard_cancel_waiter_outcome(
                *old(self),
                *final(self),
                role,
                index,
                *w,
                found,
            ),
    {
        match role {
            Role::Primary => {
                if index != 0 {
                    return false;
                }
                match &mut self.primary {
                    Some(p) => p.cancel_waiter(w),
                    None => false,
                }
            },
            Role::Replica => {
                if index < self.replicas.len() {
                    self.replicas.cancel_waiter_at(index, w)
                } else {
                    false
                }
            },
        }
    }

    /// Run an eviction sweep over every pool of the shard.
    pub fn sweep_idle(&mut self, now_millis: u64)
        requires
            old(self).wf(),
        ensures
            final(self).wf(),
            (old(self).spec_primary() is Some) == (final(self).spec_primary() is Some),
            (old(self).spec_primary() matches Some(p0) ==> final(self).spec_primary()
                matches Some(p1) && sweep_outcome(p0, p1, now_millis)),
            final(self).spec_replicas().spec_strategy() == old(self).spec_replicas().spec_strategy(),
            final(self).spec_replicas().spec_cursor() == old(self).spec_replicas().spec_cursor(),
            final(self).spec_replicas().spec_pools().len() == old(self).spec_replicas().spec_pools().len(),
            forall|i: int|
                0 <= i < old(self).spec_replicas().spec_pools().len() ==> sweep_outcome(
                    #[trigger] old(self).spec_replicas().spec_pools()[i],
                    final(self).spec_replicas().spec_pools()[i],
                    now_millis,
                ),
    {
        match &mut self.primary {
            Some(p) => {
                p.sweep_idle(now_millis);
            },
            None => {},
        }
        self.replicas.sweep_idle(now_millis);
    }

    /// The configuration of the primary pool, if the shard has one.
    pub fn primary_config(&self) -> (c: Option<PoolConfig>)
        ensures
            match self.spec_primary() {
                Some(p) => c matches Some(cc) && cc == p.spec_config(),
                None => c is None,
            },
    {
        match &self.primary {
            Some(p) => Some(PoolConfig { address: p.addr().duplicate(), config: p.settings() }),
            None => None,
        }
    }

    /// The configuration of every replica pool, in order.
    pub fn replica_configs(&self) -> (v: Vec<PoolConfig>)
        ensures
            v@.len() == self.spec_replicas().spec_pools().len(),
            forall|i: int|
                0 <= i < v@.len() ==> v@[i]
                    == self.spec_replicas().spec_pools()[i].spec_config(),
    {
        self.replicas.pools()
    }
}

} // verus!
