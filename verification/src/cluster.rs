//! A cluster: ordered shards under one database name, password and pooler
//! mode, plus the flat projection handed to routing plugins.

use vstd::prelude::*;
use crate::config::{LoadBalancingStrategy, PoolerMode, Role};
use crate::errors::Error;
use crate::messages::BackendKeyData;
use crate::pool::{CancelTicket, Checkin, Checkout, Guard, PoolConfig, PoolRef, sweep_outcome};
use crate::replicas::pools_waiters;
use crate::server::Server;
use crate::shard::{Shard, built_shard, duplicate_outcome, primary_outcome, replica_outcome, shard_abandon_outcome, shard_add_idle_outcome, shard_cancel_waiter_outcome, shard_checkin_outcome, shard_tickets};

verus! {

/// The string holds an interior NUL character, which no C string can carry.
pub open spec fn has_nul_char(s: Seq<char>) -> bool {
    exists|i: int| 0 <= i < s.len() && s[i] == '\0'
}

/// Whether `s` holds an interior NUL character.
pub fn has_nul(s: &str) -> (r: bool)
    ensures
        r == has_nul_char(s@),
{
    let n = s.unicode_len();
    let mut i: usize = 0;
    while i < n
        invariant
            n == s@.len(),
            i <= n,
            forall|j: int| 0 <= j < i ==> s@[j] != '\0',
        decreases n - i,
    {
        if s.get_char(i) == '\0' {
            return true;
        }
        i = i + 1;
    }
    false
}

/// One entry of the plugin projection: a pool, flattened to plain values.
#[derive(Clone, Debug, PartialEq)]
pub struct DatabaseConfig {
    /// Host name; never holds a NUL character.
    pub host: String,
    /// TCP port.
    pub port: u16,
    /// Primary or replica.
    pub role: Role,
    /// Which shard the pool belongs to.
    pub shard_index: usize,
}

/// The flat, plugin-facing description of a cluster: its name and one record
/// per pool. The transport turns it into the C representation the plugin
/// chain consumes.
#[derive(Clone, Debug, PartialEq)]
pub struct PluginConfig {
    /// Database name; never holds a NUL character.
    pub name: String,
    /// One record per pool, shard by shard, primary before replicas.
    pub databases: Vec<DatabaseConfig>,
    /// How many shards the cluster has.
    pub num_shards: usize,
}

/// The record a pool configuration projects to.
pub open spec fn record_of(c: PoolConfig, role: Role, shard_index: usize) -> DatabaseConfig {
    DatabaseConfig { host: c.address.host, port: c.address.port, role, shard_index }
}

/// The records of a list of pool configurations, skipping every host that
/// cannot be represented as a C string.
pub open spec fn config_records(cfgs: Seq<PoolConfig>, role: Role, shard_index: usize) -> Seq<
    DatabaseConfig,
>
    decreases cfgs.len(),
{
    if cfgs.len() == 0 {
        Seq::empty()
    } else {
        (if !has_nul_char(cfgs[0].address.host@) {
            seq![record_of(cfgs[0], role, shard_index)]
        } else {
            Seq::empty()
        }) + config_records(cfgs.drop_first(), role, shard_index)
    }
}

/// The configurations of a sequence of pools.
pub open spec fn configs_of(pools: Seq<crate::pool::Pool>) -> Seq<PoolConfig> {
    Seq::new(pools.len(), |i: int| pools[i].spec_config())
}

/// The records one shard contributes: its primary (when present and
/// representable) followed by its replicas.
pub open spec fn shard_records(s: Shard, shard_index: usize) -> Seq<DatabaseConfig> {
    (match s.spec_primary() {
        Some(p) => if !has_nul_char(p.spec_config().address.host@) {
            seq![record_of(p.spec_config(), Role::Primary, shard_index)]
        } else {
            Seq::empty()
        },
        None => Seq::empty(),
    }) + config_records(
        configs_of(s.spec_replicas().spec_pools()),
        Role::Replica,
        shard_index,
    )
}

/// The records of the shards from `from` onward, in shard order.
pub open spec fn cluster_records(shards: Seq<Shard>, from: int) -> Seq<DatabaseConfig>
    decreases shards.len() - from,
{
    if from >= shards.len() {
        Seq::empty()
    } else {
        shard_records(shards[from], from as usize) + cluster_records(shards, from + 1)
    }
}

/// The tickets a cluster-wide cancellation issues: the shards from `from`
/// onward, each contributing its primary's ticket (when present) and one per
/// replica, in order.
pub open spec fn cluster_tickets(shards: Seq<Shard>, from: int, id: BackendKeyData) -> Seq<
    CancelTicket,
>
    decreases shards.len() - from,
{
    if from >= shards.len() {
        Seq::empty()
    } else {
        shard_tickets(shards[from], id) + cluster_tickets(shards, from + 1, id)
    }
}

/// Ordered shards under a database name, user password and pooler mode. The
/// shard order is stable: it is the index namespace routes speak of.
pub struct Cluster {
    name: String,
    shards: Vec<Shard>,
    password: String,
    pooler_mode: PoolerMode,
}

impl Cluster {
    /// The database name.
    pub closed spec fn spec_name(&self) -> String {
        self.name
    }

    /// The shards, in routing order.
    pub closed spec fn spec_shards(&self) -> Seq<Shard> {
        self.shards@
    }

    /// The password clients use.
    pub closed spec fn spec_password(&self) -> String {
        self.password
    }

    /// The pooler mode the cluster publishes.
    pub closed spec fn spec_pooler_mode(&self) -> PoolerMode {
        self.pooler_mode
    }

    /// Every shard is sound.
    pub open spec fn wf(&self) -> bool {
        forall|i: int| 0 <= i < self.spec_shards().len() ==> (#[trigger] self.spec_shards()[i]).wf()
    }

    /// Everything but the shards' pool contents is unchanged.
    pub open spec fn same_shape(&self, other: &Cluster) -> bool {
        &&& self.spec_name() == other.spec_name()
        &&& self.spec_password() == other.spec_password()
        &&& self.spec_pooler_mode() == other.spec_pooler_mode()
        &&& self.spec_shards().len() == other.spec_shards().len()
    }

    /// Build a cluster: one shard per `(primary, replicas)` configuration
    /// pair, in the given order.
    pub fn new(
        name: &str,
        shards: &Vec<(Option<PoolConfig>, Vec<PoolConfig>)>,
        lb_strategy: LoadBalancingStrategy,
        password: &str,
        pooler_mode: PoolerMode,
    ) -> (c: Cluster)
        ensures
            c.wf(),
            c.spec_name()@ == name@,
            c.spec_password()@ == password@,
            c.spec_pooler_mode() == pooler_mode,
            c.spec_shards().len() == shards@.len(),
            forall|i: int|
                0 <= i < shards@.len() ==> built_shard(
                    #[trigger] c.spec_shards()[i],
                    shards@[i].0,
                    shards@[i].1@,
                    lb_strategy,
                ),
    {
        let mut built: Vec<Shard> = Vec::new();
        let mut i: usize = 0;
        while i < shards.len()
            invariant
                i <= shards@.len(),
                built@.len() == i,
                forall|k: int| 0 <= k < i ==> (#[trigger] built@[k]).wf(),
                forall|k: int|
                    0 <= k < i ==> built_shard(
                        #[trigger] built@[k],
                        shards@[k].0,
                        shards@[k].1@,
                        lb_strategy,
                    ),
            decreases shards@.len() - i,
        {
            let entry = &shards[i];
            built.push(Shard::new(&entry.0, &entry.1, lb_strategy));
            i = i + 1;
        }
        Cluster {
            name: name.to_string(),
            shards: built,
            password: password.to_string(),
            pooler_mode,
        }
    }

    /// A checkout from the primary of shard `shard`. An index outside the
    /// cluster yields `NoShard` and touches nothing.
    pub fn primary(&mut self, shard: usize, id: &BackendKeyData) -> (r: Result<Checkout, Error>)
        requires
            old(self).wf(),
        ensures
            final(self).wf(),
            final(self).same_shape(&*old(self)),
            shard >= old(self).spec_shards().len() ==> r == Err::<Checkout, Error>(
                Error::NoShard(shard),
            ) && *final(self) == *old(self),
            shard < old(self).spec_shards().len() ==> {
                &&& forall|j: int|
                    0 <= j < old(self).spec_shards().len() && j != shard ==> final(self).spec_shards()[j] == old(self).spec_shards()[j]
                &&& primary_outcome(
                    old(self).spec_shards()[shard as int],
                    final(self).spec_shards()[shard as int],
                    r,
                    shard,
                    *id,
                )
            },
    {
        if shard >= self.shards.len() {
            return Err(Error::NoShard(shard));
        }
        let ghost prev = self.spec_shards();
        let mut s = self.shards.remove(shard);
        let r = s.primary(shard, id);
        self.shards.insert(shard, s);
        proof {
            assert forall|j: int|
                0 <= j < prev.len() && j != shard as int implies self.spec_shards()[j] == prev[j] by {
                if j < shard as int {
                    assert(self.spec_shards()[j] == prev.remove(shard as int)[j]);
                } else {
                    assert(self.spec_shards()[j] == prev.remove(shard as int)[j - 1]);
                }
            }
        }
        r
    }

    /// A checkout from a replica of shard `shard` (falling back to its
    /// primary when it has no replicas). An index outside the cluster yields
    /// `NoShard` and touches nothing.
    pub fn replica(&mut self, shard: usize, id: &BackendKeyData, entropy: u64) -> (r: Result<
        Checkout,
        Error,
    >)
        requires
            old(self).wf(),
        ensures
            final(self).wf(),
            final(self).same_shape(&*old(self)),
            shard >= old(self).spec_shards().len() ==> r == Err::<Checkout, Error>(
                Error::NoShard(shard),
            ) && *final(self) == *old(self),
            shard < old(self).spec_shards().len() ==> {
                &&& forall|j: int|
                    0 <= j < old(self).spec_shards().len() && j != shard ==> final(self).spec_shards()[j] == old(self).spec_shards()[j]
                &&& replica_outcome(
                    old(self).spec_shards()[shard as int],
                    final(self).spec_shards()[shard as int],
                    r,
                    shard,
                    *id,
                    entropy,
                )
            },
    {
        if shard >= self.shards.len() {
            return Err(Error::NoShard(shard));
        }
        let ghost prev = self.spec_shards();
        let mut s = self.shards.remove(shard);
        let r = s.replica(shard, id, entropy);
        self.shards.insert(shard, s);
        proof {
            assert forall|j: int|
                0 <= j < prev.len() && j != shard as int implies self.spec_shards()[j] == prev[j] by {
                if j < shard as int {
                    assert(self.spec_shards()[j] == prev.remove(shard as int)[j]);
                } else {
                    assert(self.spec_shards()[j] == prev.remove(shard as int)[j - 1]);
                }
            }
        }
        r
    }

    /// Return a checked-out session to the pool its guard names, applying
    /// the cluster's pooler mode. `None` means the guard named no pool and
    /// its session was dropped; otherwise the verdict says whether the
    /// session was requeued, handed to the first waiter in line, or
    /// discarded (naming the waiter to wake).
    pub fn checkin(&mut self, guard: Guard) -> (r: Option<Checkin>)
        requires
            old(self).wf(),
        ensures
            final(self).wf(),
            final(self).same_shape(&*old(self)),
            r is None ==> final(self).spec_shards() == old(self).spec_shards(),
            forall|j: int|
                0 <= j < old(self).spec_shards().len() && j != guard.at.shard ==> final(self).spec_shards()[j] == old(self).spec_shards()[j],
            (r is Some) == ((guard.at.shard as int) < old(self).spec_shards().len() && old(self).spec_shards()[guard.at.shard as int].has_pool(guard.at.role, guard.at.index)),
            r matches Some(v) ==> shard_checkin_outcome(
                old(self).spec_shards()[guard.at.shard as int],
                final(self).spec_shards()[guard.at.shard as int],
                guard.at.role,
                guard.at.index,
                guard.server,
                old(self).spec_pooler_mode(),
                v,
            ),
    {
        if guard.at.shard >= self.shards.len() {
            return None;
        }
        let shard = guard.at.shard;
        let ghost prev = self.spec_shards();
        let mut s = self.shards.remove(shard);
        let r = s.checkin(guard.at.role, guard.at.index, guard.server, self.pooler_mode);
        self.shards.insert(shard, s);
        proof {
            assert forall|j: int|
                0 <= j < prev.len() && j != shard as int implies self.spec_shards()[j] == prev[j] by {
                if j < shard as int {
                    assert(self.spec_shards()[j] == prev.remove(shard as int)[j]);
                } else {
                    assert(self.spec_shards()[j] == prev.remove(shard as int)[j - 1]);
                }
            }
            if r is None {
                assert(self.spec_shards() =~= prev);
            }
        }
        r
    }

    /// Free the reserved slot a connect ticket names, after a dial failed.
    /// `None` means the ticket named no pool; otherwise the inner value
    /// names the first waiter to wake, when one was in line for the freed
    /// slot.
    pub fn abandon(&mut self, at: &PoolRef) -> (r: Option<Option<BackendKeyData>>)
        requires
            old(self).wf(),
        ensures
            final(self).wf(),
            final(self).same_shape(&*old(self)),
            r is None ==> final(self).spec_shards() == old(self).spec_shards(),
            forall|j: int|
                0 <= j < old(self).spec_shards().len() && j != at.shard ==> final(self).spec_shards()[j] == old(self).spec_shards()[j],
            (r is Some) == ((at.shard as int) < old(self).spec_shards().len() && old(self).spec_shards()[at.shard as int].has_pool(at.role, at.index)),
            r matches Some(woken) ==> shard_abandon_outcome(
                old(self).spec_shards()[at.shard as int],
                final(self).spec_shards()[at.shard as int],
                at.role,
                at.index,
                woken,
            ),
    {
        if at.shard >= self.shards.len() {
            return None;
        }
        let shard = at.shard;
        let ghost prev = self.spec_shards();
        let mut s = self.shards.remove(shard);
        let r = s.abandon(at.role, at.index);
        self.shards.insert(shard, s);
        proof {
            assert forall|j: int|
                0 <= j < prev.len() && j != shard as int implies self.spec_shards()[j] == prev[j] by {
                if j < shard as int {
                    assert(self.spec_shards()[j] == prev.remove(shard as int)[j]);
                } else {
                    assert(self.spec_shards()[j] == prev.remove(shard as int)[j - 1]);
                }
            }
            if r is None {
                assert(self.spec_shards() =~= prev);
            }
        }
        r
    }

    /// Warm a freshly opened session into the pool `at` names.
    pub fn add_idle(&mut self, at: &PoolRef, server: Server) -> (accepted: bool)
        requires
            old(self).wf(),
        ensures
            final(self).wf(),
            final(self).same_shape(&*old(self)),
            forall|j: int|
                0 <= j < old(self).spec_shards().len() && j != at.shard ==> final(self).spec_shards()[j] == old(self).spec_shards()[j],
            accepted ==> (at.shard as int) < old(self).spec_shards().len() && old(
                self,
            ).spec_shards()[at.shard as int].has_pool(at.role, at.index),
            ((at.shard as int) < old(self).spec_shards().len() && old(self).spec_shards()[at.shard as int].has_pool(at.role, at.index)) ==> shard_add_idle_outcome(
                old(self).spec_shards()[at.shard as int],
                final(self).spec_shards()[at.shard as int],
                at.role,
                at.index,
                server,
                accepted,
            ),
    {
        if at.shard >= self.shards.len() {
            return false;
        }
        let shard = at.shard;
        let ghost prev = self.spec_shards();
        let mut s = self.shards.remove(shard);
        let accepted = s.add_idle(at.role, at.index, server);
        self.shards.insert(shard, s);
        proof {
            assert forall|j: int|
                0 <= j < prev.len() && j != shard as int implies self.spec_shards()[j] == prev[j] by {
                if j < shard as int {
                    assert(self.spec_shards()[j] == prev.remove(shard as int)[j]);
                } else {
                    assert(self.spec_shards()[j] == prev.remove(shard as int)[j - 1]);
                }
            }
        }
        accepted
    }

    /// A logically identical cluster with fresh pools: the same name,
    /// password, mode, shard count and, shard by shard, the same pool
    /// addresses, settings and strategy — but no session, counter, waiter
    /// or rotation state is shared with the original. Used for configuration
    /// reload, where the old cluster is dropped afterwards.
    pub fn duplicate(&self) -> (c: Cluster)
        requires
            self.wf(),
        ensures
            c.wf(),
            c.spec_name()@ == self.spec_name()@,
            c.spec_password()@ == self.spec_password()@,
            c.spec_pooler_mode() == self.spec_pooler_mode(),
            c.spec_shards().len() == self.spec_shards().len(),
            forall|i: int|
                0 <= i < self.spec_shards().len() ==> duplicate_outcome(
                    self.spec_shards()[i],
                    #[trigger] c.spec_shards()[i],
                ),
    {
        let mut built: Vec<Shard> = Vec::new();
        let mut i: usize = 0;
        while i < self.shards.len()
            invariant
                self.wf(),
                i <= self.spec_shards().len(),
                built@.len() == i,
                forall|k: int| 0 <= k < i ==> (#[trigger] built@[k]).wf(),
                forall|k: int|
                    0 <= k < i ==> duplicate_outcome(self.spec_shards()[k], #[trigger] built@[k]),
            decreases self.spec_shards().len() - i,
        {
            built.push(self.shards[i].duplicate());
            i = i + 1;
        }
        Cluster {
            name: self.name.clone(),
            shards: built,
            password: self.password.clone(),
            pooler_mode: self.pooler_mode,
        }
    }

    /// A cancellation ticket against every pool of every shard, in shard
    /// order: cancellation is broadcast, since PostgreSQL ignores a
    /// `CancelRequest` that matches no session.
    pub fn cancel(&self, id: &BackendKeyData) -> (ts: Vec<CancelTicket>)
        ensures
            ts@ == cluster_tickets(self.spec_shards(), 0, *id),
            forall|k: int| 0 <= k < ts@.len() ==> (#[trigger] ts@[k]).key == *id,
            self.spec_shards().len() == 0 ==> ts@.len() == 0,
    {
        let ghost shards = self.spec_shards();
        let mut ts: Vec<CancelTicket> = Vec::new();
        let mut i: usize = 0;
        while i < self.shards.len()
            invariant
                i <= shards.len(),
                shards == self.spec_shards(),
                ts@ + cluster_tickets(shards, i as int, *id) == cluster_tickets(shards, 0, *id),
                forall|k: int| 0 <= k < ts@.len() ==> (#[trigger] ts@[k]).key == *id,
            decreases shards.len() - i,
        {
            let ghost before = ts@;
            let part = self.shards[i].cancel(id);
            let ghost shard_ts = part@;
            let mut j: usize = 0;
            while j < part.len()
                invariant
                    j <= part@.len(),
                    part@ == shard_ts,
                    ts@ =~= before + shard_ts.subrange(0, j as int),
                    forall|k: int| 0 <= k < before.len() ==> (#[trigger] before[k]).key == *id,
                    forall|k: int| 0 <= k < shard_ts.len() ==> (#[trigger] shard_ts[k]).key == *id,
                    forall|k: int| 0 <= k < ts@.len() ==> (#[trigger] ts@[k]).key == *id,
                decreases part@.len() - j,
            {
                let t = CancelTicket { addr: part[j].addr.duplicate(), key: part[j].key };
                ts.push(t);
                proof {
                    assert(ts@ =~= before + shard_ts.subrange(0, j + 1));
                }
                j = j + 1;
            }
            proof {
                assert(shard_ts.subrange(0, shard_ts.len() as int) =~= shard_ts);
                assert(ts@ =~= before + shard_tickets(shards[i as int], *id));
                assert(cluster_tickets(shards, i as int, *id) == shard_tickets(
                    shards[i as int],
                    *id,
                ) + cluster_tickets(shards, i + 1, *id));
                assert(ts@ + cluster_tickets(shards, i + 1, *id) =~= before + cluster_tickets(
                    shards,
                    i as int,
                    *id,
                ));
            }
            i = i + 1;
        }
        proof {
            assert(cluster_tickets(shards, shards.len() as int, *id)
                =~= Seq::<CancelTicket>::empty());
            assert(ts@ =~= cluster_tickets(shards, 0, *id));
        }
        ts
    }

    /// The shards, in routing order.
    pub fn shards(&self) -> (r: &Vec<Shard>)
        ensures
            r@ == self.spec_shards(),
    {
        &self.shards
    }

    /// The password clients should use to connect.
    pub fn password(&self) -> (r: &String)
        ensures
            r@ == self.spec_password()@,
    {
        &self.password
    }

    /// The database name.
    pub fn name(&self) -> (r: &String)
        ensures
            r@ == self.spec_name()@,
    {
        &self.name
    }

    /// The pooler mode the cluster publishes.
    pub fn pooler_mode(&self) -> (m: PoolerMode)
        ensures
            m == self.spec_pooler_mode(),
    {
        self.pooler_mode
    }

    /// Withdraw the waiter `w` from the pool `at` names, as when its
    /// checkout timed out; reports whether that pool held such a waiter.
    pub fn cancel_waiter(&mut self, at: &PoolRef, w: &BackendKeyData) -> (found: bool)
        requires
            old(self).wf(),
        ensures
            final(self).wf(),
            final(self).same_shape(&*old(self)),
            forall|j: int|
                0 <= j < old(self).spec_shards().len() && j != at.shard ==> final(self).spec_shards()[j] == old(self).spec_shards()[j],
            (at.shard as int) >= old(self).spec_shards().len() ==> !found && final(self).spec_shards()
                == old(self).spec_shards(),
            ((at.shard as int) < old(self).spec_shards().len() && !old(self).spec_shards()[at.shard as int].has_pool(at.role, at.index))
                ==> !found && final(self).spec_shards()[at.shard as int] == old(self).spec_shards()[at.shard as int],
            ((at.shard as int) < old(self).spec_shards().len() && old(self).spec_shards()[at.shard as int].has_pool(at.role, at.index))
                ==> shard_cancel_waiter_outcome(
                old(self).spec_shards()[at.shard as int],
                final(self).spec_shards()[at.shard as int],
                at.role,
                at.index,
                *w,
                found,
            ),
    {
        if at.shard >= self.shards.len() {
            return false;
        }
        let shard = at.shard;
        let ghost prev = self.spec_shards();
        let mut s = self.shards.remove(shard);
        let found = s.cancel_waiter(at.role, at.index, w);
        self.shards.insert(shard, s);
        proof {
            assert forall|j: int|
                0 <= j < prev.len() && j != shard as int implies self.spec_shards()[j] == prev[j] by {
                if j < shard as int {
                    assert(self.spec_shards()[j] == prev.remove(shard as int)[j]);
                } else {
                    assert(self.spec_shards()[j] == prev.remove(shard as int)[j - 1]);
                }
            }
        }
        found
    }

    /// Run an eviction sweep over every pool of every shard, as the
    /// transport does at each healthcheck interval: failed idle sessions,
    /// and those that outlived their pool's idle timeout, are destroyed.
    pub fn sweep_idle(&mut self, now_millis: u64)
        requires
            old(self).wf(),
        ensures
            final(self).wf(),
            final(self).same_shape(&*old(self)),
            forall|i: int|
                0 <= i < old(self).spec_shards().len() ==> {
                    &&& ((#[trigger] final(self).spec_shards()[i]).spec_primary() is Some) == (
                    old(self).spec_shards()[i].spec_primary() is Some)
                    &&& (old(self).spec_shards()[i].spec_primary() matches Some(p0) ==> final(self).spec_shards()[i].spec_primary()
                        matches Some(p1) && sweep_outcome(p0, p1, now_millis))
                    &&& final(self).spec_shards()[i].spec_replicas().spec_strategy() == old(self).spec_shards()[i].spec_replicas().spec_strategy()
                    &&& final(self).spec_shards()[i].spec_replicas().spec_cursor() == old(self).spec_shards()[i].spec_replicas().spec_cursor()
                    &&& final(self).spec_shards()[i].spec_replicas().spec_pools().len() == old(self).spec_shards()[i].spec_replicas().spec_pools().len()
                    &&& forall|j: int|
                        0 <= j < old(self).spec_shards()[i].spec_replicas().spec_pools().len()
                            ==> sweep_outcome(
                            #[trigger] old(self).spec_shards()[i].spec_replicas().spec_pools()[j],
                            final(self).spec_shards()[i].spec_replicas().spec_pools()[j],
                            now_millis,
                        )
                },
    {
        let mut i: usize = 0;
        while i < self.shards.len()
            invariant
                i <= self.spec_shards().len(),
                self.spec_shards().len() == old(self).spec_shards().len(),
                self.spec_name() == old(self).spec_name(),
                self.spec_password() == old(self).spec_password(),
                self.spec_pooler_mode() == old(self).spec_pooler_mode(),
                self.wf(),
                forall|k: int|
                    0 <= k < i ==> {
                        &&& ((#[trigger] self.spec_shards()[k]).spec_primary() is Some) == (
                        old(self).spec_shards()[k].spec_primary() is Some)
                        &&& (old(self).spec_shards()[k].spec_primary() matches Some(p0) ==> self.spec_shards()[k].spec_primary()
                            matches Some(p1) && sweep_outcome(p0, p1, now_millis))
                        &&& self.spec_shards()[k].spec_replicas().spec_strategy() == old(self).spec_shards()[k].spec_replicas().spec_strategy()
                        &&& self.spec_shards()[k].spec_replicas().spec_cursor() == old(self).spec_shards()[k].spec_replicas().spec_cursor()
                        &&& self.spec_shards()[k].spec_replicas().spec_pools().len() == old(self).spec_shards()[k].spec_replicas().spec_pools().len()
                        &&& forall|j: int|
                            0 <= j < old(self).spec_shards()[k].spec_replicas().spec_pools().len()
                                ==> sweep_outcome(
                                #[trigger] old(self).spec_shards()[k].spec_replicas().spec_pools()[j],
                                self.spec_shards()[k].spec_replicas().spec_pools()[j],
                                now_millis,
                            )
                    },
                forall|k: int|
                    i <= k < self.spec_shards().len() ==> self.spec_shards()[k] == old(self).spec_shards()[k],
            decreases self.spec_shards().len() - i,
        {
            let ghost prev = self.spec_shards();
            let mut s = self.shards.remove(i);
            s.sweep_idle(now_millis);
            self.shards.insert(i, s);
            proof {
                assert forall|j: int|
                    0 <= j < prev.len() && j != i as int implies self.spec_shards()[j] == prev[j] by {
                    if j < i as int {
                        assert(self.spec_shards()[j] == prev.remove(i as int)[j]);
                    } else {
                        assert(self.spec_shards()[j] == prev.remove(i as int)[j - 1]);
                    }
                }
            }
            i = i + 1;
        }
    }

    /// The flat description handed to routing plugins: the database name and
    /// one record per pool, shard by shard, primary before replicas. A pool
    /// whose host holds a NUL byte is silently skipped; a name that holds one
    /// cannot be represented at all and is refused.
    pub fn plugin_config(&self) -> (r: Result<PluginConfig, Error>)
        ensures
            has_nul_char(self.spec_name()@) ==> r == Err::<PluginConfig, Error>(Error::NullBytes),
            !has_nul_char(self.spec_name()@) ==> (r matches Ok(c) && c.name@ == self.spec_name()@
                && c.num_shards == self.spec_shards().len() && c.databases@ == cluster_records(
                self.spec_shards(),
                0,
            )),
    {
        if has_nul(self.name.as_str()) {
            return Err(Error::NullBytes);
        }
        let ghost shards = self.spec_shards();
        let mut dbs: Vec<DatabaseConfig> = Vec::new();
        let mut i: usize = 0;
        while i < self.shards.len()
            invariant
                i <= shards.len(),
                shards == self.spec_shards(),
                dbs@ + cluster_records(shards, i as int) == cluster_records(shards, 0),
            decreases shards.len() - i,
        {
            let ghost before = dbs@;
            let shard = &self.shards[i];
            match shard.primary_config() {
                Some(c) => {
                    if !has_nul(c.address.host.as_str()) {
                        dbs.push(
                            DatabaseConfig {
                                host: c.address.host.clone(),
                                port: c.address.port,
                                role: Role::Primary,
                                shard_index: i,
                            },
                        );
                    }
                },
                None => {},
            }
            let ghost after_primary = dbs@;
            proof {
                let prim = match shards[i as int].spec_primary() {
                    Some(p) => if !has_nul_char(p.spec_config().address.host@) {
                        seq![record_of(p.spec_config(), Role::Primary, i)]
                    } else {
                        Seq::<DatabaseConfig>::empty()
                    },
                    None => Seq::<DatabaseConfig>::empty(),
                };
                assert(after_primary =~= before + prim);
            }
            let replicas = shard.replica_configs();
            let ghost rcfgs = configs_of(shards[i as int].spec_replicas().spec_pools());
            proof {
                assert(replicas@ =~= rcfgs);
            }
            proof {
                assert(rcfgs.subrange(0, rcfgs.len() as int) =~= rcfgs);
            }
            let mut j: usize = 0;
            while j < replicas.len()
                invariant
                    j <= replicas@.len(),
                    replicas@ == rcfgs,
                    dbs@ + config_records(rcfgs.subrange(j as int, rcfgs.len() as int), Role::Replica, i)
                        == after_primary + config_records(rcfgs, Role::Replica, i),
                decreases replicas@.len() - j,
            {
                let ghost tail = rcfgs.subrange(j as int, rcfgs.len() as int);
                proof {
                    assert(tail.drop_first() =~= rcfgs.subrange(j + 1, rcfgs.len() as int));
                }
                let c = &replicas[j];
                if !has_nul(c.address.host.as_str()) {
                    dbs.push(
                        DatabaseConfig {
                            host: c.address.host.clone(),
                            port: c.address.port,
                            role: Role::Replica,
                            shard_index: i,
                        },
                    );
                    proof {
                        assert(dbs@.drop_last() + config_records(tail, Role::Replica, i)
                            == after_primary + config_records(rcfgs, Role::Replica, i));
                        assert(dbs@.last() == record_of(tail[0], Role::Replica, i));
                        assert(dbs@ + config_records(
                            rcfgs.subrange(j + 1, rcfgs.len() as int),
                            Role::Replica,
                            i,
                        ) =~= dbs@.drop_last() + config_records(tail, Role::Replica, i));
                    }
                } else {
                    proof {
                        assert(dbs@ + config_records(
                            rcfgs.subrange(j + 1, rcfgs.len() as int),
                            Role::Replica,
                            i,
                        ) =~= dbs@ + config_records(tail, Role::Replica, i));
                    }
                }
                j = j + 1;
            }
            proof {
                assert(rcfgs.subrange(rcfgs.len() as int, rcfgs.len() as int)
                    =~= Seq::<PoolConfig>::empty());
                assert(dbs@ =~= after_primary + config_records(rcfgs, Role::Replica, i));
                assert(dbs@ =~= before + shard_records(shards[i as int], i));
                assert(cluster_records(shards, i as int) == shard_records(shards[i as int], i)
                    + cluster_records(shards, i + 1));
                assert(dbs@ + cluster_records(shards, i + 1) =~= before + cluster_records(
                    shards,
                    i as int,
                ));
            }
            i = i + 1;
        }
        proof {
            assert(cluster_records(shards, shards.len() as int) =~= Seq::<DatabaseConfig>::empty());
            assert(dbs@ =~= cluster_records(shards, 0));
        }
        Ok(
            PluginConfig {
                name: self.name.clone(),
                databases: dbs,
                num_shards: self.shards.len(),
            },
        )
    }
}

} // verus!
