//! An ordered collection of replica pools under a load-balancing strategy.

use vstd::prelude::*;
use crate::config::{LoadBalancingStrategy, PoolerMode, Role};
use crate::errors::Error;
use crate::messages::BackendKeyData;
use crate::pool::{CancelTicket, Checkin, Checkout, Pool, PoolConfig, PoolRef, abandon_outcome, add_idle_outcome, cancel_waiter_outcome, checkin_outcome, checkout_outcome, extend_keys, fresh_pool, sweep_outcome};
use crate::server::Server;

verus! {

/// Index of the pool with the fewest sessions in use; ties go to the lower
/// index. Zero when there are no pools.
pub open spec fn least_loaded(pools: Seq<Pool>) -> int
    decreases pools.len(),
{
    if pools.len() <= 1 {
        0
    } else {
        let rest = 1 + least_loaded(pools.drop_first());
        if pools[0].spec_in_use() <= pools[rest].spec_in_use() {
            0
        } else {
            rest
        }
    }
}

/// [`least_loaded`] stays in range.
pub proof fn lemma_least_loaded_range(pools: Seq<Pool>)
    requires
        pools.len() > 0,
    ensures
        0 <= least_loaded(pools) < pools.len(),
    decreases pools.len(),
{
    if pools.len() > 1 {
        lemma_least_loaded_range(pools.drop_first());
    }
}

/// Converse characterization: an index that is minimal, with everything
/// before it strictly heavier, is exactly [`least_loaded`].
pub proof fn lemma_least_loaded_is(pools: Seq<Pool>, k: int)
    requires
        0 <= k < pools.len(),
        forall|j: int| 0 <= j < pools.len() ==> pools[j].spec_in_use() >= pools[k].spec_in_use(),
        forall|j: int| 0 <= j < k ==> pools[j].spec_in_use() > pools[k].spec_in_use(),
    ensures
        least_loaded(pools) == k,
    decreases pools.len(),
{
    if pools.len() > 1 {
        lemma_least_loaded_range(pools.drop_first());
        let rest = 1 + least_loaded(pools.drop_first());
        if k == 0 {
            assert(pools.drop_first()[rest - 1] == pools[rest]);
            assert(pools[0].spec_in_use() <= pools[rest].spec_in_use());
        } else {
            assert forall|j: int| 0 <= j < pools.len() - 1 implies #[trigger] pools.drop_first()[j].spec_in_use() >= pools.drop_first()[k - 1].spec_in_use() by {
                assert(pools.drop_first()[j] == pools[j + 1]);
                assert(pools.drop_first()[k - 1] == pools[k]);
            }
            assert forall|j: int| 0 <= j < k - 1 implies #[trigger] pools.drop_first()[j].spec_in_use() > pools.drop_first()[k - 1].spec_in_use() by {
                assert(pools.drop_first()[j] == pools[j + 1]);
                assert(pools.drop_first()[k - 1] == pools[k]);
            }
            lemma_least_loaded_is(pools.drop_first(), k - 1);
            assert(pools.drop_first()[k - 1] == pools[k]);
            assert(pools[0].spec_in_use() > pools[k].spec_in_use());
        }
    }
}

/// The waiters of a list of pools, pool by pool, each queue in order.
pub open spec fn pools_waiters(pools: Seq<Pool>) -> Seq<BackendKeyData>
    decreases pools.len(),
{
    if pools.len() == 0 {
        Seq::empty()
    } else {
        pools[0].spec_waiters() + pools_waiters(pools.drop_first())
    }
}

/// Ordered replica pools plus the strategy that spreads checkouts over them.
pub struct Replicas {
    pools: Vec<Pool>,
    strategy: LoadBalancingStrategy,
    cursor: usize,
}

/// Which pool one selection picks, given the set's state and, for the random
/// strategy, the entropy the caller supplied. Meaningful only when the set is
/// non-empty.
pub open spec fn selected_index(r: Replicas, entropy: u64) -> int {
    match r.spec_strategy() {
        LoadBalancingStrategy::RoundRobin => (r.spec_cursor() as int) % (
        r.spec_pools().len() as int),
        LoadBalancingStrategy::Random => (entropy as int) % (r.spec_pools().len() as int),
        LoadBalancingStrategy::LeastConnections => least_loaded(r.spec_pools()),
    }
}

/// The full effect of one replica checkout: pool `i` was selected and went
/// through one checkout attempt; nothing else moved, and the round-robin
/// cursor advanced exactly once past the selected pool.
pub open spec fn replicas_outcome(
    r0: Replicas,
    r1: Replicas,
    res: Result<Checkout, Error>,
    shard_index: usize,
    owner: BackendKeyData,
    entropy: u64,
) -> bool {
    &&& r1.spec_strategy() == r0.spec_strategy()
    &&& if r0.spec_pools().len() == 0 {
        res == Err::<Checkout, Error>(Error::NoDatabases) && r1 == r0
    } else {
        let i = selected_index(r0, entropy);
        &&& r1.spec_pools().len() == r0.spec_pools().len()
        &&& forall|j: int|
            0 <= j < r0.spec_pools().len() && j != i ==> r1.spec_pools()[j] == r0.spec_pools()[j]
        &&& checkout_outcome(
            r0.spec_pools()[i],
            r1.spec_pools()[i],
            res,
            PoolRef { shard: shard_index, role: Role::Replica, index: i as usize },
            owner,
        )
        &&& r1.spec_cursor() == if r0.spec_strategy() == LoadBalancingStrategy::RoundRobin {
            (i + 1) % (r0.spec_pools().len() as int)
        } else {
            r0.spec_cursor() as int
        }
    }
}

impl Replicas {
    /// The pools, in configuration order.
    pub closed spec fn spec_pools(&self) -> Seq<Pool> {
        self.pools@
    }

    /// The load-balancing strategy.
    pub closed spec fn spec_strategy(&self) -> LoadBalancingStrategy {
        self.strategy
    }

    /// The round-robin rotation cursor.
    pub closed spec fn spec_cursor(&self) -> usize {
        self.cursor
    }

    /// Every pool is sound, and the cursor stays inside the set whenever the
    /// set is non-empty.
    pub open spec fn wf(&self) -> bool {
        &&& forall|i: int| 0 <= i < self.spec_pools().len() ==> self.spec_pools()[i].wf()
        &&& self.spec_pools().len() > 0 ==> (self.spec_cursor() as int) < self.spec_pools().len()
    }

    /// Build the set: one fresh pool per configuration, cursor at the front.
    pub fn new(configs: &Vec<PoolConfig>, strategy: LoadBalancingStrategy) -> (r: Replicas)
        ensures
            r.wf(),
            r.spec_strategy() == strategy,
            r.spec_cursor() == 0,
            r.spec_pools().len() == configs@.len(),
            forall|i: int|
                0 <= i < configs@.len() ==> fresh_pool(#[trigger] r.spec_pools()[i], configs@[i]),
    {
        let mut pools: Vec<Pool> = Vec::new();
        let mut i: usize = 0;
        while i < configs.len()
            invariant
                i <= configs@.len(),
                pools@.len() == i,
                forall|j: int| 0 <= j < i ==> fresh_pool(#[trigger] pools@[j], configs@[j]),
                forall|j: int| 0 <= j < i ==> (#[trigger] pools@[j]).wf(),
            decreases configs@.len() - i,
        {
            pools.push(Pool::new(&configs[i]));
            i = i + 1;
        }
        let ghost ps = pools@;
        let r = Replicas { pools, strategy, cursor: 0 };
        proof {
            assert forall|j: int| 0 <= j < r.spec_pools().len() implies r.spec_pools()[j].wf() by {
                assert(ps[j].wf());
            }
        }
        r
    }

    /// No replicas are configured.
    pub fn is_empty(&self) -> (r: bool)
        ensures
            r == (self.spec_pools().len() == 0),
    {
        self.pools.len() == 0
    }

    /// How many replica pools there are.
    pub fn len(&self) -> (r: usize)
        ensures
            r == self.spec_pools().len(),
    {
        self.pools.len()
    }

    /// Pick a pool per the strategy; `None` on an empty set. Only the
    /// round-robin cursor moves.
    pub fn select(&mut self, entropy: u64) -> (r: Option<usize>)
        requires
            old(self).wf(),
        ensures
            final(self).wf(),
            final(self).spec_pools() == old(self).spec_pools(),
            final(self).spec_strategy() == old(self).spec_strategy(),
            old(self).spec_pools().len() == 0 ==> r is None && *final(self) == *old(self),
            old(self).spec_pools().len() > 0 ==> {
                &&& r matches Some(i) && i as int == selected_index(*old(self), entropy)
                &&& final(self).spec_cursor() as int == if old(self).spec_strategy()
                    == LoadBalancingStrategy::RoundRobin {
                    (selected_index(*old(self), entropy) + 1) % (
                    old(self).spec_pools().len() as int)
                } else {
                    old(self).spec_cursor() as int
                }
            },
    {
        let n = self.pools.len();
        if n == 0 {
            return None;
        }
        match self.strategy {
            LoadBalancingStrategy::RoundRobin => {
                let i = self.cursor % n;
                self.cursor = (i + 1) % n;
                Some(i)
            },
            LoadBalancingStrategy::Random => Some((entropy % (n as u64)) as usize),
            LoadBalancingStrategy::LeastConnections => {
                let mut best: usize = 0;
                let mut best_load: usize = self.pools[0].in_use();
                let mut i: usize = 1;
                while i < n
                    invariant
                        self.wf(),
                        n == self.spec_pools().len(),
                        0 < n,
                        0 <= best < i <= n,
                        best_load == self.spec_pools()[best as int].spec_in_use(),
                        forall|j: int|
                            0 <= j < i ==> self.spec_pools()[j].spec_in_use() >= best_load,
                        forall|j: int|
                            0 <= j < best ==> self.spec_pools()[j].spec_in_use() > best_load,
                    decreases n - i,
                {
                    let load = self.pools[i].in_use();
                    if load < best_load {
                        best = i;
                        best_load = load;
                    }
                    i = i + 1;
                }
                proof {
                    lemma_least_loaded_is(self.spec_pools(), best as int);
                }
                Some(best)
            },
        }
    }

    /// One checkout from the set for client `owner`, with the set serving
    /// shard `shard_index`: select a pool per the strategy and attempt the
    /// checkout there.
    pub fn get(&mut self, owner: &BackendKeyData, shard_index: usize, entropy: u64) -> (res: Result<
        Checkout,
        Error,
    >)
        requires
            old(self).wf(),
        ensures
            final(self).wf(),
            replicas_outcome(*old(self), *final(self), res, shard_index, *owner, entropy),
    {
        let picked = self.select(entropy);
        match picked {
            None => Err(Error::NoDatabases),
            Some(i) => {
                let at = PoolRef { shard: shard_index, role: Role::Replica, index: i };
                proof {
                    if old(self).spec_strategy() == LoadBalancingStrategy::LeastConnections {
                        lemma_least_loaded_range(old(self).spec_pools());
                    }
                }
                let mut pool = self.pools.remove(i);
                let res = pool.get(owner, at);
                self.pools.insert(i, pool);
                proof {
                    assert forall|j: int|
                        0 <= j < old(self).spec_pools().len() && j != i as int implies final(self).spec_pools()[j] == old(self).spec_pools()[j] by {
                        if j < i as int {
                            assert(final(self).spec_pools()[j] == old(self).spec_pools().remove(
                                i as int,
                            )[j]);
                        } else {
                            assert(final(self).spec_pools()[j] == old(self).spec_pools().remove(
                                i as int,
                            )[j - 1]);
                        }
                    }
                }
                res
            },
        }
    }

    /// An equivalent, independent set: fresh pools with the same
    /// configurations, same strategy, cursor at the front.
    pub fn duplicate(&self) -> (r: Replicas)
        requires
            self.wf(),
        ensures
            r.wf(),
            r.spec_strategy() == self.spec_strategy(),
            r.spec_cursor() == 0,
            r.spec_pools().len() == self.spec_pools().len(),
            forall|i: int|
                0 <= i < self.spec_pools().len() ==> fresh_pool(
                    #[trigger] r.spec_pools()[i],
                    self.spec_pools()[i].spec_config(),
                ),
    {
        let mut pools: Vec<Pool> = Vec::new();
        let mut i: usize = 0;
        while i < self.pools.len()
            invariant
                self.wf(),
                i <= self.spec_pools().len(),
                pools@.len() == i,
                forall|j: int|
                    0 <= j < i ==> fresh_pool(
                        #[trigger] pools@[j],
                        self.spec_pools()[j].spec_config(),
                    ),
                forall|j: int| 0 <= j < i ==> (#[trigger] pools@[j]).wf(),
            decreases self.spec_pools().len() - i,
        {
            pools.push(self.pools[i].duplicate());
            i = i + 1;
        }
        let ghost ps = pools@;
        let r = Replicas { pools, strategy: self.strategy, cursor: 0 };
        proof {
            assert forall|j: int| 0 <= j < r.spec_pools().len() implies r.spec_pools()[j].wf() by {
                assert(ps[j].wf());
            }
        }
        r
    }

    /// The configuration of every pool, in order.
    pub fn pools(&self) -> (v: Vec<PoolConfig>)
        ensures
            v@.len() == self.spec_pools().len(),
            forall|i: int|
                0 <= i < self.spec_pools().len() ==> v@[i] == self.spec_pools()[i].spec_config(),
    {
        let mut v: Vec<PoolConfig> = Vec::new();
        let mut i: usize = 0;
        while i < self.pools.len()
            invariant
                i <= self.spec_pools().len(),
                v@.len() == i,
                forall|j: int| 0 <= j < i ==> v@[j] == self.spec_pools()[j].spec_config(),
            decreases self.spec_pools().len() - i,
        {
            let c = self.pools[i].settings();
            let a = self.pools[i].addr().duplicate();
            v.push(PoolConfig { address: a, config: c });
            i = i + 1;
        }
        v
    }

    /// A cancellation ticket against every replica, in order.
    pub fn cancel(&self, id: &BackendKeyData) -> (ts: Vec<CancelTicket>)
        ensures
            ts@.len() == self.spec_pools().len(),
            forall|i: int|
                0 <= i < self.spec_pools().len() ==> {
                    &&& ts@[i].addr == self.spec_pools()[i].spec_config().address
                    &&& ts@[i].key == *id
                },
    {
        let mut ts: Vec<CancelTicket> = Vec::new();
        let mut i: usize = 0;
        while i < self.pools.len()
            invariant
                i <= self.spec_pools().len(),
                ts@.len() == i,
                forall|j: int|
                    0 <= j < i ==> {
                        &&& ts@[j].addr == self.spec_pools()[j].spec_config().address
                        &&& ts@[j].key == *id
                    },
            decreases self.spec_pools().len() - i,
        {
            ts.push(self.pools[i].cancel(id));
            i = i + 1;
        }
        ts
    }

    /// Bring every pool online.
    pub fn launch(&mut self)
        requires
            old(self).wf(),
        ensures
            final(self).wf(),
            final(self).spec_strategy() == old(self).spec_strategy(),
            final(self).spec_cursor() == old(self).spec_cursor(),
            final(self).spec_pools().len() == old(self).spec_pools().len(),
            forall|i: int|
                0 <= i < old(self).spec_pools().len() ==> {
                    &&& final(self).spec_pools()[i].spec_config() == old(self).spec_pools()[i].spec_config()
                    &&& final(self).spec_pools()[i].spec_idle() == old(self).spec_pools()[i].spec_idle()
                    &&& final(self).spec_pools()[i].spec_total() == old(self).spec_pools()[i].spec_total()
                    &&& final(self).spec_pools()[i].spec_waiters() == old(self).spec_pools()[i].spec_waiters()
                    &&& !final(self).spec_pools()[i].spec_shut_down()
                },
    {
        let mut i: usize = 0;
        while i < self.pools.len()
            invariant
                i <= self.spec_pools().len(),
                self.spec_pools().len() == old(self).spec_pools().len(),
                self.spec_strategy() == old(self).spec_strategy(),
                self.spec_cursor() == old(self).spec_cursor(),
                self.wf(),
                forall|j: int|
                    0 <= j < i ==> {
                        &&& self.spec_pools()[j].spec_config() == old(self).spec_pools()[j].spec_config()
                        &&& self.spec_pools()[j].spec_idle() == old(self).spec_pools()[j].spec_idle()
                        &&& self.spec_pools()[j].spec_total() == old(self).spec_pools()[j].spec_total()
                        &&& self.spec_pools()[j].spec_waiters() == old(self).spec_pools()[j].spec_waiters()
                        &&& !self.spec_pools()[j].spec_shut_down()
                    },
                forall|j: int|
                    i <= j < self.spec_pools().len() ==> self.spec_pools()[j] == old(self).spec_pools()[j],
            decreases self.spec_pools().len() - i,
        {
            let ghost prev = self.spec_pools();
            let mut p = self.pools.remove(i);
            p.launch();
            self.pools.insert(i, p);
            proof {
                assert forall|j: int|
                    0 <= j < prev.len() && j != i as int implies self.spec_pools()[j] == prev[j] by {
                    if j < i as int {
                        assert(self.spec_pools()[j] == prev.remove(i as int)[j]);
                    } else {
                        assert(self.spec_pools()[j] == prev.remove(i as int)[j - 1]);
                    }
                }
            }
            i = i + 1;
        }
    }

    /// Take every pool offline.
    pub fn shutdown(&mut self) -> (cancelled: Vec<BackendKeyData>)
        requires
            old(self).wf(),
        ensures
            final(self).wf(),
            final(self).spec_strategy() == old(self).spec_strategy(),
            final(self).spec_cursor() == old(self).spec_cursor(),
            final(self).spec_pools().len() == old(self).spec_pools().len(),
            forall|i: int|
                0 <= i < old(self).spec_pools().len() ==> (#[trigger] final(self).spec_pools()[i]).spec_config()
                    == old(self).spec_pools()[i].spec_config(),
            forall|i: int|
                0 <= i < old(self).spec_pools().len() ==> (#[trigger] final(self).spec_pools()[i]).spec_idle().len()
                    == 0,
            forall|i: int|
                0 <= i < old(self).spec_pools().len() ==> (#[trigger] final(self).spec_pools()[i]).spec_total()
                    == old(self).spec_pools()[i].spec_total() - old(self).spec_pools()[i].spec_idle().len(),
            forall|i: int|
                0 <= i < old(self).spec_pools().len() ==> (#[trigger] final(self).spec_pools()[i]).spec_waiters().len()
                    == 0,
            forall|i: int|
                0 <= i < old(self).spec_pools().len() ==> (#[trigger] final(self).spec_pools()[i]).spec_shut_down(),
            cancelled@ == pools_waiters(old(self).spec_pools()),
    {
        let ghost all = self.spec_pools();
        let mut cancelled: Vec<BackendKeyData> = Vec::new();
        proof {
            assert(all.subrange(0, all.len() as int) =~= all);
        }
        let mut i: usize = 0;
        while i < self.pools.len()
            invariant
                i <= self.spec_pools().len(),
                all == old(self).spec_pools(),
                self.spec_pools().len() == all.len(),
                self.spec_strategy() == old(self).spec_strategy(),
                self.spec_cursor() == old(self).spec_cursor(),
                self.wf(),
                forall|j: int|
                    0 <= j < i ==> (#[trigger] self.spec_pools()[j]).spec_config()
                        == all[j].spec_config(),
                forall|j: int|
                    0 <= j < i ==> (#[trigger] self.spec_pools()[j]).spec_idle().len() == 0,
                forall|j: int|
                    0 <= j < i ==> (#[trigger] self.spec_pools()[j]).spec_total()
                        == all[j].spec_total() - all[j].spec_idle().len(),
                forall|j: int|
                    0 <= j < i ==> (#[trigger] self.spec_pools()[j]).spec_waiters().len() == 0,
                forall|j: int|
                    0 <= j < i ==> (#[trigger] self.spec_pools()[j]).spec_shut_down(),
                forall|j: int|
                    i <= j < self.spec_pools().len() ==> self.spec_pools()[j] == all[j],
                cancelled@ + pools_waiters(all.subrange(i as int, all.len() as int))
                    == pools_waiters(all),
            decreases self.spec_pools().len() - i,
        {
            let ghost tail = all.subrange(i as int, all.len() as int);
            proof {
                assert(tail[0] == all[i as int]);
                assert(tail.drop_first() =~= all.subrange(i + 1, all.len() as int));
            }
            let ghost prev = self.spec_pools();
            let mut p = self.pools.remove(i);
            let w = p.shutdown();
            self.pools.insert(i, p);
            extend_keys(&mut cancelled, &w);
            proof {
                assert forall|j: int|
                    0 <= j < prev.len() && j != i as int implies self.spec_pools()[j] == prev[j] by {
                    if j < i as int {
                        assert(self.spec_pools()[j] == prev.remove(i as int)[j]);
                    } else {
                        assert(self.spec_pools()[j] == prev.remove(i as int)[j - 1]);
                    }
                }
                assert(cancelled@ + pools_waiters(all.subrange(i + 1, all.len() as int))
                    =~= pools_waiters(all));
            }
            i = i + 1;
        }
        proof {
            assert(pools_waiters(all.subrange(all.len() as int, all.len() as int))
                =~= Seq::<BackendKeyData>::empty());
            assert(cancelled@ =~= pools_waiters(all));
        }
        cancelled
    }

    /// Return a session to the pool at `index`.
    pub fn checkin_at(&mut self, index: usize, server: Server, mode: PoolerMode) -> (r: Checkin)
        requires
            old(self).wf(),
            index < old(self).spec_pools().len(),
        ensures
            final(self).wf(),
            final(self).spec_strategy() == old(self).spec_strategy(),
            final(self).spec_cursor() == old(self).spec_cursor(),
            final(self).spec_pools().len() == old(self).spec_pools().len(),
            forall|j: int|
                0 <= j < old(self).spec_pools().len() && j != index ==> final(self).spec_pools()[j]
                    == old(self).spec_pools()[j],
            checkin_outcome(
                old(self).spec_pools()[index as int],
                final(self).spec_pools()[index as int],
                server,
                mode,
                r,
            ),
    {
        let ghost prev = self.spec_pools();
        let mut p = self.pools.remove(index);
        let r = p.checkin(server, mode);
        self.pools.insert(index, p);
        proof {
            assert forall|j: int|
                0 <= j < prev.len() && j != index as int implies self.spec_pools()[j] == prev[j] by {
                if j < index as int {
                    assert(self.spec_pools()[j] == prev.remove(index as int)[j]);
                } else {
                    assert(self.spec_pools()[j] == prev.remove(index as int)[j - 1]);
                }
            }
        }
        r
    }

    /// Free a reserved slot of the pool at `index`.
    pub fn abandon_at(&mut self, index: usize) -> (woken: Option<BackendKeyData>)
        requires
            old(self).wf(),
            index < old(self).spec_pools().len(),
        ensures
            final(self).wf(),
            final(self).spec_strategy() == old(self).spec_strategy(),
            final(self).spec_cursor() == old(self).spec_cursor(),
            final(self).spec_pools().len() == old(self).spec_pools().len(),
            forall|j: int|
                0 <= j < old(self).spec_pools().len() && j != index ==> final(self).spec_pools()[j]
                    == old(self).spec_pools()[j],
            abandon_outcome(
                old(self).spec_pools()[index as int],
                final(self).spec_pools()[index as int],
                woken,
            ),
    {
        let ghost prev = self.spec_pools();
        let mut p = self.pools.remove(index);
        let woken = p.abandon();
        self.pools.insert(index, p);
        proof {
            assert forall|j: int|
                0 <= j < prev.len() && j != index as int implies self.spec_pools()[j] == prev[j] by {
                if j < index as int {
                    assert(self.spec_pools()[j] == prev.remove(index as int)[j]);
                } else {
                    assert(self.spec_pools()[j] == prev.remove(index as int)[j - 1]);
                }
            }
        }
        woken
    }

    /// Warm a session into the idle queue of the pool at `index`.
    pub fn add_idle_at(&mut self, index: usize, server: Server) -> (accepted: bool)
        requires
            old(self).wf(),
            index < old(self).spec_pools().len(),
        ensures
            final(self).wf(),
            final(self).spec_strategy() == old(self).spec_strategy(),
            final(self).spec_cursor() == old(self).spec_cursor(),
            final(self).spec_pools().len() == old(self).spec_pools().len(),
            forall|j: int|
                0 <= j < old(self).spec_pools().len() && j != index ==> final(self).spec_pools()[j]
                    == old(self).spec_pools()[j],
            add_idle_outcome(
                old(self).spec_pools()[index as int],
                final(self).spec_pools()[index as int],
                server,
                accepted,
            ),
    {
        let ghost prev = self.spec_pools();
        let mut p = self.pools.remove(index);
        let accepted = p.add_idle(server);
        self.pools.insert(index, p);
        proof {
            assert forall|j: int|
                0 <= j < prev.len() && j != index as int implies self.spec_pools()[j] == prev[j] by {
                if j < index as int {
                    assert(self.spec_pools()[j] == prev.remove(index as int)[j]);
                } else {
                    assert(self.spec_pools()[j] == prev.remove(index as int)[j - 1]);
                }
            }
        }
        accepted
    }

    /// Withdraw the waiter `w` from the pool at `index`.
    pub fn cancel_waiter_at(&mut self, index: usize, w: &BackendKeyData) -> (found: bool)
        requires
            old(self).wf(),
            index < old(self).spec_pools().len(),
        ensures
            final(self).wf(),
            final(self).spec_strategy() == old(self).spec_strategy(),
            final(self).spec_cursor() == old(self).spec_cursor(),
            final(self).spec_pools().len() == old(self).spec_pools().len(),
            forall|j: int|
                0 <= j < old(self).spec_pools().len() && j != index ==> final(self).spec_pools()[j]
                    == old(self).spec_pools()[j],
            cancel_waiter_outcome(
                old(self).spec_pools()[index as int],
                final(self).spec_pools()[index as int],
                *w,
                found,
            ),
    {
        let ghost prev = self.spec_pools();
        let mut p = self.pools.remove(index);
        let found = p.cancel_waiter(w);
        self.pools.insert(index, p);
        proof {
            assert forall|j: int|
                0 <= j < prev.len() && j != index as int implies self.spec_pools()[j] == prev[j] by {
                if j < index as int {
                    assert(self.spec_pools()[j] == prev.remove(index as int)[j]);
                } else {
                    assert(self.spec_pools()[j] == prev.remove(index as int)[j - 1]);
                }
            }
        }
        found
    }

    /// Run an eviction sweep over every pool.
    pub fn sweep_idle(&mut self, now_millis: u64)
        requires
            old(self).wf(),
        ensures
            final(self).wf(),
            final(self).spec_strategy() == old(self).spec_strategy(),
            final(self).spec_cursor() == old(self).spec_cursor(),
            final(self).spec_pools().len() == old(self).spec_pools().len(),
            forall|i: int|
                0 <= i < old(self).spec_pools().len() ==> sweep_outcome(
                    #[trigger] old(self).spec_pools()[i],
                    final(self).spec_pools()[i],
                    now_millis,
                ),
    {
        let mut i: usize = 0;
        while i < self.pools.len()
            invariant
                i <= self.spec_pools().len(),
                self.spec_pools().len() == old(self).spec_pools().len(),
                self.spec_strategy() == old(self).spec_strategy(),
                self.spec_cursor() == old(self).spec_cursor(),
                self.wf(),
                forall|j: int|
                    0 <= j < i ==> sweep_outcome(
                        #[trigger] old(self).spec_pools()[j],
                        self.spec_pools()[j],
                        now_millis,
                    ),
                forall|j: int|
                    i <= j < self.spec_pools().len() ==> self.spec_pools()[j] == old(self).spec_pools()[j],
            decreases self.spec_pools().len() - i,
        {
            let ghost prev = self.spec_pools();
            let mut p = self.pools.remove(i);
            p.sweep_idle(now_millis);
            self.pools.insert(i, p);
            proof {
                assert forall|j: int|
                    0 <= j < prev.len() && j != i as int implies self.spec_pools()[j] == prev[j] by {
                    if j < i as int {
                        assert(self.spec_pools()[j] == prev.remove(i as int)[j]);
                    } else {
                        assert(self.spec_pools()[j] == prev.remove(i as int)[j - 1]);
                    }
                }
            }
            i = i + 1;
        }
    }
}

} // verus!
