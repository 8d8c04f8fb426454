//! The routing plugin chain, as the host sees it.
//!
//! A plugin is a dynamically loaded module exposing two entry points: the
//! required routing symbol and an optional initialization symbol. Loading and
//! calling them is transport work; this module holds what the host decides
//! about them: which plugins are valid, whether initialization ran, and the
//! order of the chain.

use vstd::prelude::*;

verus! {

/// One loaded plugin: its name and which of the two entry points resolved.
#[derive(Clone, Debug)]
pub struct Plugin {
    name: String,
    has_route: bool,
    has_init: bool,
}

impl Plugin {
    /// The plugin's name.
    pub closed spec fn spec_name(&self) -> String {
        self.name
    }

    /// The routing entry point resolved.
    pub closed spec fn spec_has_route(&self) -> bool {
        self.has_route
    }

    /// The initialization entry point resolved.
    pub closed spec fn spec_has_init(&self) -> bool {
        self.has_init
    }

    /// Record what the loader found: whether the routing and initialization
    /// symbols resolved in the library called `name`.
    pub fn load(name: &str, has_route: bool, has_init: bool) -> (p: Plugin)
        ensures
            p.spec_name()@ == name@,
            p.spec_has_route() == has_route,
            p.spec_has_init() == has_init,
    {
        Plugin { name: name.to_string(), has_route, has_init }
    }

    /// The plugin's name.
    pub fn name(&self) -> (r: &String)
        ensures
            r@ == self.spec_name()@,
    {
        &self.name
    }

    /// A plugin is valid exactly when its routing entry point resolved.
    pub fn valid(&self) -> (r: bool)
        ensures
            r == self.spec_has_route(),
    {
        self.has_route
    }

    /// Whether initialization runs for this plugin: it does exactly when the
    /// optional entry point resolved.
    pub fn init(&self) -> (r: bool)
        ensures
            r == self.spec_has_init(),
    {
        self.has_init
    }
}

/// The valid plugins of `chain`, in load order.
pub open spec fn valid_only(chain: Seq<Plugin>) -> Seq<Plugin>
    decreases chain.len(),
{
    if chain.len() == 0 {
        Seq::empty()
    } else {
        (if chain[0].spec_has_route() {
            seq![chain[0]]
        } else {
            Seq::empty()
        }) + valid_only(chain.drop_first())
    }
}

/// Drop the invalid plugins from a freshly loaded chain: only those whose
/// routing entry point resolved stay, in load order — the consultation order
/// the router uses.
pub fn drop_invalid(chain: Vec<Plugin>) -> (kept: Vec<Plugin>)
    ensures
        kept@ == valid_only(chain@),
        forall|i: int| 0 <= i < kept@.len() ==> (#[trigger] kept@[i]).spec_has_route(),
{
    let ghost all = chain@;
    let mut kept: Vec<Plugin> = Vec::new();
    proof {
        assert(all.subrange(0, all.len() as int) =~= all);
    }
    let mut i: usize = 0;
    while i < chain.len()
        invariant
            i <= all.len(),
            chain@ == all,
            kept@ + valid_only(all.subrange(i as int, all.len() as int)) == valid_only(all),
            forall|j: int| 0 <= j < kept@.len() ==> (#[trigger] kept@[j]).spec_has_route(),
        decreases all.len() - i,
    {
        let ghost tail = all.subrange(i as int, all.len() as int);
        proof {
            assert(tail[0] == all[i as int]);
            assert(tail.drop_first() =~= all.subrange(i + 1, all.len() as int));
        }
        let p = &chain[i];
        if p.valid() {
            let kp = Plugin { name: p.name.clone(), has_route: p.has_route, has_init: p.has_init };
            assert(kp == all[i as int]);
            kept.push(kp);
            proof {
                assert(kept@.drop_last() + valid_only(tail) == valid_only(all));
                assert(kept@ + valid_only(all.subrange(i + 1, all.len() as int)) =~= kept@.drop_last()
                    + valid_only(tail));
            }
        } else {
            proof {
                assert(kept@ + valid_only(all.subrange(i + 1, all.len() as int)) =~= kept@
                    + valid_only(tail));
            }
        }
        i = i + 1;
    }
    proof {
        assert(all.subrange(all.len() as int, all.len() as int) =~= Seq::<Plugin>::empty());
        assert(kept@ =~= valid_only(all));
    }
    kept
}

} // verus!
