//! The per-client router: statement in, shard and role out, with a sticky
//! fallback across protocol fragments that carry no routing signal.

use vstd::prelude::*;
use crate::errors::Error;

verus! {

/// What kind of access a route asks of its shard.
#[derive(Clone, Copy, Debug, PartialEq, Eq, Structural)]
pub enum RouteRole {
    /// The statement only reads; a replica may serve it.
    Read,
    /// The statement writes; the primary must serve it.
    Write,
    /// The plugin could not tell.
    Unknown,
}

/// The decision for one statement: which shard, and read or write.
#[derive(Clone, Copy, Debug, PartialEq, Eq)]
pub struct Route {
    /// The shard to serve the statement, when decided.
    pub shard: Option<usize>,
    /// Read, write, or undecided.
    pub role: RouteRole,
}

impl Route {
    /// The route carries no decision: an unknown role or an absent shard.
    pub open spec fn is_unknown_spec(&self) -> bool {
        self.role == RouteRole::Unknown || self.shard is None
    }

    /// The wholly undecided route.
    pub fn unknown() -> (r: Route)
        ensures
            r.shard is None,
            r.role == RouteRole::Unknown,
            r.is_unknown_spec(),
    {
        Route { shard: None, role: RouteRole::Unknown }
    }

    /// The route carries no decision.
    pub fn is_unknown(&self) -> (r: bool)
        ensures
            r == self.is_unknown_spec(),
    {
        matches!(self.role, RouteRole::Unknown) || self.shard.is_none()
    }

    /// The route asks for a read.
    pub fn read(&self) -> (r: bool)
        ensures
            r == (self.role == RouteRole::Read),
    {
        matches!(self.role, RouteRole::Read)
    }

    /// The decided shard, if any.
    pub fn shard(&self) -> (s: Option<usize>)
        ensures
            s == self.shard,
    {
        self.shard
    }
}

/// The route a chain walk decides: the first answer that carries a decision
/// wins; when every answer is unknown the previous route stands.
pub open spec fn decide(prev: Route, answers: Seq<Route>) -> Route
    decreases answers.len(),
{
    if answers.len() == 0 {
        prev
    } else if !answers[0].is_unknown_spec() {
        answers[0]
    } else {
        decide(prev, answers.drop_first())
    }
}

/// Sticky route: when every plugin declines, the previously adopted route is
/// kept, whatever it was — fragments without a routing signal never move the
/// route.
pub proof fn lemma_sticky_route(prev: Route, answers: Seq<Route>)
    requires
        forall|i: int| 0 <= i < answers.len() ==> (#[trigger] answers[i]).is_unknown_spec(),
    ensures
        decide(prev, answers) == prev,
    decreases answers.len(),
{
    if answers.len() > 0 {
        assert forall|i: int|
            0 <= i < answers.drop_first().len() implies (#[trigger] answers.drop_first()[i]).is_unknown_spec() by {
            assert(answers.drop_first()[i] == answers[i + 1]);
        }
        lemma_sticky_route(prev, answers.drop_first());
    }
}

/// The first answer that carries a decision is adopted: whatever follows it
/// in the chain cannot change the result.
pub proof fn lemma_first_decision_wins(prev: Route, answers: Seq<Route>, i: int)
    requires
        0 <= i < answers.len(),
        !answers[i].is_unknown_spec(),
        forall|j: int| 0 <= j < i ==> (#[trigger] answers[j]).is_unknown_spec(),
    ensures
        decide(prev, answers) == answers[i],
    decreases i,
{
    if i > 0 {
        assert forall|j: int|
            0 <= j < i - 1 implies (#[trigger] answers.drop_first()[j]).is_unknown_spec() by {
            assert(answers.drop_first()[j] == answers[j + 1]);
        }
        assert(answers.drop_first()[i - 1] == answers[i]);
        lemma_first_decision_wins(prev, answers.drop_first(), i - 1);
    }
}

/// The per-client router. It holds the last adopted route so that protocol
/// fragments carrying no routing signal keep being served correctly.
pub struct Router {
    route: Route,
}

impl Router {
    /// The currently adopted route.
    pub closed spec fn spec_route(&self) -> Route {
        self.route
    }

    /// A fresh router: no route adopted yet.
    pub fn new() -> (r: Router)
        ensures
            r.spec_route() == (Route { shard: None, role: RouteRole::Unknown }),
    {
        Router { route: Route::unknown() }
    }

    /// Offer one plugin's answer to the router: a decided answer is adopted
    /// and ends the chain walk; an unknown one changes nothing.
    pub fn consider(&mut self, answer: &Route) -> (adopted: bool)
        ensures
            adopted == !answer.is_unknown_spec(),
            adopted ==> final(self).spec_route() == *answer,
            !adopted ==> *final(self) == *old(self),
    {
        if answer.is_unknown() {
            false
        } else {
            self.route = *answer;
            true
        }
    }

    /// Route one statement. `query` is the statement the parser extracted
    /// from the client buffer (`None` when it found none, which is refused),
    /// and `answers` are the plugin chain's answers in consultation order.
    /// The first decided answer is adopted; if every plugin declines, the
    /// previously adopted route is returned unchanged.
    pub fn query(&mut self, query: &Option<String>, answers: &Vec<Route>) -> (r: Result<
        Route,
        Error,
    >)
        ensures
            query is None ==> r == Err::<Route, Error>(Error::NoQueryInBuffer) && *final(self)
                == *old(self),
            query is Some ==> {
                &&& final(self).spec_route() == decide(old(self).spec_route(), answers@)
                &&& r == Ok::<Route, Error>(decide(old(self).spec_route(), answers@))
            },
    {
        if query.is_none() {
            return Err(Error::NoQueryInBuffer);
        }
        let ghost prev = self.spec_route();
        proof {
            assert(answers@.subrange(0, answers@.len() as int) =~= answers@);
        }
        let mut i: usize = 0;
        while i < answers.len()
            invariant
                i <= answers@.len(),
                query is Some,
                prev == old(self).spec_route(),
                self.spec_route() == prev,
                decide(prev, answers@) == decide(prev, answers@.subrange(i as int, answers@.len() as int)),
                forall|j: int| 0 <= j < i ==> (#[trigger] answers@[j]).is_unknown_spec(),
            decreases answers@.len() - i,
        {
            let ghost tail = answers@.subrange(i as int, answers@.len() as int);
            proof {
                assert(tail[0] == answers@[i as int]);
                assert(tail.drop_first() =~= answers@.subrange(i + 1, answers@.len() as int));
            }
            let answer = answers[i];
            if !answer.is_unknown() {
                self.route = answer;
                return Ok(answer);
            }
            i = i + 1;
        }
        proof {
            assert(answers@.subrange(answers@.len() as int, answers@.len() as int)
                =~= Seq::<Route>::empty());
        }
        Ok(self.route)
    }

    /// The currently adopted route.
    pub fn route(&self) -> (r: Route)
        ensures
            r == self.spec_route(),
    {
        self.route
    }
}

impl Default for Router {
    /// A fresh router, same as [`Router::new`].
    fn default() -> (r: Router)
        ensures
            r.spec_route() == (Route { shard: None, role: RouteRole::Unknown }),
    {
        Router::new()
    }
}

} // verus!
