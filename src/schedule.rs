use vstd::prelude::*;

verus! {

/// Substeps per fixed tick when none are configured.
pub const DEFAULT_SUBSTEPS: usize = 4;

/// Collision queries a body may make within one substep when no budget is configured.
pub const DEFAULT_MAX_RETRIES: usize = 8;

/// Configuration of the fixed-tick integration loop.
#[derive(Debug, Clone, Copy, PartialEq, Eq, Structural, Hash)]
pub struct PhysicsConfig {
    /// Equal slices each tick's motion is divided into.
    pub substeps: usize,
    /// Collision queries each body may make within one substep.
    pub max_retries: usize,
}

impl Default for PhysicsConfig {
    fn default() -> (r: PhysicsConfig)
        ensures
            r.substeps == DEFAULT_SUBSTEPS,
            r.max_retries == DEFAULT_MAX_RETRIES,
    {
        PhysicsConfig { substeps: DEFAULT_SUBSTEPS, max_retries: DEFAULT_MAX_RETRIES }
    }
}

/// Progress of one body's sliding resolution within a substep: how many collision queries it
/// may still make, and whether it has reached its destination.
#[derive(Debug, Clone, Copy, PartialEq, Eq, Structural, Hash)]
pub struct RetryBudget {
    pub remaining: usize,
    pub settled: bool,
}

impl RetryBudget {
    /// Whether the body should look for its next collision.
    pub open spec fn querying(self) -> bool {
        !self.settled && self.remaining > 0
    }

    /// The state after a query that did (`hit`) or did not find a collision.
    pub open spec fn after(self, hit: bool) -> RetryBudget
        recommends
            self.querying(),
    {
        RetryBudget { remaining: (self.remaining - 1) as usize, settled: !hit }
    }

    /// A fresh budget of `max_retries` queries.
    pub fn new(max_retries: usize) -> (r: RetryBudget)
        ensures
            r == (RetryBudget { remaining: max_retries, settled: false }),
    {
        RetryBudget { remaining: max_retries, settled: false }
    }

    /// Whether the body should look for its next collision: it has not reached its
    /// destination and has queries left.
    pub fn should_query(&self) -> (r: bool)
        ensures
            r == self.querying(),
    {
        !self.settled && self.remaining > 0
    }

    /// Records the outcome of a query. A hit means the body stopped at the contact point and
    /// goes on sliding; no hit means it reached its destination.
    pub fn record(&mut self, hit: bool)
        requires
            old(self).querying(),
        ensures
            *final(self) == old(self).after(hit),
    {
        self.remaining = self.remaining - 1;
        self.settled = !hit;
    }
}

/// Number of queries a resolution loop makes from state `s` when its successive queries
/// report the collisions in `outcomes` (it stops early when `outcomes` runs out).
pub open spec fn queries_made(s: RetryBudget, outcomes: Seq<bool>) -> nat
    decreases outcomes.len(),
{
    if !s.querying() || outcomes.len() == 0 {
        0
    } else {
        1 + queries_made(s.after(outcomes[0]), outcomes.drop_first())
    }
}

/// Whatever the queries report, a resolution loop makes at most as many queries as its
/// budget; a query that finds no collision ends the loop; and a body that collides on every
/// query uses the whole budget.
pub proof fn lemma_retry_termination(max_retries: usize, outcomes: Seq<bool>)
    ensures
        queries_made(RetryBudget { remaining: max_retries, settled: false }, outcomes)
            <= max_retries,
        0 < max_retries && 0 < outcomes.len() && !outcomes[0] ==> queries_made(
            RetryBudget { remaining: max_retries, settled: false },
            outcomes,
        ) == 1,
        outcomes.len() >= max_retries && (forall|k: int| 0 <= k < outcomes.len() ==> outcomes[k])
            ==> queries_made(RetryBudget { remaining: max_retries, settled: false }, outcomes)
            == max_retries,
    decreases max_retries,
{
    let s = RetryBudget { remaining: max_retries, settled: false };
    if max_retries > 0 && outcomes.len() > 0 {
        let rest = outcomes.drop_first();
        lemma_retry_termination((max_retries - 1) as usize, rest);
        if outcomes[0] {
            assert(s.after(outcomes[0]) == RetryBudget {
                remaining: (max_retries - 1) as usize,
                settled: false,
            });
        } else {
            assert(queries_made(s.after(outcomes[0]), rest) == 0);
        }
        if forall|k: int| 0 <= k < outcomes.len() ==> outcomes[k] {
            assert(outcomes[0]);
            assert forall|k: int| 0 <= k < rest.len() implies rest[k] by {
                assert(outcomes[k + 1]);
            }
        }
    }
}

} // verus!
