use vstd::prelude::*;
use crate::record::WGS84_SRID;

verus! {

/// Queries that one benchmark run issues.
pub const BENCH_ITERATIONS: u32 = 500;

/// Nearest cities that each benchmark query asks for.
pub const NEIGHBOUR_LIMIT: u32 = 500;

/// A half-open range `[lo, hi)` of whole degrees.
#[derive(Clone, Copy, Debug, PartialEq, Eq, Structural)]
pub struct DegreeRange {
    pub lo: i32,
    pub hi: i32,
}

/// Longitudes: `[-180, 180)`.
pub fn longitude_range() -> (r: DegreeRange)
    ensures
        r == (DegreeRange { lo: -180i32, hi: 180i32 }),
{
    DegreeRange { lo: -180, hi: 180 }
}

/// Latitudes: `[-90, 90)`.
pub fn latitude_range() -> (r: DegreeRange)
    ensures
        r == (DegreeRange { lo: -90i32, hi: 90i32 }),
{
    DegreeRange { lo: -90, hi: 90 }
}

/// One benchmark query: the `limit` cities nearest to a point drawn
/// uniformly with x in `x_range` and y in `y_range`, in `srid`.
#[derive(Clone, Copy, Debug, PartialEq, Eq, Structural)]
pub struct QueryPlan {
    pub x_range: DegreeRange,
    pub y_range: DegreeRange,
    pub srid: u32,
    pub limit: u32,
}

/// The query of the benchmark: x is a longitude and y a latitude.
pub fn query_plan() -> (p: QueryPlan)
    ensures
        p.x_range == (DegreeRange { lo: -180i32, hi: 180i32 }),
        p.y_range == (DegreeRange { lo: -90i32, hi: 90i32 }),
        p.srid == WGS84_SRID,
        p.limit == NEIGHBOUR_LIMIT,
{
    QueryPlan {
        x_range: longitude_range(),
        y_range: latitude_range(),
        srid: WGS84_SRID,
        limit: NEIGHBOUR_LIMIT,
    }
}

#[derive(Clone, Copy, Debug, PartialEq, Eq, Structural)]
pub enum BenchState {
    /// Waiting for a connection.
    Idle,
    /// `done` queries have succeeded.
    Running { done: u32 },
    /// Every query succeeded; the elapsed time is reported.
    Done,
    /// A query failed.
    Aborted,
}

#[derive(Clone, Copy, Debug, PartialEq, Eq, Structural)]
pub enum BenchEvent {
    /// A connection was acquired.
    Connected,
    /// A query ran, whatever rows it found (none, on an empty table).
    QuerySucceeded,
    /// A query failed.
    QueryFailed,
}

#[derive(Clone, Copy, Debug, PartialEq, Eq, Structural)]
pub enum BenchAction {
    /// Issue the next query.
    RunQuery,
    /// Report the elapsed time.
    Report,
    /// Stop with an error.
    Abort,
    /// The event means nothing in this state.
    Ignore,
}

/// The next state and action of a run of `n` queries.
pub open spec fn transition(n: u32, s: BenchState, e: BenchEvent) -> (BenchState, BenchAction) {
    match (s, e) {
        (BenchState::Idle, BenchEvent::Connected) => if n == 0 {
            (BenchState::Done, BenchAction::Report)
        } else {
            (BenchState::Running { done: 0 }, BenchAction::RunQuery)
        },
        (BenchState::Running { done }, BenchEvent::QuerySucceeded) => if done + 1 >= n {
            (BenchState::Done, BenchAction::Report)
        } else {
            (BenchState::Running { done: (done + 1) as u32 }, BenchAction::RunQuery)
        },
        (BenchState::Running { done }, BenchEvent::QueryFailed) => (
            BenchState::Aborted,
            BenchAction::Abort,
        ),
        _ => (s, BenchAction::Ignore),
    }
}

/// The state after a sequence of events.
pub open spec fn state_after(n: u32, s: BenchState, es: Seq<BenchEvent>) -> BenchState
    decreases es.len(),
{
    if es.len() == 0 {
        s
    } else {
        state_after(n, transition(n, s, es[0]).0, es.drop_first())
    }
}

/// The actions asked for along a sequence of events.
pub open spec fn actions_along(n: u32, s: BenchState, es: Seq<BenchEvent>) -> Seq<BenchAction>
    decreases es.len(),
{
    if es.len() == 0 {
        Seq::empty()
    } else {
        let (t, a) = transition(n, s, es[0]);
        seq![a] + actions_along(n, t, es.drop_first())
    }
}

/// `m` successful queries.
pub open spec fn successes(m: nat) -> Seq<BenchEvent> {
    Seq::new(m, |i: int| BenchEvent::QuerySucceeded)
}

/// `m` requests for a query, then one report.
pub open spec fn queries_then_report(m: nat) -> Seq<BenchAction> {
    Seq::new(m, |i: int| BenchAction::RunQuery).push(BenchAction::Report)
}

proof fn lemma_running_to_done(n: u32, done: u32)
    requires
        done < n,
    ensures
        state_after(n, BenchState::Running { done }, successes((n - done) as nat)) == BenchState::Done,
        actions_along(n, BenchState::Running { done }, successes((n - done) as nat))
            == queries_then_report((n - done - 1) as nat),
    decreases n - done,
{
    let es = successes((n - done) as nat);
    let s = BenchState::Running { done };
    assert(es.len() > 0 && es[0] == BenchEvent::QuerySucceeded);
    if done + 1 >= n {
        let rest = es.drop_first();
        assert(rest =~= Seq::<BenchEvent>::empty());
        assert(actions_along(n, BenchState::Done, rest) == Seq::<BenchAction>::empty());
        assert(state_after(n, BenchState::Done, rest) == BenchState::Done);
        assert(actions_along(n, s, es) =~= queries_then_report(0));
    } else {
        let d2 = (done + 1) as u32;
        lemma_running_to_done(n, d2);
        assert(es.drop_first() =~= successes((n - d2) as nat));
        assert(transition(n, s, es[0]) == (BenchState::Running { done: d2 }, BenchAction::RunQuery));
        assert(actions_along(n, s, es) =~= queries_then_report((n - done - 1) as nat));
    }
}

/// A run whose queries all succeed (as they do over an empty table:
/// ordering and limiting no rows is no error) ends done, after asking for
/// exactly `n` queries and then for the report of the elapsed time.
pub proof fn lemma_successful_run_reports(n: u32)
    ensures
        state_after(n, BenchState::Idle, seq![BenchEvent::Connected] + successes(n as nat))
            == BenchState::Done,
        actions_along(n, BenchState::Idle, seq![BenchEvent::Connected] + successes(n as nat))
            == queries_then_report(n as nat),
{
    let es = seq![BenchEvent::Connected] + successes(n as nat);
    assert(es.drop_first() =~= successes(n as nat));
    assert(es.len() > 0 && es[0] == BenchEvent::Connected);
    if n == 0 {
        assert(successes(0) =~= Seq::<BenchEvent>::empty());
        assert(actions_along(n, BenchState::Done, es.drop_first()) == Seq::<BenchAction>::empty());
        assert(state_after(n, BenchState::Done, es.drop_first()) == BenchState::Done);
        assert(actions_along(n, BenchState::Idle, es) =~= queries_then_report(0));
    } else {
        lemma_running_to_done(n, 0);
        assert(actions_along(n, BenchState::Idle, es) =~= queries_then_report(n as nat));
    }
}

/// A failed query aborts the run at once, whatever query it was.
pub proof fn lemma_failure_aborts(n: u32, done: u32)
    ensures
        transition(n, BenchState::Running { done }, BenchEvent::QueryFailed)
            == (BenchState::Aborted, BenchAction::Abort),
{
}

/// The benchmark's decisions: which query comes next, and when it ends.
pub struct Bench {
    pub iterations: u32,
    pub state: BenchState,
}

impl Bench {
    pub fn new(iterations: u32) -> (b: Bench)
        ensures
            b.iterations == iterations,
            b.state == BenchState::Idle,
    {
        Bench { iterations, state: BenchState::Idle }
    }

    /// Takes one event; says what to do next.
    pub fn step(&mut self, e: BenchEvent) -> (a: BenchAction)
        ensures
            final(self).iterations == old(self).iterations,
            (final(self).state, a) == transition(old(self).iterations, old(self).state, e),
    {
        let n = self.iterations;
        match (self.state, e) {
            (BenchState::Idle, BenchEvent::Connected) => {
                if n == 0 {
                    self.state = BenchState::Done;
                    BenchAction::Report
                } else {
                    self.state = BenchState::Running { done: 0 };
                    BenchAction::RunQuery
                }
            },
            (BenchState::Running { done }, BenchEvent::QuerySucceeded) => {
                if n <= done || n - done == 1 {
                    self.state = BenchState::Done;
                    BenchAction::Report
                } else {
                    self.state = BenchState::Running { done: done + 1 };
                    BenchAction::RunQuery
                }
            },
            (BenchState::Running { done }, BenchEvent::QueryFailed) => {
                self.state = BenchState::Aborted;
                BenchAction::Abort
            },
            _ => BenchAction::Ignore,
        }
    }
}

/// Settings of the database connection pool.
#[derive(Clone, Copy, Debug, PartialEq, Eq, Structural)]
pub struct PoolSettings {
    pub max_size: u32,
    pub min_idle: u32,
    pub max_lifetime_secs: u64,
}

/// Twenty connections at most, one kept idle, each recycled after thirty
/// seconds.
pub fn pool_settings() -> (p: PoolSettings)
    ensures
        p == (PoolSettings { max_size: 20, min_idle: 1, max_lifetime_secs: 30 }),
{
    PoolSettings { max_size: 20, min_idle: 1, max_lifetime_secs: 30 }
}

} // verus!
