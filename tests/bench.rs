use cities::bench::{
    latitude_range, longitude_range, pool_settings, query_plan, Bench, BenchAction, BenchEvent,
    BenchState, DegreeRange, PoolSettings, BENCH_ITERATIONS, NEIGHBOUR_LIMIT,
};

#[test]
fn plan_draws_longitude_then_latitude() {
    let p = query_plan();
    assert_eq!(p.x_range, DegreeRange { lo: -180, hi: 180 });
    assert_eq!(p.y_range, DegreeRange { lo: -90, hi: 90 });
    assert_eq!(p.x_range, longitude_range());
    assert_eq!(p.y_range, latitude_range());
    assert_eq!(p.srid, 4326);
    assert_eq!(p.limit, 500);
    assert_eq!(NEIGHBOUR_LIMIT, 500);
}

#[test]
fn full_run_issues_500_queries_then_reports() {
    let mut b = Bench::new(BENCH_ITERATIONS);
    assert_eq!(b.step(BenchEvent::Connected), BenchAction::RunQuery);
    let mut queries = 1;
    loop {
        match b.step(BenchEvent::QuerySucceeded) {
            BenchAction::RunQuery => queries += 1,
            BenchAction::Report => break,
            other => panic!("unexpected {:?}", other),
        }
    }
    assert_eq!(queries, 500);
    assert_eq!(b.state, BenchState::Done);
}

#[test]
fn failed_query_aborts() {
    let mut b = Bench::new(3);
    assert_eq!(b.step(BenchEvent::Connected), BenchAction::RunQuery);
    assert_eq!(b.step(BenchEvent::QuerySucceeded), BenchAction::RunQuery);
    assert_eq!(b.step(BenchEvent::QueryFailed), BenchAction::Abort);
    assert_eq!(b.state, BenchState::Aborted);
    assert_eq!(b.step(BenchEvent::QuerySucceeded), BenchAction::Ignore);
    assert_eq!(b.state, BenchState::Aborted);
}

#[test]
fn zero_iterations_report_at_once() {
    let mut b = Bench::new(0);
    assert_eq!(b.step(BenchEvent::QuerySucceeded), BenchAction::Ignore);
    assert_eq!(b.state, BenchState::Idle);
    assert_eq!(b.step(BenchEvent::Connected), BenchAction::Report);
    assert_eq!(b.state, BenchState::Done);
}

#[test]
fn pool_is_bounded() {
    assert_eq!(pool_settings(), PoolSettings { max_size: 20, min_idle: 1, max_lifetime_secs: 30 });
}
