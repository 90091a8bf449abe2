//! The capture governor.

use owl::graph::{GraphAllowance, GraphError, GraphGovernor, GraphPhase, GraphProfile};

fn gov() -> GraphGovernor {
    GraphGovernor::new(
        GraphAllowance { decode_bytes: 1 << 30, verify_bytes: 1 << 30 },
        vec![
            GraphProfile { batch: 1, max_frontier: 4096 },
            GraphProfile { batch: 4, max_frontier: 4096 },
        ],
    )
}

/// The graph budget is taken out of the pool capacity first.
#[test]
fn allowance_reserved_before_pool() {
    let g = gov();
    assert_eq!(g.reserve_from(10_000_000_000), 10_000_000_000 - 2 * (1 << 30));
}

/// A capture while a graph is alive is refused.
#[test]
fn recapture_while_live_rejected() {
    let mut g = gov();
    g.begin_capture().unwrap();
    g.end_capture(GraphProfile { batch: 1, max_frontier: 4096 }).unwrap();
    assert!(matches!(
        g.begin_capture(),
        Err(GraphError::IllegalTransition { law: "A1.2: 捕获仅允许净空窗口(无存活图)", .. })
    ));
}

/// Destroying all graphs is the way back to the trim window.
#[test]
fn destroy_all_reopens_trim_window() {
    let mut g = gov();
    g.begin_capture().unwrap();
    g.end_capture(GraphProfile { batch: 1, max_frontier: 4096 }).unwrap();
    assert_eq!(g.destroy_all().unwrap(), GraphPhase::Idle);
    g.begin_capture().unwrap();
}

/// A short budget narrows the profiles; too short a one degrades to eager.
#[test]
fn preflight_shrinks_then_degrades() {
    let g = gov();
    let cost = |p: &GraphProfile| (p.batch as u64) * 1_000_000_000;
    let kept = g.preflight(1_500_000_000, cost).unwrap();
    assert_eq!(kept.len(), 1);
    assert_eq!(kept[0].batch, 1);
    assert!(matches!(g.preflight(100, cost), Err(GraphError::DegradedToEager { .. })));
}

/// A degradation names the cost of the cheapest profile.
#[test]
fn degradation_names_the_lowest_need() {
    let g = gov();
    let cost = |p: &GraphProfile| (p.batch as u64) * 1_000_000_000;
    assert!(matches!(
        g.preflight(100, cost),
        Err(GraphError::DegradedToEager { free_bytes: 100, needed: 1_000_000_000 })
    ));
    // Costs that no sum could hold.
    let huge = |p: &GraphProfile| u64::MAX - p.batch as u64;
    assert!(matches!(
        g.preflight(7, huge),
        Err(GraphError::DegradedToEager { free_bytes: 7, needed }) if needed == u64::MAX - 4
    ));
    let costs = vec![1_000_000_000, 4_000_000_000];
    assert_eq!(g.preflight_costs(1_000_000_000, &costs).unwrap().len(), 1);
}
