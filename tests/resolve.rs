use fnsql::parse::parse_queries;
use fnsql::resolve::{dependency_graph, setup_order, ResolveError};

#[test]
fn diamond_runs_shared_dependency_once() {
    // q depends on a and b, which both depend on c.
    let graph = vec![vec![1, 2], vec![3], vec![3], vec![]];
    let order = setup_order(&graph, 0);
    assert_eq!(order, vec![3, 1, 2, 0]);
    assert_eq!(order.iter().filter(|&&n| n == 3).count(), 1);
}

#[test]
fn cycle_ends_without_running_again() {
    // a depends on b, b depends on a.
    let graph = vec![vec![1], vec![0]];
    assert_eq!(setup_order(&graph, 0), vec![1, 0]);
    assert_eq!(setup_order(&graph, 1), vec![0, 1]);
}

#[test]
fn self_dependency_runs_once() {
    let graph = vec![vec![0]];
    assert_eq!(setup_order(&graph, 0), vec![0]);
}

#[test]
fn dependencies_run_left_to_right() {
    let graph = vec![vec![2, 1], vec![], vec![]];
    assert_eq!(setup_order(&graph, 0), vec![2, 1, 0]);
}

#[test]
fn unrelated_nodes_do_not_run() {
    let graph = vec![vec![], vec![0], vec![]];
    assert_eq!(setup_order(&graph, 1), vec![0, 1]);
}

const UNIT: &str = r#"
    #[rusqlite, test(with=[b, a])]
    q() { "SELECT 1" }

    #[rusqlite, test(with=[c])]
    a() { "SELECT 2" }

    #[rusqlite, test(with=[c])]
    b() { "SELECT 3" }

    #[rusqlite, test]
    c() { "SELECT 4" }
"#;

#[test]
fn graph_of_unit_with_forward_references() {
    let queries = parse_queries(UNIT).unwrap();
    let graph = dependency_graph(&queries).unwrap();
    assert_eq!(graph, vec![vec![2, 1], vec![3], vec![3], vec![]]);
    assert_eq!(setup_order(&graph, 0), vec![3, 2, 1, 0]);
}

#[test]
fn unknown_dependency_is_reported() {
    let queries = parse_queries("#[rusqlite, test(with=[a, nope])] q() { \"x\" } #[rusqlite, test] a() { \"y\" }").unwrap();
    assert_eq!(dependency_graph(&queries), Err(ResolveError { query: 0, dependency: 1 }));
}

#[test]
fn dependency_without_test_is_reported() {
    let queries = parse_queries("#[rusqlite, test(with=[a])] q() { \"x\" } #[rusqlite] a() { \"y\" }").unwrap();
    assert_eq!(dependency_graph(&queries), Err(ResolveError { query: 0, dependency: 0 }));
}
