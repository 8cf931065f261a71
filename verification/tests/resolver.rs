use svcman::resolve_order;
use svcman::ErrorType;
use svcman::Service;
use svcman::ServiceFlags;
use svcman::ServiceType;

fn unit(name: &str, before: Vec<String>, after: Vec<String>) -> Service {
    Service::spawn(
        name.to_string(),
        None,
        ServiceType::Regular,
        before,
        after,
        "/bin/true".to_string(),
        None,
        None,
        ServiceFlags { no_gain_privs: false, no_kill: false },
    )
}

#[test]
fn before_edge_orders_predecessor_first() {
    let svcs = vec![
        unit("a", vec!["b".to_string()], Vec::new()),
        unit("b", Vec::new(), Vec::new()),
    ];
    assert_eq!(resolve_order(&svcs), Ok(vec![0, 1]));
}

#[test]
fn two_node_cycle_is_rejected() {
    let svcs = vec![
        unit("a", vec!["b".to_string()], Vec::new()),
        unit("b", vec!["a".to_string()], Vec::new()),
    ];
    assert_eq!(resolve_order(&svcs), Err(ErrorType::CyclicDependency));
}

#[test]
fn after_edge_orders_successor_last() {
    let svcs = vec![
        unit("b", Vec::new(), vec!["a".to_string()]),
        unit("a", Vec::new(), Vec::new()),
    ];
    assert_eq!(resolve_order(&svcs), Ok(vec![1, 0]));
}

#[test]
fn independent_services_keep_insertion_order() {
    let svcs = vec![
        unit("a", Vec::new(), Vec::new()),
        unit("b", Vec::new(), Vec::new()),
        unit("c", Vec::new(), Vec::new()),
    ];
    assert_eq!(resolve_order(&svcs), Ok(vec![0, 1, 2]));
}

#[test]
fn diamond_graph_is_ordered_edge_by_edge() {
    let svcs = vec![
        unit("a", vec!["b".to_string(), "c".to_string()], Vec::new()),
        unit("b", Vec::new(), Vec::new()),
        unit("c", Vec::new(), Vec::new()),
        unit("d", Vec::new(), vec!["b".to_string(), "c".to_string()]),
    ];
    let order = resolve_order(&svcs).expect("the diamond is acyclic");
    let pos = |v: usize| order.iter().position(|x| *x == v).expect("placed");
    assert_eq!(order.len(), 4);
    assert!(pos(0) < pos(1));
    assert!(pos(0) < pos(2));
    assert!(pos(1) < pos(3));
    assert!(pos(2) < pos(3));
}

#[test]
fn chain_with_late_root_reorders() {
    let svcs = vec![
        unit("c", Vec::new(), vec!["b".to_string()]),
        unit("b", Vec::new(), vec!["a".to_string()]),
        unit("a", Vec::new(), Vec::new()),
    ];
    assert_eq!(resolve_order(&svcs), Ok(vec![2, 1, 0]));
}

#[test]
fn three_node_cycle_is_rejected() {
    let svcs = vec![
        unit("a", vec!["b".to_string()], Vec::new()),
        unit("b", vec!["c".to_string()], Vec::new()),
        unit("c", vec!["a".to_string()], Vec::new()),
    ];
    assert_eq!(resolve_order(&svcs), Err(ErrorType::CyclicDependency));
}

#[test]
fn service_naming_itself_is_a_cycle() {
    let svcs = vec![unit("a", vec!["a".to_string()], Vec::new())];
    assert_eq!(resolve_order(&svcs), Err(ErrorType::CyclicDependency));
}

#[test]
fn cycle_beside_free_services_fails_whole_batch() {
    let svcs = vec![
        unit("free", Vec::new(), Vec::new()),
        unit("a", vec!["b".to_string()], Vec::new()),
        unit("b", vec!["a".to_string()], Vec::new()),
    ];
    assert_eq!(resolve_order(&svcs), Err(ErrorType::CyclicDependency));
}

#[test]
fn unknown_names_constrain_nothing() {
    let svcs = vec![
        unit("a", vec!["missing".to_string()], vec!["ghost".to_string()]),
        unit("b", Vec::new(), Vec::new()),
    ];
    assert_eq!(resolve_order(&svcs), Ok(vec![0, 1]));
}

#[test]
fn empty_set_resolves_to_empty_order() {
    let svcs: Vec<Service> = Vec::new();
    assert_eq!(resolve_order(&svcs), Ok(Vec::new()));
}

#[test]
fn both_edge_kinds_combine() {
    let svcs = vec![
        unit("mid", Vec::new(), vec!["root".to_string()]),
        unit("leaf", Vec::new(), vec!["mid".to_string()]),
        unit("root", vec!["leaf".to_string()], Vec::new()),
    ];
    let order = resolve_order(&svcs).expect("acyclic");
    let pos = |v: usize| order.iter().position(|x| *x == v).expect("placed");
    assert!(pos(2) < pos(0));
    assert!(pos(0) < pos(1));
}

#[test]
fn stop_order_is_reverse_of_start_order() {
    let svcs = vec![
        unit("a", vec!["b".to_string()], Vec::new()),
        unit("b", vec!["c".to_string()], Vec::new()),
        unit("c", Vec::new(), Vec::new()),
    ];
    let order = svcman::resolve_order(&svcs).expect("acyclic");
    assert_eq!(order, vec![0, 1, 2]);
    assert_eq!(svcman::stop_order(&order), vec![2, 1, 0]);
}

#[test]
fn stop_order_of_empty_batch_is_empty() {
    let order: Vec<usize> = Vec::new();
    assert_eq!(svcman::stop_order(&order), Vec::<usize>::new());
}

#[test]
fn resolving_twice_gives_the_same_order() {
    let svcs = vec![
        unit("a", Vec::new(), vec!["b".to_string()]),
        unit("b", Vec::new(), Vec::new()),
        unit("c", vec!["a".to_string()], Vec::new()),
    ];
    let first = resolve_order(&svcs);
    let second = resolve_order(&svcs);
    assert_eq!(first, second);
    assert_eq!(first, Ok(vec![1, 2, 0]));
}
