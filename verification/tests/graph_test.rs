use fadfada::control::graph::ControllerGraph;

#[test]
fn test_graph_collision() {
    let mut g = ControllerGraph::new();
    let engine = "foo".to_string();
    g.add(5, &engine, "u1".to_string());
    g.add(5, &engine, "u2".to_string());
    g.add(5, &engine, "u3".to_string());

    assert_eq!(g.len(), 3);
    let keys = g.keys();
    assert_eq!(keys, vec![5, 6, 7]);
    assert_eq!(g.get(0), (5, "u1".to_string(), "foo".to_string()));
    assert_eq!(g.get(1), (6, "u2".to_string(), "foo".to_string()));
    assert_eq!(g.get(2), (7, "u3".to_string(), "foo".to_string()));
}

#[test]
fn test_graph_first_entry_keeps_offset() {
    let mut g = ControllerGraph::new();
    let engine = "foo".to_string();
    g.add(5, &engine, "u1".to_string());
    g.add(3, &engine, "u2".to_string());
    let keys = g.keys();
    assert_eq!(keys, vec![3, 5]);
    assert_eq!(g.get(0), (3, "u2".to_string(), "foo".to_string()));
    assert_eq!(g.get(1), (5, "u1".to_string(), "foo".to_string()));
}

#[test]
fn test_graph_len_empty() {
    let g = ControllerGraph::new();
    assert_eq!(g.len(), 0);
}

#[test]
fn test_graph_find_next_offset() {
    let mut g = ControllerGraph::new();
    let engine = "foo".to_string();
    assert_eq!(g.find_next_offset(5), 5);
    g.add(5, &engine, "u1".to_string());
    g.add(6, &engine, "u2".to_string());
    assert_eq!(g.find_next_offset(5), 7);
    assert_eq!(g.find_next_offset(6), 7);
    assert_eq!(g.find_next_offset(9), 9);
}

#[test]
fn test_graph_keys_reflect_later_additions() {
    let mut g = ControllerGraph::new();
    let engine = "foo".to_string();
    g.add(9, &engine, "u1".to_string());
    assert_eq!(g.keys(), vec![9]);
    g.add(2, &engine, "u2".to_string());
    assert_eq!(g.keys(), vec![2, 9]);
}
