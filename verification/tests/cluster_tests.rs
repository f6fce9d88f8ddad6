use ractor_shell::cluster::{
    build_cluster_topology, cluster_actors, cluster_view, decimal, member_row, node_row,
    topology_group_names, ClusterView,
};
use ractor_shell::protocol::{ActorLocation, ClusterTopology, NodeInfo};

fn loc(id: &str, name: Option<&str>, node: &str) -> ActorLocation {
    ActorLocation {
        actor_id: id.to_string(),
        actor_name: name.map(String::from),
        node_id: node.to_string(),
        node_name: format!("node_{}", node),
    }
}

#[test]
fn cluster_subcommands_select_views() {
    assert_eq!(cluster_view(None), ClusterView::Nodes);
    assert_eq!(cluster_view(Some("nodes".to_string())), ClusterView::Nodes);
    assert_eq!(cluster_view(Some("groups".to_string())), ClusterView::Groups);
    assert_eq!(cluster_view(Some("pg".to_string())), ClusterView::Groups);
    assert_eq!(cluster_view(Some("actors".to_string())), ClusterView::Actors);
    assert_eq!(cluster_view(Some("x".to_string())), ClusterView::Unknown("x".to_string()));
}

#[test]
fn decimal_writes_numbers() {
    assert_eq!(decimal(0), "0");
    assert_eq!(decimal(7), "7");
    assert_eq!(decimal(1234567890), "1234567890");
    assert_eq!(decimal(usize::MAX), usize::MAX.to_string());
}

#[test]
fn node_rows_show_counts_for_the_local_node_only() {
    let local = NodeInfo { id: "0".to_string(), name: "me".to_string(), actor_count: 12, is_local: true };
    let remote = NodeInfo { id: "3".to_string(), name: "node_3".to_string(), actor_count: 0, is_local: false };
    let r = node_row(&local);
    assert_eq!((r.id.as_str(), r.name.as_str(), r.actors.as_str(), r.is_local.as_str()), ("0", "me", "12", "yes"));
    let r = node_row(&remote);
    assert_eq!((r.actors.as_str(), r.is_local.as_str()), ("-", "no"));
}

#[test]
fn member_rows_show_name_or_dash_and_node() {
    let r = member_row(&loc("1.5", None, "1"));
    assert_eq!(r.id, "1.5");
    assert_eq!(r.name, "-");
    assert_eq!(r.node, "node_1 (1)");
    let r = member_row(&loc("0.2", Some("ping"), "0"));
    assert_eq!(r.name, "ping");
}

#[test]
fn cluster_actors_are_sorted_and_unique() {
    let topo = ClusterTopology {
        nodes: vec![],
        process_groups: vec![
            ("g1".to_string(), vec![loc("1.2", Some("b"), "1"), loc("0.1", Some("a"), "0")]),
            ("g2".to_string(), vec![loc("0.1", Some("a"), "0"), loc("0.10", None, "0")]),
        ],
    };
    let actors = cluster_actors(&topo);
    let ids: Vec<&str> = actors.iter().map(|l| l.actor_id.as_str()).collect();
    assert_eq!(ids, vec!["0.1", "0.10", "1.2"]);
}

#[test]
fn topology_groups_are_the_known_ones() {
    assert_eq!(topology_group_names(), vec!["ping_pong".to_string(), "ractor_shell_introspection".to_string()]);
}

#[test]
fn topology_collects_nodes_and_groups() {
    let groups = vec![
        ("ping_pong".to_string(), vec![("2.4".to_string(), Some("p".to_string())), ("1.1".to_string(), None)]),
        ("ractor_shell_introspection".to_string(), vec![]),
    ];
    let topo = build_cluster_topology("shell@box", &groups, 5, &Some("0.3".to_string()));
    let ids: Vec<&str> = topo.nodes.iter().map(|n| n.id.as_str()).collect();
    assert_eq!(ids, vec!["0", "1", "2"]);
    assert_eq!(topo.nodes[0].name, "shell@box");
    assert!(topo.nodes[0].is_local);
    assert_eq!(topo.nodes[0].actor_count, 5);
    assert_eq!(topo.nodes[2].name, "node_2");
    assert_eq!(topo.nodes[2].actor_count, 0);
    assert_eq!(topo.process_groups.len(), 1);
    assert_eq!(topo.process_groups[0].0, "ping_pong");
    let first = &topo.process_groups[0].1[0];
    assert_eq!((first.actor_id.as_str(), first.node_id.as_str(), first.node_name.as_str()), ("2.4", "2", "node_2"));
}

#[test]
fn topology_without_registered_actors_uses_node_zero() {
    let topo = build_cluster_topology("me", &vec![], 0, &None);
    assert_eq!(topo.nodes.len(), 1);
    assert_eq!(topo.nodes[0].id, "0");
    assert_eq!(topo.nodes[0].name, "me");
    assert!(topo.process_groups.is_empty());
}
