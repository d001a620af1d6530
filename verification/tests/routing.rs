use mymusic_daw::audio::routing::{AudioRoutingGraph, BufferName, Connection, NodeId, NodeType, OutputNode};

fn connect(from: usize, to: usize) -> Connection {
    Connection {
        from_node: NodeId(from),
        from_buffer: BufferName::Main,
        to_node: NodeId(to),
        to_input: "main".to_string(),
        gain_bits: 1.0f32.to_bits(),
    }
}

fn order_of(graph: &AudioRoutingGraph) -> Vec<usize> {
    graph.processing_order().unwrap().iter().map(|n| n.0).collect()
}

#[test]
fn test_audio_routing_graph_creation() {
    let graph = AudioRoutingGraph::new();
    assert_eq!(graph.node_ids().len(), 0);
    assert_eq!(graph.connections().len(), 0);
}

#[test]
fn test_add_connection_creates_cycle() {
    let mut graph = AudioRoutingGraph::new();
    graph.add_node();
    graph.add_node();
    graph.add_node();

    assert!(graph.add_connection(connect(0, 1)).is_ok());
    assert!(graph.add_connection(connect(1, 2)).is_ok());
    assert!(graph.add_connection(connect(2, 0)).is_err());
}

#[test]
fn cycle_refusal_names_the_reason_and_keeps_the_graph() {
    let mut graph = AudioRoutingGraph::new();
    let a = graph.add_node().0;
    let b = graph.add_node().0;
    graph.add_connection(connect(a, b)).unwrap();
    assert_eq!(graph.add_connection(connect(b, a)), Err("Connection would create a cycle".to_string()));
    assert_eq!(graph.connections().len(), 1);
    // A self-loop closes a cycle too.
    assert!(graph.would_create_cycle(&connect(a, a)));
    assert!(!graph.would_create_cycle(&connect(a, b)));
}

#[test]
fn test_add_node() {
    let mut graph = AudioRoutingGraph::new();
    let node_id = graph.add_node();

    assert_eq!(node_id, NodeId(1));
    assert_eq!(graph.node_ids().len(), 1);
}

#[test]
fn nodes_are_numbered_in_order_from_one() {
    let mut graph = AudioRoutingGraph::new();
    assert_eq!(graph.add_node(), NodeId(1));
    assert_eq!(graph.add_node(), NodeId(2));
    assert_eq!(graph.add_node(), NodeId(3));
    let ids: Vec<usize> = graph.node_ids().iter().map(|n| n.0).collect();
    assert_eq!(ids, vec![1, 2, 3]);
}

#[test]
fn topological_order_puts_sources_first() {
    let mut graph = AudioRoutingGraph::new();
    for _ in 0..4 {
        graph.add_node();
    }
    // nodes 1..=4; 4 -> 2 -> 3 and 4 -> 1 -> 3
    graph.add_connection(connect(4, 2)).unwrap();
    graph.add_connection(connect(2, 3)).unwrap();
    graph.add_connection(connect(4, 1)).unwrap();
    graph.add_connection(connect(1, 3)).unwrap();
    assert!(graph.compute_topological_order().is_ok());
    let order = order_of(&graph);
    assert_eq!(order.len(), 4);
    let pos = |n: usize| order.iter().position(|&x| x == n).unwrap();
    assert!(pos(4) < pos(2));
    assert!(pos(2) < pos(3));
    assert!(pos(4) < pos(1));
    assert!(pos(1) < pos(3));
}

#[test]
fn changes_invalidate_the_order() {
    let mut graph = AudioRoutingGraph::new();
    graph.add_node();
    graph.add_node();
    graph.ensure_processing_order();
    assert!(graph.processing_order().is_some());
    graph.add_connection(connect(2, 1)).unwrap();
    assert!(graph.processing_order().is_none());
    graph.ensure_processing_order();
    assert_eq!(order_of(&graph), vec![2, 1]);
    graph.add_node();
    assert!(graph.processing_order().is_none());
}

#[test]
fn output_node_is_the_first_without_outgoing_connection() {
    let mut graph = AudioRoutingGraph::new();
    assert_eq!(graph.get_output_node_id(), None);
    graph.add_node();
    graph.add_node();
    graph.add_node();
    graph.add_connection(connect(1, 2)).unwrap();
    assert_eq!(graph.get_output_node_id(), Some(NodeId(2)));
}

#[test]
fn connections_from_and_to_a_node_keep_their_order() {
    let mut graph = AudioRoutingGraph::new();
    for _ in 0..4 {
        graph.add_node();
    }
    graph.add_connection(connect(0, 1)).unwrap();
    graph.add_connection(connect(0, 2)).unwrap();
    graph.add_connection(connect(3, 2)).unwrap();
    let from0: Vec<usize> = graph.get_connections_from(NodeId(0)).iter().map(|c| c.to_node.0).collect();
    assert_eq!(from0, vec![1, 2]);
    let to2: Vec<usize> = graph.get_connections_to(NodeId(2)).iter().map(|c| c.from_node.0).collect();
    assert_eq!(to2, vec![0, 3]);
    graph.remove_connections_where(&vec![true, false, false]);
    let left: Vec<(usize, usize)> = graph.connections().iter().map(|c| (c.from_node.0, c.to_node.0)).collect();
    assert_eq!(left, vec![(0, 2), (3, 2)]);
}

#[test]
fn buffer_names_read_as_text() {
    assert_eq!(BufferName::Main.to_string(), "Main");
    assert_eq!(BufferName::Aux(12).to_string(), "Aux12");
    assert_eq!(BufferName::Custom("sidechain".to_string()).to_string(), "sidechain");
}

#[test]
fn test_node_types() {
    let output = OutputNode::new(NodeId(3));
    assert_eq!(output.node_type(), NodeType::Output);
    assert_eq!(output.id(), NodeId(3));
    assert_eq!(output.name(), "Output");
    assert_eq!(output.latency_samples(), 0);
    assert_eq!(f32::from_bits(output.volume().get_bits()), 1.0);
}

#[test]
fn graph_latency_is_the_largest_node_latency() {
    assert_eq!(mymusic_daw::audio::routing::total_latency_samples(&vec![]), 0);
    assert_eq!(mymusic_daw::audio::routing::total_latency_samples(&vec![0, 128, 64]), 128);
    assert_eq!(mymusic_daw::audio::routing::total_latency_samples(&vec![5]), 5);
}
