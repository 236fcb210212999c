use mocknet::graph::{EdgeInfo, GraphError, TopologyGraph, VertexInfo};
use mocknet::message::{InitEmuNet, Outcome};

fn vertex(id: u64, d: &str) -> (u64, VertexInfo) {
    (id, VertexInfo::new(id, d.to_string()))
}

fn edge(a: u64, b: u64, d: &str) -> ((u64, u64), EdgeInfo) {
    ((a, b), EdgeInfo::new((a, b), d.to_string()))
}

#[test]
fn two_vertices_one_edge_builds() {
    let g = TopologyGraph::from_vecs(vec![vertex(1, "a"), vertex(2, "b")], vec![edge(1, 2, "e")]);
    let g = match g {
        Ok(g) => g,
        Err(e) => panic!("unexpected error {:?}", e),
    };
    assert_eq!(g.vertex_count(), 2);
    assert_eq!(g.edge_count(), 1);
    assert!(g.contains_vertex(1));
    assert!(g.contains_vertex(2));
    assert!(!g.contains_vertex(3));
}

#[test]
fn dangling_edge_is_rejected() {
    let g = TopologyGraph::from_vecs(vec![vertex(1, "a"), vertex(2, "b")], vec![edge(1, 3, "e")]);
    assert_eq!(g.err(), Some(GraphError::DanglingEdge(1, 3)));
}

#[test]
fn duplicate_vertex_is_rejected() {
    let g = TopologyGraph::from_vecs(vec![vertex(1, "a"), vertex(1, "b")], vec![]);
    assert_eq!(g.err(), Some(GraphError::DuplicateVertex(1)));
}

#[test]
fn duplicate_wins_over_dangling() {
    let g = TopologyGraph::from_vecs(
        vec![vertex(1, "a"), vertex(2, "b"), vertex(1, "c")],
        vec![edge(1, 9, "e")],
    );
    assert_eq!(g.err(), Some(GraphError::DuplicateVertex(1)));
}

#[test]
fn empty_graph_builds() {
    let g = TopologyGraph::from_vecs(vec![], vec![]).ok().unwrap();
    assert_eq!(g.vertex_count(), 0);
    assert_eq!(g.edge_count(), 0);
}

#[test]
fn self_loop_on_known_vertex_builds() {
    let g = TopologyGraph::from_vecs(vec![vertex(7, "a")], vec![edge(7, 7, "loop")]);
    assert!(g.is_ok());
}

#[test]
fn dangling_source_is_rejected() {
    let g = TopologyGraph::from_vecs(vec![vertex(2, "b")], vec![edge(5, 2, "e")]);
    assert_eq!(g.err(), Some(GraphError::DanglingEdge(5, 2)));
}

fn fail_text(o: Outcome<()>) -> Option<String> {
    match o {
        Outcome::Succeed(()) => None,
        Outcome::Fail(m) => Some(m),
    }
}

#[test]
fn init_emu_net_succeeds_on_valid_topology() {
    let m = InitEmuNet {
        emunet_id: 5,
        vertices: Some(vec![vertex(1, "a"), vertex(2, "b")]),
        edges: Some(vec![edge(1, 2, "e")]),
    };
    assert_eq!(fail_text(m.execute()), None);
}

#[test]
fn init_emu_net_reports_each_step() {
    let undecoded = InitEmuNet { emunet_id: 5, vertices: None, edges: Some(vec![]) };
    assert_eq!(fail_text(undecoded.execute()), Some("invalid json format for vertexes".to_string()));
    let undecoded_edges = InitEmuNet { emunet_id: 5, vertices: Some(vec![]), edges: None };
    assert_eq!(fail_text(undecoded_edges.execute()), Some("invalid json format for edges".to_string()));
    let dup = InitEmuNet {
        emunet_id: 5,
        vertices: Some(vec![vertex(1, "a"), vertex(1, "b")]),
        edges: Some(vec![]),
    };
    assert_eq!(fail_text(dup.execute()), Some("duplicate vertex id".to_string()));
    let dangling = InitEmuNet {
        emunet_id: 5,
        vertices: Some(vec![vertex(1, "a"), vertex(2, "b")]),
        edges: Some(vec![edge(1, 3, "e")]),
    };
    assert_eq!(fail_text(dangling.execute()), Some("edge refers to a missing vertex".to_string()));
}
