//! Validation and construction of an emunet's topology graph.
use vstd::prelude::*;

verus! {

/// A vertex descriptor supplied by a caller: a caller-local id and an
/// opaque description.
pub struct VertexInfo {
    pub client_id: u64,
    pub description: String,
}

/// An edge descriptor supplied by a caller: an ordered pair of caller-local
/// vertex ids and an opaque description.
pub struct EdgeInfo {
    pub client_id: (u64, u64),
    pub description: String,
}

impl VertexInfo {
    pub fn new(client_id: u64, description: String) -> (r: Self)
        ensures
            r.client_id == client_id,
            r.description@ == description@,
    {
        VertexInfo { client_id, description }
    }
}

impl EdgeInfo {
    pub fn new(client_id: (u64, u64), description: String) -> (r: Self)
        ensures
            r.client_id == client_id,
            r.description@ == description@,
    {
        EdgeInfo { client_id, description }
    }
}

/// Why a batch of descriptors does not form a graph.
#[derive(PartialEq, Eq, Structural, Debug, Clone, Copy)]
pub enum GraphError {
    /// The vertex id occurs more than once in the batch.
    DuplicateVertex(u64),
    /// The edge with this key names a vertex id that is not in the batch.
    DanglingEdge(u64, u64),
}

/// A vertex table keyed by caller-local id together with an edge table keyed
/// by ordered pairs of those ids; only ever built complete and consistent.
pub struct TopologyGraph {
    vertices: Vec<(u64, VertexInfo)>,
    edges: Vec<((u64, u64), EdgeInfo)>,
}

pub open spec fn ids_unique(vs: Seq<(u64, VertexInfo)>) -> bool {
    forall|a: int, b: int| 0 <= a < b < vs.len() ==> vs[a].0 != vs[b].0
}

pub open spec fn has_vertex(vs: Seq<(u64, VertexInfo)>, id: u64) -> bool {
    exists|a: int| 0 <= a < vs.len() && vs[a].0 == id
}

pub open spec fn edge_closed(vs: Seq<(u64, VertexInfo)>, key: (u64, u64)) -> bool {
    has_vertex(vs, key.0) && has_vertex(vs, key.1)
}

pub open spec fn edges_closed(
    vs: Seq<(u64, VertexInfo)>,
    es: Seq<((u64, u64), EdgeInfo)>,
) -> bool {
    forall|k: int| 0 <= k < es.len() ==> #[trigger] edge_closed(vs, es[k].0)
}

impl View for TopologyGraph {
    type V = (Seq<(u64, VertexInfo)>, Seq<((u64, u64), EdgeInfo)>);

    closed spec fn view(&self) -> Self::V {
        (self.vertices@, self.edges@)
    }
}

fn find_vertex(vs: &Vec<(u64, VertexInfo)>, id: u64) -> (r: bool)
    ensures
        r == has_vertex(vs@, id),
{
    let mut i: usize = 0;
    while i < vs.len()
        invariant
            0 <= i <= vs.len(),
            forall|a: int| 0 <= a < i ==> vs@[a].0 != id,
        decreases vs.len() - i,
    {
        if vs[i].0 == id {
            return true;
        }
        i += 1;
    }
    false
}

impl TopologyGraph {
    pub open spec fn wf(&self) -> bool {
        ids_unique(self@.0) && edges_closed(self@.0, self@.1)
    }

    /// Builds the graph from vertex and edge descriptors. Duplicate vertex
    /// ids are reported first, then edges whose endpoints are missing; on
    /// either error nothing is built.
    pub fn from_vecs(
        vertices: Vec<(u64, VertexInfo)>,
        edges: Vec<((u64, u64), EdgeInfo)>,
    ) -> (r: Result<TopologyGraph, GraphError>)
        ensures
            r is Ok <==> ids_unique(vertices@) && edges_closed(vertices@, edges@),
            r matches Ok(g) ==> g.wf() && g@.0 == vertices@ && g@.1 == edges@,
            r matches Err(GraphError::DuplicateVertex(id)) ==> exists|a: int, b: int|
                0 <= a < b < vertices@.len() && vertices@[a].0 == id && vertices@[b].0 == id
                    && ids_unique(vertices@.take(b)),
            r matches Err(GraphError::DanglingEdge(x, y)) ==> ids_unique(vertices@) && exists|
                k: int,
            |
                0 <= k < edges@.len() && edges@[k].0 == (x, y) && !edge_closed(vertices@, (x, y))
                    && forall|m: int| 0 <= m < k ==> #[trigger] edge_closed(vertices@, edges@[m].0),
            !ids_unique(vertices@) ==> r is Err && r->Err_0 is DuplicateVertex,
            ids_unique(vertices@) && !edges_closed(vertices@, edges@) ==> r is Err && r->Err_0 is DanglingEdge,
    {
        let mut i: usize = 0;
        while i < vertices.len()
            invariant
                0 <= i <= vertices.len(),
                forall|a: int, b: int| 0 <= a < b < i ==> vertices@[a].0 != vertices@[b].0,
            decreases vertices.len() - i,
        {
            let mut j: usize = 0;
            while j < i
                invariant
                    0 <= j <= i < vertices.len(),
                    forall|a: int, b: int| 0 <= a < b < i ==> vertices@[a].0 != vertices@[b].0,
                    forall|a: int| 0 <= a < j ==> vertices@[a].0 != vertices@[i as int].0,
                decreases i - j,
            {
                if vertices[j].0 == vertices[i].0 {
                    assert(vertices@.take(i as int).len() == i);
                    assert(ids_unique(vertices@.take(i as int)));
                    return Err(GraphError::DuplicateVertex(vertices[i].0));
                }
                j += 1;
            }
            i += 1;
        }
        let mut k: usize = 0;
        while k < edges.len()
            invariant
                0 <= k <= edges.len(),
                ids_unique(vertices@),
                forall|m: int| 0 <= m < k ==> #[trigger] edge_closed(vertices@, edges@[m].0),
            decreases edges.len() - k,
        {
            let key = edges[k].0;
            let from_ok = find_vertex(&vertices, key.0);
            let to_ok = find_vertex(&vertices, key.1);
            if !from_ok || !to_ok {
                assert(!edge_closed(vertices@, edges@[k as int].0));
                return Err(GraphError::DanglingEdge(key.0, key.1));
            }
            k += 1;
        }
        Ok(TopologyGraph { vertices, edges })
    }

    pub fn vertex_count(&self) -> (r: usize)
        ensures
            r == self@.0.len(),
    {
        self.vertices.len()
    }

    pub fn edge_count(&self) -> (r: usize)
        ensures
            r == self@.1.len(),
    {
        self.edges.len()
    }

    pub fn contains_vertex(&self, id: u64) -> (r: bool)
        ensures
            r == has_vertex(self@.0, id),
    {
        find_vertex(&self.vertices, id)
    }
}

} // verus!
