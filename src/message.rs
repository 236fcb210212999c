//! The request catalogue and the responses that come back to callers.
use vstd::prelude::*;

use crate::graph::{edges_closed, ids_unique, EdgeInfo, GraphError, TopologyGraph, VertexInfo};

verus! {

/// A domain outcome: a value, or a failure message for the one caller that
/// asked. It never stands for a transport failure.
pub enum Outcome<T> {
    Succeed(T),
    Fail(String),
}

/// A machine that can host containers of an emunet.
pub struct ContainerServer {
    pub name: String,
    pub max_capacity: u32,
}

/// Lists the emunets owned by one user.
pub struct ListEmuNet {
    pub user: String,
}

impl ListEmuNet {
    pub fn new(user: String) -> (r: Self)
        ensures
            r.user == user,
    {
        Self { user }
    }
}

/// Builds the topology of one emunet. A descriptor list that could not be
/// decoded into the expected shape is held as `None`.
pub struct InitEmuNet {
    pub emunet_id: u128,
    pub vertices: Option<Vec<(u64, VertexInfo)>>,
    pub edges: Option<Vec<((u64, u64), EdgeInfo)>>,
}

impl InitEmuNet {
    /// Both lists decoded, vertex ids unique, and every edge's endpoints present.
    pub open spec fn is_valid(&self) -> bool {
        &&& self.vertices is Some
        &&& self.edges is Some
        &&& ids_unique(self.vertices->Some_0@)
        &&& edges_closed(self.vertices->Some_0@, self.edges->Some_0@)
    }

    /// Validates the descriptors and builds the topology; the first failing
    /// step (decode, duplicate vertex id, dangling edge) is reported as a
    /// domain failure.
    pub fn execute(self) -> (r: Outcome<()>)
        ensures
            r is Succeed <==> self.is_valid(),
            self.vertices is None ==> (r matches Outcome::Fail(m) && m@
                == "invalid json format for vertexes"@),
            self.vertices is Some && self.edges is None ==> (r matches Outcome::Fail(m) && m@
                == "invalid json format for edges"@),
            self.vertices is Some && self.edges is Some && !ids_unique(self.vertices->Some_0@) ==> (
            r matches Outcome::Fail(m) && m@ == "duplicate vertex id"@),
            self.vertices is Some && self.edges is Some && ids_unique(self.vertices->Some_0@)
                && !edges_closed(self.vertices->Some_0@, self.edges->Some_0@) ==> (
            r matches Outcome::Fail(m) && m@ == "edge refers to a missing vertex"@),
    {
        let vertices = match self.vertices {
            Some(v) => v,
            None => {
                return Outcome::Fail(String::from_str("invalid json format for vertexes"));
            },
        };
        let edges = match self.edges {
            Some(e) => e,
            None => {
                return Outcome::Fail(String::from_str("invalid json format for edges"));
            },
        };
        match TopologyGraph::from_vecs(vertices, edges) {
            Ok(_graph) => Outcome::Succeed(()),
            Err(GraphError::DuplicateVertex(_)) => Outcome::Fail(
                String::from_str("duplicate vertex id"),
            ),
            Err(GraphError::DanglingEdge(_, _)) => Outcome::Fail(
                String::from_str("edge refers to a missing vertex"),
            ),
        }
    }
}

/// A typed request, immutable once enqueued.
pub enum Request {
    Ping,
    Init(Vec<ContainerServer>),
    RegisterUser(String),
    CreateEmuNet(String, String, u32),
    InitEmuNet(InitEmuNet),
    ListEmuNet(ListEmuNet),
}

impl Request {
    /// Whether the request leaves the store as it found it, so that its
    /// snapshot need not be written back.
    pub fn is_read_only(&self) -> (r: bool)
        ensures
            r == (self is Ping || self is InitEmuNet || self is ListEmuNet),
    {
        match self {
            Request::Ping => true,
            Request::InitEmuNet(_) => true,
            Request::ListEmuNet(_) => true,
            _ => false,
        }
    }
}

/// One response variant per request variant.
pub enum Response {
    Ping(Outcome<bool>),
    Init(Outcome<bool>),
    RegisterUser(Outcome<bool>),
    CreateEmuNet(Outcome<u128>),
    InitEmuNet(Outcome<()>),
    ListEmuNet(Outcome<Vec<(String, u128)>>),
}

/// A failure that makes the remote store or the wire unusable: the remote
/// rejected a call, or its reply was malformed.
pub struct FatalError {
    pub message: String,
}

/// Whether a response answers a request of the given kind.
pub open spec fn answers(req: Request, resp: Response) -> bool {
    match req {
        Request::Ping => resp is Ping,
        Request::Init(_) => resp is Init,
        Request::RegisterUser(_) => resp is RegisterUser,
        Request::CreateEmuNet(_, _, _) => resp is CreateEmuNet,
        Request::InitEmuNet(_) => resp is InitEmuNet,
        Request::ListEmuNet(_) => resp is ListEmuNet,
    }
}

} // verus!
