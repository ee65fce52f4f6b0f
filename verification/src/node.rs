//! The node model: roles, identifiers, lifecycle states, and the
//! role-partitioned snapshot produced by discovery.

use vstd::prelude::*;

verus! {

/// The cluster role a node is assigned once, at discovery time.
#[derive(Clone, Copy, Debug, PartialEq, Eq, Structural)]
pub enum NodeRole {
    Master,
    Worker,
}

impl NodeRole {
    /// The lower-case label used when reporting a role.
    pub fn label(&self) -> (r: &'static str)
        ensures
            *self is Master ==> r@ == "master"@,
            *self is Worker ==> r@ == "worker"@,
    {
        match self {
            NodeRole::Master => "master",
            NodeRole::Worker => "worker",
        }
    }
}

/// The lifecycle state a compute instance reports at discovery time.
#[derive(Clone, Copy, Debug, PartialEq, Eq, Structural)]
pub enum LifecycleState {
    Pending,
    Running,
    Stopping,
    Stopped,
    Unknown,
}

impl LifecycleState {
    /// The lower-case label used when reporting a lifecycle state.
    pub fn label(&self) -> (r: &'static str)
        ensures
            *self is Pending ==> r@ == "pending"@,
            *self is Running ==> r@ == "running"@,
            *self is Stopping ==> r@ == "stopping"@,
            *self is Stopped ==> r@ == "stopped"@,
            *self is Unknown ==> r@ == "unknown"@,
    {
        match self {
            LifecycleState::Pending => "pending",
            LifecycleState::Running => "running",
            LifecycleState::Stopping => "stopping",
            LifecycleState::Stopped => "stopped",
            LifecycleState::Unknown => "unknown",
        }
    }
}

/// An opaque, immutable, string-backed identifier of a compute instance.
/// Equality is by value, and an identifier is never empty.
#[derive(Debug)]
pub struct NodeId(String);

impl View for NodeId {
    type V = Seq<char>;

    closed spec fn view(&self) -> Seq<char> {
        self.0@
    }
}

impl NodeId {
    /// An identifier is well formed when it is non-empty.
    pub open spec fn wf(&self) -> bool {
        self@.len() > 0
    }

    /// The identifier backed by the given string.
    pub closed spec fn spec_from_string(id: String) -> NodeId {
        NodeId(id)
    }

    pub fn new(id: String) -> (r: Self)
        requires
            id@.len() > 0,
        ensures
            r@ == id@,
            r.wf(),
            r == NodeId::spec_from_string(id),
    {
        NodeId(id)
    }

    /// The identifier as a plain string slice.
    pub fn as_str(&self) -> (r: &str)
        ensures
            r@ == self@,
    {
        self.0.as_str()
    }
}

impl Clone for NodeId {
    fn clone(&self) -> (r: Self)
        ensures
            r == *self,
    {
        NodeId(self.0.clone())
    }
}

/// Distinct strings back distinct identifiers.
pub proof fn lemma_node_id_injective(s1: String, s2: String)
    ensures
        s1 != s2 ==> NodeId::spec_from_string(s1) != NodeId::spec_from_string(s2),
{
    if NodeId::spec_from_string(s1) == NodeId::spec_from_string(s2) {
        assert(s1 == s2);
    }
}

/// What discovery keeps of one compute instance: its identifier, its public
/// address when it has one, and the lifecycle state it reported. A record
/// with no public address cannot be provisioned or executed against.
#[derive(Debug)]
pub struct NodeRecord {
    pub id: NodeId,
    pub public_address: Option<String>,
    pub state: LifecycleState,
}

impl NodeRecord {
    pub open spec fn wf(&self) -> bool {
        self.id.wf()
    }

    pub fn new(id: NodeId, public_address: Option<String>, state: LifecycleState) -> (r: Self)
        ensures
            r == (NodeRecord { id, public_address, state }),
    {
        NodeRecord { id, public_address, state }
    }

    /// An explicit copy; the result is equal to the original.
    pub fn duplicate(&self) -> (r: Self)
        ensures
            r == *self,
    {
        let id = self.id.clone();
        let public_address = match &self.public_address {
            Some(a) => Some(a.clone()),
            None => None,
        };
        NodeRecord { id, public_address, state: self.state }
    }
}

/// The one-shot, read-only partition of discovered nodes into the two
/// cluster roles. A node is placed in at most one of the two sequences.
#[derive(Debug)]
pub struct ClusterNodes {
    pub master: Vec<NodeRecord>,
    pub worker: Vec<NodeRecord>,
}

/// The master sequence followed by the worker sequence, each node paired
/// with its role.
pub open spec fn spec_role_pairs(nodes: ClusterNodes) -> Seq<(NodeRole, NodeRecord)> {
    nodes.master@.map_values(|n: NodeRecord| (NodeRole::Master, n)) + nodes.worker@.map_values(
        |n: NodeRecord| (NodeRole::Worker, n),
    )
}

/// The identifiers of all nodes, masters first, in sequence order.
pub open spec fn spec_node_ids(nodes: ClusterNodes) -> Seq<NodeId> {
    nodes.master@.map_values(|n: NodeRecord| n.id) + nodes.worker@.map_values(
        |n: NodeRecord| n.id,
    )
}

impl ClusterNodes {
    /// The identifiers of every node in the snapshot, masters first.
    pub fn node_ids(&self) -> (r: Vec<NodeId>)
        ensures
            r@ == spec_node_ids(*self),
    {
        let mut r: Vec<NodeId> = Vec::new();
        let mut i: usize = 0;
        while i < self.master.len()
            invariant
                i <= self.master@.len(),
                r@ == self.master@.take(i as int).map_values(|n: NodeRecord| n.id),
            decreases self.master@.len() - i,
        {
            r.push(self.master[i].id.clone());
            proof {
                assert(self.master@.take(i + 1).map_values(|n: NodeRecord| n.id) =~= self.master@
                    .take(i as int).map_values(|n: NodeRecord| n.id).push(self.master@[i as int].id));
            }
            i = i + 1;
        }
        proof {
            assert(self.master@.take(self.master@.len() as int) =~= self.master@);
        }
        let mut j: usize = 0;
        while j < self.worker.len()
            invariant
                j <= self.worker@.len(),
                r@ == self.master@.map_values(|n: NodeRecord| n.id) + self.worker@.take(
                    j as int,
                ).map_values(|n: NodeRecord| n.id),
            decreases self.worker@.len() - j,
        {
            r.push(self.worker[j].id.clone());
            proof {
                assert(self.worker@.take(j + 1).map_values(|n: NodeRecord| n.id) =~= self.worker@
                    .take(j as int).map_values(|n: NodeRecord| n.id).push(self.worker@[j as int].id));
            }
            j = j + 1;
        }
        proof {
            assert(self.worker@.take(self.worker@.len() as int) =~= self.worker@);
        }
        r
    }

    /// Every node paired with its role, masters first.
    pub fn nodes(&self) -> (r: Vec<(NodeRole, NodeRecord)>)
        ensures
            r@ == spec_role_pairs(*self),
    {
        let mut r: Vec<(NodeRole, NodeRecord)> = Vec::new();
        let mut i: usize = 0;
        while i < self.master.len()
            invariant
                i <= self.master@.len(),
                r@ == self.master@.take(i as int).map_values(
                    |n: NodeRecord| (NodeRole::Master, n),
                ),
            decreases self.master@.len() - i,
        {
            r.push((NodeRole::Master, self.master[i].duplicate()));
            proof {
                assert(self.master@.take(i + 1).map_values(|n: NodeRecord| (NodeRole::Master, n))
                    =~= self.master@.take(i as int).map_values(
                    |n: NodeRecord| (NodeRole::Master, n),
                ).push((NodeRole::Master, self.master@[i as int])));
            }
            i = i + 1;
        }
        proof {
            assert(self.master@.take(self.master@.len() as int) =~= self.master@);
        }
        let mut j: usize = 0;
        while j < self.worker.len()
            invariant
                j <= self.worker@.len(),
                r@ == self.master@.map_values(|n: NodeRecord| (NodeRole::Master, n)) + self.worker@
                    .take(j as int).map_values(|n: NodeRecord| (NodeRole::Worker, n)),
            decreases self.worker@.len() - j,
        {
            r.push((NodeRole::Worker, self.worker[j].duplicate()));
            proof {
                assert(self.worker@.take(j + 1).map_values(|n: NodeRecord| (NodeRole::Worker, n))
                    =~= self.worker@.take(j as int).map_values(
                    |n: NodeRecord| (NodeRole::Worker, n),
                ).push((NodeRole::Worker, self.worker@[j as int])));
            }
            j = j + 1;
        }
        proof {
            assert(self.worker@.take(self.worker@.len() as int) =~= self.worker@);
        }
        r
    }

    /// Every node paired with its role, masters first, consuming the snapshot.
    pub fn into_nodes(self) -> (r: Vec<(NodeRole, NodeRecord)>)
        ensures
            r@ == spec_role_pairs(self),
    {
        self.nodes()
    }

    /// How many nodes the snapshot holds, over both roles.
    pub fn len(&self) -> (r: usize)
        requires
            self.master@.len() + self.worker@.len() <= usize::MAX,
        ensures
            r == self.master@.len() + self.worker@.len(),
    {
        self.master.len() + self.worker.len()
    }
}

} // verus!
