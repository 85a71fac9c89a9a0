//! The node runtime's skeleton: a process is a primary or a worker,
//! decided exactly once at startup, and moves through the lifecycle
//! Starting, Serving, Stopped. The role never changes while the node
//! lives; a primary owns the full pipeline and the generation driver, a
//! worker owns only its local shards and answers incoming hops.
use vstd::prelude::*;

verus! {

/// The fixed role of a process, decided once at startup.
#[derive(Debug, Clone, Copy, PartialEq, Eq, Structural)]
pub enum NodeRole {
    /// Owns the full pipeline and drives generation.
    Primary,
    /// Owns its local shards and serves incoming pipeline hops.
    Worker,
}

/// Where a node stands in its lifecycle.
#[derive(Debug, Clone, Copy, PartialEq, Eq, Structural)]
pub enum NodePhase {
    Starting,
    Serving,
    Stopped,
}

/// The runtime state of one node: its role and its lifecycle phase.
/// The only transitions are Starting to Serving and Serving to
/// Stopped, and the role is fixed for the node's whole life.
#[derive(Debug, Clone, Copy, PartialEq, Eq, Structural)]
pub struct NodeState {
    pub role: NodeRole,
    pub phase: NodePhase,
}

impl NodeState {
    /// A node comes up in `Starting` with its configured role.
    pub fn start(role: NodeRole) -> (s: NodeState)
        ensures
            s.role == role,
            s.phase == NodePhase::Starting,
    {
        NodeState { role, phase: NodePhase::Starting }
    }

    /// Moves a started node into service; the role stays what startup
    /// decided.
    pub fn serve(&mut self)
        requires
            old(self).phase == NodePhase::Starting,
        ensures
            final(self).phase == NodePhase::Serving,
            final(self).role == old(self).role,
    {
        self.phase = NodePhase::Serving;
    }

    /// Stops a serving node; the role still never changes.
    pub fn stop(&mut self)
        requires
            old(self).phase == NodePhase::Serving,
        ensures
            final(self).phase == NodePhase::Stopped,
            final(self).role == old(self).role,
    {
        self.phase = NodePhase::Stopped;
    }
}

} // verus!
