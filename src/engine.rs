use vstd::prelude::*;

use crate::store::{Database, DatabaseView};
use crate::tasks::{decide, decide_spec, perform, task_spec, Action, Condition, RunError, WorkflowCtx};

verus! {

/// A node of a workflow graph. Successors are positions in the node table;
/// `None` marks an edge that is not wired.
#[derive(Debug, Clone, Copy, PartialEq, Eq, Structural)]
pub enum Node {
    Task { action: Action, next: Option<usize> },
    Exclusive { condition: Condition, yes: Option<usize>, no: Option<usize> },
    End,
}

/// Why a node table was refused.
#[derive(Debug, Clone, Copy, PartialEq, Eq, Structural)]
pub enum BuildError {
    /// The table has no node to start at.
    Empty,
    /// Node `node` has an outgoing edge that is not wired.
    Unwired { node: usize },
    /// Node `node` has an edge to a position that is not a later node.
    BadTarget { node: usize },
}

/// A node table that `build` accepted; execution starts at its first node.
pub struct Process {
    nodes: Vec<Node>,
}

/// An edge from position `i` to `t` in a table of `len` nodes leads forward to
/// an existing node, so no run can loop.
pub open spec fn target_ok(len: int, i: int, t: usize) -> bool {
    i < t < len
}

/// What is wrong with node `i` of `nodes`, if anything.
pub open spec fn node_error(nodes: Seq<Node>, i: int) -> Option<BuildError> {
    match nodes[i] {
        Node::Task { next, .. } => match next {
            None => Some(BuildError::Unwired { node: i as usize }),
            Some(t) => if target_ok(nodes.len() as int, i, t) {
                None
            } else {
                Some(BuildError::BadTarget { node: i as usize })
            },
        },
        Node::Exclusive { yes, no, .. } => if yes.is_none() || no.is_none() {
            Some(BuildError::Unwired { node: i as usize })
        } else if target_ok(nodes.len() as int, i, yes.unwrap()) && target_ok(
            nodes.len() as int,
            i,
            no.unwrap(),
        ) {
            None
        } else {
            Some(BuildError::BadTarget { node: i as usize })
        },
        Node::End => None,
    }
}

/// The outcome of running `nodes` from position `i` on `ctx` and store `db`:
/// the final context or the structural failure, and the store as left.
pub open spec fn run_spec(nodes: Seq<Node>, i: int, ctx: WorkflowCtx, db: DatabaseView) -> (
    Result<WorkflowCtx, RunError>,
    DatabaseView,
)
    decreases nodes.len() - i,
{
    if i < 0 || i >= nodes.len() {
        (Err(RunError::DanglingEdge), db)
    } else {
        match nodes[i] {
            Node::End => (Ok(ctx), db),
            Node::Task { action, next } => {
                let (r, db2) = task_spec(action, ctx, db);
                match r {
                    Err(e) => (Err(e), db2),
                    Ok(c2) => match next {
                        None => (Err(RunError::DanglingEdge), db2),
                        Some(t) => if i < t < nodes.len() {
                            run_spec(nodes, t as int, c2, db2)
                        } else {
                            (Err(RunError::DanglingEdge), db2)
                        },
                    },
                }
            },
            Node::Exclusive { condition, yes, no } => {
                let branch = if decide_spec(condition, ctx) {
                    yes
                } else {
                    no
                };
                match branch {
                    None => (Err(RunError::UnwiredBranch), db),
                    Some(t) => if i < t < nodes.len() {
                        run_spec(nodes, t as int, ctx, db)
                    } else {
                        (Err(RunError::DanglingEdge), db)
                    },
                }
            },
        }
    }
}

impl Process {
    pub closed spec fn nodes(&self) -> Seq<Node> {
        self.nodes@
    }

    /// Accepts a node table in which every edge is wired and leads to a later
    /// node; otherwise reports the earliest node at fault.
    pub fn build(nodes: Vec<Node>) -> (r: Result<Process, BuildError>)
        ensures
            match r {
                Ok(p) => {
                    &&& p.nodes() == nodes@
                    &&& nodes@.len() > 0
                    &&& forall|i: int| 0 <= i < nodes@.len() ==> node_error(nodes@, i).is_none()
                },
                Err(BuildError::Empty) => nodes@.len() == 0,
                Err(e) => exists|i: int|
                    {
                        &&& 0 <= i < nodes@.len()
                        &&& #[trigger] node_error(nodes@, i) == Some(e)
                        &&& forall|j: int| 0 <= j < i ==> node_error(nodes@, j).is_none()
                    },
            },
    {
        let len = nodes.len();
        if len == 0 {
            return Err(BuildError::Empty);
        }
        let mut i: usize = 0;
        while i < len
            invariant
                len == nodes@.len(),
                i <= len,
                forall|j: int| 0 <= j < i ==> node_error(nodes@, j).is_none(),
            decreases len - i,
        {
            let bad = match nodes[i] {
                Node::Task { next, .. } => match next {
                    None => Some(BuildError::Unwired { node: i }),
                    Some(t) => if i < t && t < len {
                        None
                    } else {
                        Some(BuildError::BadTarget { node: i })
                    },
                },
                Node::Exclusive { yes, no, .. } => match (yes, no) {
                    (Some(y), Some(n)) => if i < y && y < len && i < n && n < len {
                        None
                    } else {
                        Some(BuildError::BadTarget { node: i })
                    },
                    _ => Some(BuildError::Unwired { node: i }),
                },
                Node::End => None,
            };
            assert(bad == node_error(nodes@, i as int));
            match bad {
                Some(e) => {
                    return Err(e);
                },
                None => {},
            }
            i = i + 1;
        }
        Ok(Process { nodes })
    }

    /// Runs the graph from its first node to an end node, task after task,
    /// following at each gateway the branch its condition picks. A business
    /// rejection is data in the returned context; an `Err` is a fault of the
    /// graph's wiring or of the context it was given. Store writes made before
    /// a fault are kept.
    pub fn run(&self, start: WorkflowCtx, store: &mut Database) -> (r: Result<WorkflowCtx, RunError>)
        requires
            old(store)@.wf(),
        ensures
            final(store)@.wf(),
            (r, final(store)@) == run_spec(self.nodes(), 0, start, old(store)@),
    {
        let len = self.nodes.len();
        let mut i: usize = 0;
        let mut ctx = start;
        if len == 0 {
            return Err(RunError::DanglingEdge);
        }
        loop
            invariant
                len == self.nodes@.len(),
                i < len,
                store@.wf(),
                run_spec(self.nodes@, 0, start, old(store)@) == run_spec(self.nodes@, i as int, ctx, store@),
            decreases len - i,
        {
            match self.nodes[i] {
                Node::End => {
                    return Ok(ctx);
                },
                Node::Task { action, next } => {
                    let r = perform(action, ctx, store);
                    match r {
                        Err(e) => {
                            return Err(e);
                        },
                        Ok(c2) => {
                            match next {
                                Some(t) => {
                                    if t <= i || t >= len {
                                        return Err(RunError::DanglingEdge);
                                    }
                                    ctx = c2;
                                    i = t;
                                },
                                None => {
                                    return Err(RunError::DanglingEdge);
                                },
                            }
                        },
                    }
                },
                Node::Exclusive { condition, yes, no } => {
                    let branch = if decide(condition, &ctx) {
                        yes
                    } else {
                        no
                    };
                    match branch {
                        Some(t) => {
                            if t <= i || t >= len {
                                return Err(RunError::DanglingEdge);
                            }
                            i = t;
                        },
                        None => {
                            return Err(RunError::UnwiredBranch);
                        },
                    }
                },
            }
        }
    }
}

} // verus!
