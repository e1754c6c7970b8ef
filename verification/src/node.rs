//! The `Node` native payload: one handle into a parsed tree, with parent
//! navigation.

use vstd::prelude::*;

use crate::DomError;
use crate::tree::NodeHandle;
use crate::tree::NodeTree;

verus! {

/// A native tree-node value, the payload behind a script-visible `Node`
/// instance. Its identity, the handle, never changes after construction.
#[derive(Debug, Clone, Copy, PartialEq, Eq, Structural)]
pub struct Node {
    /// The handle of the tree node this payload stands for.
    pub inner: NodeHandle,
}

impl Node {
    /// The payload's handle points into an existing, well-formed tree.
    pub open spec fn valid(self, trees: Seq<NodeTree>) -> bool {
        self.inner.valid(trees)
    }

    /// Wraps a handle as a `Node` payload.
    pub fn new(inner: NodeHandle) -> (n: Node)
        ensures
            n.inner == inner,
    {
        Node { inner }
    }

    /// The script-invoked constructor of the `Node` class. The class is not
    /// constructible: calling it always raises the illegal-constructor error
    /// and never produces a value.
    pub fn constructor() -> (r: Result<Node, DomError>)
        ensures
            r == Err::<Node, DomError>(DomError::IllegalConstructor),
    {
        Err(DomError::IllegalConstructor)
    }

    /// The parent of this node inside `tree` (the tree its handle points
    /// into), or absence if the node is the root of its tree.
    pub fn parent_node(&self, tree: &NodeTree) -> (r: Option<NodeHandle>)
        requires
            tree.wf(),
            self.inner.index < tree.parents@.len(),
        ensures
            r == match tree.parents@[self.inner.index as int] {
                Some(p) => Some(NodeHandle { tree: self.inner.tree, index: p }),
                None => None::<NodeHandle>,
            },
    {
        match tree.parent_of(self.inner.index) {
            Some(p) => Some(NodeHandle { tree: self.inner.tree, index: p }),
            None => None,
        }
    }
}

} // verus!
