//! The `Document` native payload: a node that is the root the document was
//! constructed from.

use vstd::prelude::*;

use crate::DomError;
use crate::node::Node;
use crate::tree::MAX_NODES;
use crate::tree::NodeHandle;
use crate::tree::NodeTree;
use crate::tree::parse_parents;
use crate::tree::table_view;

verus! {

/// The markup of the default document that `new Document()` builds when a
/// script constructs a document directly, as a stand-in for fetching the
/// current global document.
pub const DEFAULT_MARKUP: &'static str = "<!DOCTYPE html><html><head></head><body></body></html>";

/// A native document value, the payload behind a script-visible `Document`
/// instance. Each payload wraps the node its document was constructed over;
/// distinct documents may index distinct trees of identical shape.
#[derive(Debug, Clone, Copy, PartialEq, Eq, Structural)]
pub struct Document {
    /// The root node the document was constructed from.
    pub node: Node,
}

impl Document {
    /// The payload's handle points into an existing, well-formed tree.
    pub open spec fn valid(self, trees: Seq<NodeTree>) -> bool {
        self.node.valid(trees)
    }

    /// Wraps an existing tree node as a `Document` payload. This is the
    /// internal path: native code that already holds a tree wraps it here.
    pub fn new(root: NodeHandle) -> (d: Document)
        ensures
            d.node.inner == root,
    {
        Document { node: Node::new(root) }
    }

    /// The node backing this document.
    pub fn as_node(&self) -> (n: &Node)
        ensures
            n == &self.node,
    {
        &self.node
    }

    /// The script-invoked constructor of the `Document` class: builds the
    /// default document tree, appends it to the context's tree list, and
    /// returns a payload over its root. The external parser recovers from any
    /// markup, so this always succeeds; the appended arena holds exactly the
    /// default markup's parent table (its longest indexable prefix, were the
    /// default document ever to exceed the node budget).
    pub fn constructor(trees: &mut Vec<NodeTree>) -> (d: Document)
        ensures
            final(trees)@.len() == old(trees)@.len() + 1,
            final(trees)@[old(trees)@.len() as int].wf(),
            table_view(final(trees)@[old(trees)@.len() as int].parents@) == parse_parents(
                DEFAULT_MARKUP@,
            ).take(final(trees)@[old(trees)@.len() as int].parents@.len() as int),
            final(trees)@[old(trees)@.len() as int].parents@.len() == if parse_parents(
                DEFAULT_MARKUP@,
            ).len() <= MAX_NODES {
                parse_parents(DEFAULT_MARKUP@).len()
            } else {
                MAX_NODES as nat
            },
            forall|k: int|
                0 <= k < old(trees)@.len() ==> final(trees)@[k] == old(trees)@[k],
            d.node.inner == (NodeHandle { tree: old(trees)@.len() as usize, index: 0 }),
            d.valid(final(trees)@),
    {
        proof {
            reveal_strlit("<!DOCTYPE html><html><head></head><body></body></html>");
        }
        let tree = NodeTree::from_markup(DEFAULT_MARKUP);
        let id: usize = trees.len();
        trees.push(tree);
        Document::new(NodeHandle { tree: id, index: 0 })
    }
}

} // verus!
