//! The tagged union of native payloads that a script object's internal slot
//! can hold.

use vstd::prelude::*;

use crate::document::Document;
use crate::node::Node;
use crate::tree::NodeTree;
use crate::window::Window;

verus! {

/// A native payload: the natively-typed value backing a script object
/// instance. Downcasting is a single check of this tag, never a dynamic cast
/// chain.
#[derive(Debug, Clone, Copy, PartialEq, Eq, Structural)]
pub enum Payload {
    /// A tree-node payload.
    Node(Node),
    /// A document payload.
    Document(Document),
    /// A window payload.
    Window(Window),
}

impl Payload {
    /// Every handle the payload carries points into an existing, well-formed
    /// tree.
    pub open spec fn valid(self, trees: Seq<NodeTree>) -> bool {
        match self {
            Payload::Node(n) => n.valid(trees),
            Payload::Document(d) => d.valid(trees),
            Payload::Window(w) => w.valid(trees),
        }
    }
}

} // verus!
