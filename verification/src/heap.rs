//! The script-object heap: every script-visible object of one context lives
//! here, as an explicit record of its prototype link, its internal native
//! slot, and its named properties.
//!
//! The heap only ever grows, and every prototype link points to an object
//! allocated earlier, so prototype chains are acyclic and walking them
//! terminates. The downcast gate reads an object's internal slot and is
//! total: out-of-range references and payload-free objects answer with
//! absence, never with a failure.

use vstd::prelude::*;

use crate::document::Document;
use crate::node::Node;
use crate::payload::Payload;
use crate::table::PropAttributes;
use crate::table::PropTable;
use crate::table::PropValue;
use crate::table::spec_lookup_value;
use crate::tree::NodeTree;
use crate::window::Window;

verus! {

/// One script-visible object: its prototype link, its internal slot holding
/// at most one native payload, and its named properties.
pub struct ScriptObject {
    /// The heap index of this object's prototype, if it has one.
    pub proto: Option<usize>,
    /// The internal slot: the native payload backing this object, if any.
    pub slot: Option<Payload>,
    /// The object's named properties.
    pub props: PropTable,
}

/// The object heap of one context.
pub struct Heap {
    /// All objects, in allocation order.
    pub objects: Vec<ScriptObject>,
}

/// The prototype chain starting at the prototype of object `o` passes through
/// object `target`. The walk follows links only downward in allocation order,
/// which well-formedness guarantees.
pub open spec fn chain_contains(objs: Seq<ScriptObject>, o: int, target: int) -> bool
    decreases o,
{
    if 0 <= o < objs.len() {
        match objs[o].proto {
            Some(p) => p == target || (if (p as int) < o {
                chain_contains(objs, p as int, target)
            } else {
                false
            }),
            None => false,
        }
    } else {
        false
    }
}

/// The payload the downcast gate recovers from object `o` when asked for a
/// `Node`: present exactly when the object exists and its slot holds a node.
pub open spec fn spec_downcast_node(heap: Heap, o: int) -> Option<Node> {
    if 0 <= o < heap.objects@.len() {
        match heap.objects@[o].slot {
            Some(Payload::Node(n)) => Some(n),
            _ => None,
        }
    } else {
        None
    }
}

/// The payload the downcast gate recovers from object `o` when asked for a
/// `Document`.
pub open spec fn spec_downcast_document(heap: Heap, o: int) -> Option<Document> {
    if 0 <= o < heap.objects@.len() {
        match heap.objects@[o].slot {
            Some(Payload::Document(d)) => Some(d),
            _ => None,
        }
    } else {
        None
    }
}

/// The payload the downcast gate recovers from object `o` when asked for a
/// `Window`.
pub open spec fn spec_downcast_window(heap: Heap, o: int) -> Option<Window> {
    if 0 <= o < heap.objects@.len() {
        match heap.objects@[o].slot {
            Some(Payload::Window(w)) => Some(w),
            _ => None,
        }
    } else {
        None
    }
}

/// The value of property `name` of object `o`, if the object exists and has
/// the property.
pub open spec fn spec_get_prop(heap: Heap, o: int, name: Seq<char>) -> Option<PropValue> {
    if 0 <= o < heap.objects@.len() {
        spec_lookup_value(heap.objects@[o].props.slots@, name)
    } else {
        None
    }
}

impl Heap {
    /// Well-formedness: every prototype link points to an earlier object.
    pub open spec fn wf(self) -> bool {
        forall|o: int|
            0 <= o < self.objects@.len() ==> (#[trigger] self.objects@[o].proto matches Some(p)
                ==> (p as int) < o)
    }

    /// Every payload held in a slot points into an existing, well-formed tree
    /// of `trees`.
    pub open spec fn payloads_valid(self, trees: Seq<NodeTree>) -> bool {
        forall|o: int|
            0 <= o < self.objects@.len() ==> (#[trigger] self.objects@[o].slot matches Some(p)
                ==> p.valid(trees))
    }

    /// An empty heap.
    pub fn new() -> (h: Heap)
        ensures
            h.objects@ == Seq::<ScriptObject>::empty(),
            h.wf(),
    {
        Heap { objects: Vec::new() }
    }

    /// Number of objects allocated.
    pub fn len(&self) -> (n: usize)
        ensures
            n == self.objects@.len(),
    {
        self.objects.len()
    }

    /// Allocates a new object with the given prototype link and internal
    /// slot, and no properties. This is the allocation step of the object
    /// reflector: the returned index is the new instance.
    pub fn allocate(&mut self, proto: Option<usize>, slot: Option<Payload>) -> (id: usize)
        requires
            old(self).wf(),
            proto matches Some(p) ==> p < old(self).objects@.len(),
        ensures
            final(self).wf(),
            id == old(self).objects@.len(),
            final(self).objects@.len() == old(self).objects@.len() + 1,
            final(self).objects@[id as int].proto == proto,
            final(self).objects@[id as int].slot == slot,
            final(self).objects@[id as int].props.slots@.len() == 0,
            forall|o: int|
                0 <= o < old(self).objects@.len() ==> final(self).objects@[o] == old(
                    self,
                ).objects@[o],
    {
        let id: usize = self.objects.len();
        self.objects.push(ScriptObject { proto, slot, props: PropTable::new() });
        id
    }

    /// The downcast gate for `Node` payloads: recovers the node backing
    /// `obj`, or answers absence if there is no such object, no payload, or a
    /// payload of another type.
    pub fn downcast_node(&self, obj: usize) -> (r: Option<Node>)
        ensures
            r == spec_downcast_node(*self, obj as int),
    {
        if obj >= self.objects.len() {
            return None;
        }
        match &self.objects[obj].slot {
            Some(Payload::Node(n)) => Some(*n),
            _ => None,
        }
    }

    /// The downcast gate for `Document` payloads.
    pub fn downcast_document(&self, obj: usize) -> (r: Option<Document>)
        ensures
            r == spec_downcast_document(*self, obj as int),
    {
        if obj >= self.objects.len() {
            return None;
        }
        match &self.objects[obj].slot {
            Some(Payload::Document(d)) => Some(*d),
            _ => None,
        }
    }

    /// The downcast gate for `Window` payloads.
    pub fn downcast_window(&self, obj: usize) -> (r: Option<Window>)
        ensures
            r == spec_downcast_window(*self, obj as int),
    {
        if obj >= self.objects.len() {
            return None;
        }
        match &self.objects[obj].slot {
            Some(Payload::Window(w)) => Some(*w),
            _ => None,
        }
    }

    /// The value of property `name` of object `obj`, or absence if the object
    /// does not exist or has no such property.
    pub fn get_prop(&self, obj: usize, name: &String) -> (r: Option<PropValue>)
        ensures
            r == spec_get_prop(*self, obj as int, name@),
    {
        if obj >= self.objects.len() {
            return None;
        }
        self.objects[obj].props.get(name)
    }

    /// Sets property `name` of object `obj`. Every other object, and every
    /// other property of this object, keeps its value; so do the object's
    /// prototype link and internal slot.
    pub fn set_prop(&mut self, obj: usize, name: String, value: PropValue, attrs: PropAttributes)
        requires
            obj < old(self).objects@.len(),
        ensures
            final(self).objects@.len() == old(self).objects@.len(),
            spec_get_prop(*final(self), obj as int, name@) == Some(value),
            forall|other: Seq<char>|
                other != name@ ==> #[trigger] spec_get_prop(*final(self), obj as int, other)
                    == spec_get_prop(*old(self), obj as int, other),
            forall|o: int|
                0 <= o < old(self).objects@.len() && o != obj ==> final(self).objects@[o] == old(
                    self,
                ).objects@[o],
            final(self).objects@[obj as int].proto == old(self).objects@[obj as int].proto,
            final(self).objects@[obj as int].slot == old(self).objects@[obj as int].slot,
            old(self).wf() ==> final(self).wf(),
            forall|trees: Seq<NodeTree>|
                old(self).payloads_valid(trees) ==> final(self).payloads_valid(trees),
    {
        self.objects[obj].props.set(name, value, attrs);
    }

    /// Walks the prototype chain of `obj` and reports whether it passes
    /// through the object `target`: the `instanceof`-style check, with
    /// `target` a registered prototype object.
    pub fn instance_of(&self, obj: usize, target: usize) -> (r: bool)
        requires
            self.wf(),
        ensures
            r == chain_contains(self.objects@, obj as int, target as int),
    {
        if obj >= self.objects.len() {
            return false;
        }
        let mut cur: usize = obj;
        loop
            invariant
                self.wf(),
                cur < self.objects@.len(),
                chain_contains(self.objects@, cur as int, target as int) == chain_contains(
                    self.objects@,
                    obj as int,
                    target as int,
                ),
            decreases cur,
        {
            match self.objects[cur].proto {
                Some(p) => {
                    if p == target {
                        return true;
                    }
                    cur = p;
                },
                None => {
                    return false;
                },
            }
        }
    }
}

/// Recovering a payload right after it was stored gives back that very value,
/// observationally equal to the original (it carries the same tree handle),
/// and the two other downcasts answer with absence: the downcast gate inverts
/// reflection.
pub proof fn lemma_reflect_downcast_round_trip(heap: Heap, id: int, payload: Payload)
    requires
        0 <= id < heap.objects@.len(),
        heap.objects@[id].slot == Some(payload),
    ensures
        match payload {
            Payload::Node(n) => spec_downcast_node(heap, id) == Some(n) && spec_downcast_document(
                heap,
                id,
            ) is None && spec_downcast_window(heap, id) is None,
            Payload::Document(d) => spec_downcast_document(heap, id) == Some(d)
                && spec_downcast_node(heap, id) is None && spec_downcast_window(heap, id) is None,
            Payload::Window(w) => spec_downcast_window(heap, id) == Some(w) && spec_downcast_node(
                heap,
                id,
            ) is None && spec_downcast_document(heap, id) is None,
        },
{
}

/// An object with no native payload in its internal slot — a plain script
/// object — and a reference to no object at all both downcast to absence for
/// every payload type: the downcast fails safely instead of crashing.
pub proof fn lemma_downcast_no_payload_absent(heap: Heap, id: int)
    requires
        !(0 <= id < heap.objects@.len()) || heap.objects@[id].slot is None,
    ensures
        spec_downcast_node(heap, id) is None,
        spec_downcast_document(heap, id) is None,
        spec_downcast_window(heap, id) is None,
{
}

} // verus!
