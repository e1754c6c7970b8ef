//! The engine context: the explicit, verifiable state one scripting context
//! carries — its phase, its prototype registry, its object heap, its parsed
//! trees, and its global name table — together with the script-triggered
//! entry points that operate on it.

use vstd::prelude::*;

use crate::DomError;
use crate::document::Document;
use crate::heap::Heap;
use crate::heap::chain_contains;
use crate::heap::spec_downcast_document;
use crate::heap::spec_downcast_window;
use crate::heap::spec_get_prop;
use crate::node::Node;
use crate::payload::Payload;
use crate::registry::CtorBehavior;
use crate::registry::Registry;
use crate::registry::lemma_lookup_binding_in_range;
use crate::registry::lemma_lookup_binding_unique;
use crate::registry::lemma_prototype_chain_matches_bindings;
use crate::registry::spec_lookup_binding;
use crate::table::PropAttributes;
use crate::table::PropTable;
use crate::table::PropValue;
use crate::table::spec_lookup_value;
use crate::tree::NodeHandle;
use crate::tree::NodeTree;
use crate::window::Window;

verus! {

/// The lifecycle of one context. No transition is reversible; asking an
/// already-started context to initialize again is rejected.
#[derive(Debug, Clone, Copy, PartialEq, Eq, Structural)]
pub enum Phase {
    /// Nothing registered yet.
    Uninitialized,
    /// Type bindings exist; globals are not bound yet.
    TypesRegistered,
    /// The global object graph is wired.
    GlobalsBound,
    /// Initialization has returned; the context serves script calls.
    Ready,
}

/// One scripting context's explicit state.
pub struct DomContext {
    /// Where the context stands in its lifecycle.
    pub phase: Phase,
    /// The prototype registry.
    pub registry: Registry,
    /// The script-object heap.
    pub heap: Heap,
    /// The parsed trees this context owns.
    pub trees: Vec<NodeTree>,
    /// The global object's properties.
    pub globals: PropTable,
}

impl DomContext {
    /// Every tree the context owns is well-formed.
    pub open spec fn trees_wf(self) -> bool {
        forall|k: int| 0 <= k < self.trees@.len() ==> (#[trigger] self.trees@[k]).wf()
    }

    /// Well-formedness: heap and registry are consistent, trees are
    /// well-formed, every payload points into an existing tree, and an
    /// uninitialized context has an empty registry.
    pub open spec fn wf(self) -> bool {
        &&& self.heap.wf()
        &&& self.registry.wf(self.heap.objects@)
        &&& self.trees_wf()
        &&& self.heap.payloads_valid(self.trees@)
        &&& (self.phase is Uninitialized ==> self.registry.bindings@.len() == 0)
    }

    /// The three core types stand at the front of the registry in dependency
    /// order: `Node` first, then `Document` inheriting from it, then
    /// `Window`; only `Document` is constructible.
    pub open spec fn core_types_registered(self) -> bool {
        &&& self.registry.bindings@.len() >= 3
        &&& self.registry.bindings@[0].name@ == "Node"@
        &&& self.registry.bindings@[0].ctor is Illegal
        &&& self.registry.bindings@[0].supertype is None
        &&& self.registry.bindings@[1].name@ == "Document"@
        &&& self.registry.bindings@[1].ctor is DefaultDocument
        &&& self.registry.bindings@[1].supertype == Some(0usize)
        &&& self.registry.bindings@[2].name@ == "Window"@
        &&& self.registry.bindings@[2].ctor is Illegal
        &&& self.registry.bindings@[2].supertype is None
    }

    /// The context has finished initializing and serves script calls.
    pub open spec fn ready(self) -> bool {
        &&& self.wf()
        &&& self.phase is Ready
        &&& self.core_types_registered()
    }

    /// The shape the global binder leaves a context in, for a context that
    /// held `pre_trees` trees before binding: the context is ready; one new
    /// tree was parsed; the `window` global is a window instance owning the
    /// document over that tree's root; the window's `document` property and
    /// the `document` global name the document instance, reflected with the
    /// `Document` prototype; and the three constructor function objects stand
    /// on the global object under their class names.
    pub open spec fn bound_shape(self, pre_trees: int, w: usize) -> bool {
        &&& self.ready()
        &&& self.registry.bindings@.len() == 3
        &&& self.trees@.len() == pre_trees + 1
        &&& self.trees@[pre_trees].wf()
        &&& w < self.heap.objects@.len()
        &&& spec_downcast_window(self.heap, w as int) == Some(
            Window {
                document: Document {
                    node: Node { inner: NodeHandle { tree: pre_trees as usize, index: 0 } },
                },
            },
        )
        &&& self.heap.objects@[w as int].proto == Some(self.registry.bindings@[2].proto_obj)
        &&& spec_lookup_value(self.globals.slots@, "window"@) == Some(PropValue::Obj(w))
        &&& (spec_get_prop(self.heap, w as int, "document"@) matches Some(pv) && pv matches
            PropValue::Obj(d) && {
            &&& spec_downcast_document(self.heap, d as int) == Some(
                Document {
                    node: Node { inner: NodeHandle { tree: pre_trees as usize, index: 0 } },
                },
            )
            &&& self.heap.objects@[d as int].proto == Some(self.registry.bindings@[1].proto_obj)
            &&& spec_lookup_value(self.globals.slots@, "document"@) == Some(PropValue::Obj(d))
        })
        &&& spec_lookup_value(self.globals.slots@, "Node"@) == Some(
            PropValue::Obj(self.registry.bindings@[0].ctor_obj),
        )
        &&& spec_lookup_value(self.globals.slots@, "Document"@) == Some(
            PropValue::Obj(self.registry.bindings@[1].ctor_obj),
        )
        &&& spec_lookup_value(self.globals.slots@, "Window"@) == Some(
            PropValue::Obj(self.registry.bindings@[2].ctor_obj),
        )
    }

    /// A fresh, uninitialized context.
    pub fn new() -> (ctx: DomContext)
        ensures
            ctx.wf(),
            ctx.phase is Uninitialized,
            ctx.registry.bindings@.len() == 0,
            ctx.heap.objects@.len() == 0,
            ctx.trees@.len() == 0,
            ctx.globals.slots@.len() == 0,
    {
        DomContext {
            phase: Phase::Uninitialized,
            registry: Registry::new(),
            heap: Heap::new(),
            trees: Vec::new(),
            globals: PropTable::new(),
        }
    }

    /// Registers a type in this context: builds its constructor function
    /// object and prototype object, links the prototype to the supertype's
    /// when one is given, and records the binding.
    ///
    /// Fails, changing nothing, exactly when the name is already registered
    /// or the supertype index does not name an earlier binding.
    pub fn register(
        &mut self,
        name: String,
        ctor: CtorBehavior,
        attrs: PropAttributes,
        supertype: Option<usize>,
    ) -> (r: Result<usize, DomError>)
        requires
            old(self).wf(),
        ensures
            final(self).wf(),
            final(self).trees == old(self).trees,
            final(self).globals == old(self).globals,
            r is Err <==> (spec_lookup_binding(old(self).registry.bindings@, name@) is Some || (
            supertype matches Some(s) && s >= old(self).registry.bindings@.len())),
            r is Err ==> r == Err::<usize, DomError>(DomError::RegistrationOrder) && final(self).registry == old(self).registry && final(self).heap == old(self).heap && final(self).phase == old(self).phase,
            r matches Ok(idx) ==> {
                &&& idx == old(self).registry.bindings@.len()
                &&& final(self).registry.bindings@.len() == old(self).registry.bindings@.len() + 1
                &&& forall|k: int|
                    0 <= k < old(self).registry.bindings@.len() ==> final(self).registry.bindings@[k] == old(self).registry.bindings@[k]
                &&& final(self).registry.bindings@[idx as int].name == name
                &&& final(self).registry.bindings@[idx as int].ctor == ctor
                &&& final(self).registry.bindings@[idx as int].attrs == attrs
                &&& final(self).registry.bindings@[idx as int].supertype == supertype
                &&& final(self).registry.bindings@[idx as int].proto_obj == old(self).heap.objects@.len()
                &&& final(self).registry.bindings@[idx as int].ctor_obj == old(self).heap.objects@.len() + 1
                &&& final(self).heap.objects@.len() == old(self).heap.objects@.len() + 2
                &&& forall|o: int|
                    0 <= o < old(self).heap.objects@.len() ==> final(self).heap.objects@[o] == old(self).heap.objects@[o]
                &&& final(self).phase == (if old(self).phase is Uninitialized {
                    Phase::TypesRegistered
                } else {
                    old(self).phase
                })
            },
    {
        let r = self.registry.register(&mut self.heap, name, ctor, attrs, supertype);
        match r {
            Ok(idx) => {
                match self.phase {
                    Phase::Uninitialized => {
                        self.phase = Phase::TypesRegistered;
                    },
                    _ => {},
                }
                proof {
                    assert forall|o: int|
                        0 <= o < self.heap.objects@.len() implies (
                    #[trigger] self.heap.objects@[o].slot matches Some(p) ==> p.valid(
                        self.trees@,
                    )) by {
                        if o < old(self).heap.objects@.len() {
                            assert(old(self).heap.objects@[o].slot matches Some(p) ==> p.valid(
                                old(self).trees@,
                            ));
                        }
                    }
                }
                Ok(idx)
            },
            Err(e) => Err(e),
        }
    }

    /// The reflection step for an already-resolved type: allocates a new
    /// instance whose prototype is the binding's prototype object and whose
    /// internal slot owns `payload`.
    pub fn reflect_at(&mut self, t: usize, payload: Payload) -> (id: usize)
        requires
            old(self).wf(),
            t < old(self).registry.bindings@.len(),
            payload.valid(old(self).trees@),
        ensures
            final(self).wf(),
            final(self).registry == old(self).registry,
            final(self).trees == old(self).trees,
            final(self).globals == old(self).globals,
            final(self).phase == old(self).phase,
            id == old(self).heap.objects@.len(),
            final(self).heap.objects@.len() == old(self).heap.objects@.len() + 1,
            final(self).heap.objects@[id as int].proto == Some(
                old(self).registry.bindings@[t as int].proto_obj,
            ),
            final(self).heap.objects@[id as int].slot == Some(payload),
            final(self).heap.objects@[id as int].props.slots@.len() == 0,
            forall|o: int|
                0 <= o < old(self).heap.objects@.len() ==> final(self).heap.objects@[o] == old(self).heap.objects@[o],
    {
        proof {
            assert(self.registry.binding_ok(self.heap.objects@, t as int));
        }
        let proto = self.registry.bindings[t].proto_obj;
        let id = self.heap.allocate(Some(proto), Some(payload));
        proof {
            assert forall|i: int|
                0 <= i < self.registry.bindings@.len() implies self.registry.binding_ok(
                self.heap.objects@,
                i,
            ) by {
                assert(old(self).registry.binding_ok(old(self).heap.objects@, i));
            }
            assert forall|o: int|
                0 <= o < self.heap.objects@.len() implies (
            #[trigger] self.heap.objects@[o].slot matches Some(p) ==> p.valid(self.trees@)) by {
                if o < old(self).heap.objects@.len() {
                    assert(old(self).heap.objects@[o].slot matches Some(p) ==> p.valid(
                        old(self).trees@,
                    ));
                }
            }
        }
        id
    }

    /// The object reflector: looks the type's prototype up in the registry
    /// and allocates a new instance whose internal slot owns `payload`.
    ///
    /// An unregistered name is an internal-consistency defect; it is reported
    /// as an error, never a crash.
    pub fn reflect(&mut self, name: &String, payload: Payload) -> (r: Result<usize, DomError>)
        requires
            old(self).wf(),
            payload.valid(old(self).trees@),
        ensures
            final(self).wf(),
            final(self).registry == old(self).registry,
            final(self).trees == old(self).trees,
            final(self).globals == old(self).globals,
            final(self).phase == old(self).phase,
            spec_lookup_binding(old(self).registry.bindings@, name@) is None ==> r == Err::<
                usize,
                DomError,
            >(DomError::UnknownType) && final(self).heap == old(self).heap,
            spec_lookup_binding(old(self).registry.bindings@, name@) matches Some(t) ==> {
                &&& r == Ok::<usize, DomError>(old(self).heap.objects@.len() as usize)
                &&& final(self).heap.objects@.len() == old(self).heap.objects@.len() + 1
                &&& final(self).heap.objects@[old(self).heap.objects@.len() as int].proto == Some(
                    old(self).registry.bindings@[t].proto_obj,
                )
                &&& final(self).heap.objects@[old(self).heap.objects@.len() as int].slot == Some(
                    payload,
                )
                &&& final(self).heap.objects@[old(self).heap.objects@.len() as int].props.slots@.len()
                    == 0
                &&& forall|o: int|
                    0 <= o < old(self).heap.objects@.len() ==> final(self).heap.objects@[o] == old(self).heap.objects@[o]
            },
    {
        let t = match self.registry.lookup(name) {
            Some(t) => t,
            None => {
                return Err(DomError::UnknownType);
            },
        };
        proof {
            lemma_lookup_binding_in_range(self.registry.bindings@, name@);
            vstd::std_specs::vec::axiom_spec_len(&self.registry.bindings);
        }
        Ok(self.reflect_at(t, payload))
    }

    /// The script-invoked constructor entry: resolves `name` in the registry
    /// and runs the constructor behavior the binding was registered with.
    ///
    /// A non-constructible class raises the illegal-constructor error and
    /// changes nothing; the default-document constructor parses the default
    /// markup into a fresh tree and reflects a document instance over its
    /// root, and always succeeds.
    pub fn construct(&mut self, name: &String) -> (r: Result<usize, DomError>)
        requires
            old(self).wf(),
        ensures
            final(self).wf(),
            final(self).registry == old(self).registry,
            final(self).globals == old(self).globals,
            final(self).phase == old(self).phase,
            spec_lookup_binding(old(self).registry.bindings@, name@) is None ==> r == Err::<
                usize,
                DomError,
            >(DomError::UnknownType) && final(self).heap == old(self).heap && final(self).trees
                == old(self).trees,
            spec_lookup_binding(old(self).registry.bindings@, name@) matches Some(t) ==> match old(
                self,
            ).registry.bindings@[t].ctor {
                CtorBehavior::Illegal => r == Err::<usize, DomError>(DomError::IllegalConstructor)
                    && final(self).heap == old(self).heap && final(self).trees == old(self).trees,
                CtorBehavior::Plain => {
                    &&& r == Ok::<usize, DomError>(old(self).heap.objects@.len() as usize)
                    &&& final(self).trees == old(self).trees
                    &&& final(self).heap.objects@.len() == old(self).heap.objects@.len() + 1
                    &&& final(self).heap.objects@[old(self).heap.objects@.len() as int].proto
                        == Some(old(self).registry.bindings@[t].proto_obj)
                    &&& final(self).heap.objects@[old(self).heap.objects@.len() as int].slot
                        is None
                    &&& final(self).heap.objects@[old(self).heap.objects@.len() as int].props.slots@.len()
                        == 0
                    &&& forall|o: int|
                        0 <= o < old(self).heap.objects@.len() ==> final(self).heap.objects@[o]
                            == old(self).heap.objects@[o]
                },
                CtorBehavior::DefaultDocument => {
                    &&& r == Ok::<usize, DomError>(old(self).heap.objects@.len() as usize)
                    &&& final(self).trees@.len() == old(self).trees@.len() + 1
                    &&& forall|k: int|
                        0 <= k < old(self).trees@.len() ==> final(self).trees@[k] == old(
                            self,
                        ).trees@[k]
                    &&& final(self).trees@[old(self).trees@.len() as int].wf()
                    &&& crate::tree::table_view(
                        final(self).trees@[old(self).trees@.len() as int].parents@,
                    ) == crate::tree::parse_parents(crate::document::DEFAULT_MARKUP@).take(
                        final(self).trees@[old(self).trees@.len() as int].parents@.len() as int,
                    )
                    &&& final(self).heap.objects@.len() == old(self).heap.objects@.len() + 1
                    &&& final(self).heap.objects@[old(self).heap.objects@.len() as int].proto
                        == Some(old(self).registry.bindings@[t].proto_obj)
                    &&& final(self).heap.objects@[old(self).heap.objects@.len() as int].slot
                        == Some(
                        Payload::Document(
                            Document {
                                node: Node {
                                    inner: NodeHandle {
                                        tree: old(self).trees@.len() as usize,
                                        index: 0,
                                    },
                                },
                            },
                        ),
                    )
                    &&& final(self).heap.objects@[old(self).heap.objects@.len() as int].props.slots@.len()
                        == 0
                    &&& forall|o: int|
                        0 <= o < old(self).heap.objects@.len() ==> final(self).heap.objects@[o]
                            == old(self).heap.objects@[o]
                },
            },
    {
        let t = match self.registry.lookup(name) {
            Some(t) => t,
            None => {
                return Err(DomError::UnknownType);
            },
        };
        proof {
            lemma_lookup_binding_in_range(self.registry.bindings@, name@);
            vstd::std_specs::vec::axiom_spec_len(&self.registry.bindings);
            assert(self.registry.binding_ok(self.heap.objects@, t as int));
        }
        let ctor = self.registry.bindings[t].ctor;
        match ctor {
            CtorBehavior::Illegal => Err(DomError::IllegalConstructor),
            CtorBehavior::Plain => {
                let proto = self.registry.bindings[t].proto_obj;
                let id = self.heap.allocate(Some(proto), None);
                proof {
                    assert forall|i: int|
                        0 <= i < self.registry.bindings@.len() implies self.registry.binding_ok(
                        self.heap.objects@,
                        i,
                    ) by {
                        assert(old(self).registry.binding_ok(old(self).heap.objects@, i));
                    }
                    assert forall|o: int|
                        0 <= o < self.heap.objects@.len() implies (
                    #[trigger] self.heap.objects@[o].slot matches Some(p) ==> p.valid(
                        self.trees@,
                    )) by {
                        if o < old(self).heap.objects@.len() {
                            assert(old(self).heap.objects@[o].slot matches Some(p) ==> p.valid(
                                old(self).trees@,
                            ));
                        }
                    }
                }
                Ok(id)
            },
            CtorBehavior::DefaultDocument => {
                let d = Document::constructor(&mut self.trees);
                let proto = self.registry.bindings[t].proto_obj;
                let id = self.heap.allocate(Some(proto), Some(Payload::Document(d)));
                proof {
                    assert forall|i: int|
                        0 <= i < self.registry.bindings@.len() implies self.registry.binding_ok(
                        self.heap.objects@,
                        i,
                    ) by {
                        assert(old(self).registry.binding_ok(old(self).heap.objects@, i));
                    }
                    assert forall|k: int|
                        0 <= k < self.trees@.len() implies (#[trigger] self.trees@[k]).wf() by {
                        if k < old(self).trees@.len() {
                            assert(old(self).trees@[k].wf());
                        }
                    }
                    assert forall|o: int|
                        0 <= o < self.heap.objects@.len() implies (
                    #[trigger] self.heap.objects@[o].slot matches Some(p) ==> p.valid(
                        self.trees@,
                    )) by {
                        if o < old(self).heap.objects@.len() {
                            assert(old(self).heap.objects@[o].slot matches Some(q) ==> q.valid(
                                old(self).trees@,
                            ));
                        }
                    }
                }
                Ok(id)
            },
        }
    }

    /// The native method behind `getRootNode()`: recovers the node backing
    /// `this` through the downcast gate, walks its ancestor chain, and
    /// returns the topmost ancestor reflected as a new `Node` instance. A
    /// node that is already the root of its tree is its own topmost ancestor:
    /// the method then returns a fresh `Node` instance carrying that same
    /// handle, so applying the method again gives the same node.
    ///
    /// A script can call this method with an arbitrary `this`: when no node
    /// stands behind it (no payload, or a window payload), the call
    /// reports a type mismatch and changes nothing.
    pub fn get_root_node(&mut self, this: usize) -> (r: Result<PropValue, DomError>)
        requires
            old(self).ready(),
        ensures
            final(self).ready(),
            final(self).registry == old(self).registry,
            final(self).trees == old(self).trees,
            final(self).globals == old(self).globals,
            final(self).phase == old(self).phase,
            spec_gate_node_handle(old(self).heap, this as int) is None ==> r == Err::<
                PropValue,
                DomError,
            >(DomError::TypeMismatch) && final(self).heap == old(self).heap,
            spec_gate_node_handle(old(self).heap, this as int) matches Some(h) ==> {
                let tr = old(self).trees@[h.tree as int];
                &&& r == Ok::<PropValue, DomError>(
                    PropValue::Obj(old(self).heap.objects@.len() as usize),
                )
                &&& final(self).heap.objects@.len() == old(self).heap.objects@.len() + 1
                &&& final(self).heap.objects@[old(self).heap.objects@.len() as int].slot == Some(
                    Payload::Node(
                        Node {
                            inner: NodeHandle {
                                tree: h.tree,
                                index: tr.spec_root(h.index as int) as usize,
                            },
                        },
                    ),
                )
                &&& (tr.parents@[h.index as int] is None ==> final(self).heap.objects@[old(
                    self,
                ).heap.objects@.len() as int].slot == Some(Payload::Node(Node { inner: h })))
                &&& final(self).heap.objects@[old(self).heap.objects@.len() as int].proto == Some(
                    old(self).registry.bindings@[0].proto_obj,
                )
                &&& final(self).heap.objects@[old(self).heap.objects@.len() as int].props.slots@.len()
                    == 0
                &&& forall|o: int|
                    0 <= o < old(self).heap.objects@.len() ==> final(self).heap.objects@[o] == old(
                        self,
                    ).heap.objects@[o]
            },
    {
        let h: NodeHandle = match self.heap.downcast_node(this) {
            Some(n) => n.inner,
            None => match self.heap.downcast_document(this) {
                Some(d) => d.node.inner,
                None => {
                    return Err(DomError::TypeMismatch);
                },
            },
        };
        proof {
            assert(self.heap.objects@[this as int].slot matches Some(p) ==> p.valid(self.trees@));
        }
        let tr = &self.trees[h.tree];
        let root = tr.root_of(h.index);
        proof {
            assert(self.registry.binding_ok(self.heap.objects@, 0));
        }
        let proto0 = self.registry.bindings[0].proto_obj;
        let id = self.heap.allocate(
            Some(proto0),
            Some(Payload::Node(Node::new(NodeHandle { tree: h.tree, index: root }))),
        );
        proof {
            assert forall|i: int|
                0 <= i < self.registry.bindings@.len() implies self.registry.binding_ok(
                self.heap.objects@,
                i,
            ) by {
                assert(old(self).registry.binding_ok(old(self).heap.objects@, i));
            }
            assert forall|o: int|
                0 <= o < self.heap.objects@.len() implies (
            #[trigger] self.heap.objects@[o].slot matches Some(p) ==> p.valid(self.trees@)) by {
                if o < old(self).heap.objects@.len() {
                    assert(old(self).heap.objects@[o].slot matches Some(q) ==> q.valid(
                        old(self).trees@,
                    ));
                }
            }
        }
        Ok(PropValue::Obj(id))
    }

    /// The value of the global property `name`, if bound.
    pub fn get_global(&self, name: &String) -> (r: Option<PropValue>)
        ensures
            r == spec_lookup_value(self.globals.slots@, name@),
    {
        self.globals.get(name)
    }

    /// Binds the global property `name` to `value` with the given attribute
    /// flags. Every other global keeps its value; nothing else in the context
    /// changes.
    pub fn register_global_property(
        &mut self,
        name: String,
        value: PropValue,
        attrs: PropAttributes,
    )
        requires
            old(self).wf(),
        ensures
            final(self).wf(),
            final(self).registry == old(self).registry,
            final(self).heap == old(self).heap,
            final(self).trees == old(self).trees,
            final(self).phase == old(self).phase,
            spec_lookup_value(final(self).globals.slots@, name@) == Some(value),
            forall|other: Seq<char>|
                other != name@ ==> #[trigger] spec_lookup_value(final(self).globals.slots@, other)
                    == spec_lookup_value(old(self).globals.slots@, other),
    {
        self.globals.set(name, value, attrs);
    }
}

/// The global binder: drives a fresh context through its whole lifecycle.
///
/// It registers the type bindings in dependency order — `Node` (not
/// constructible), `Document` inheriting from `Node`, `Window` (not
/// constructible) — parses the default document tree, builds the singleton
/// window payload owning the document payload over that tree's root, reflects
/// the window, registers it as the `window` global, and wires the document
/// instance and the constructor functions into the global object. Returns the
/// window instance.
///
/// A context that has left the uninitialized phase is rejected with the
/// already-initialized error and is not changed: no transition of the
/// lifecycle is reversible.
#[verifier::rlimit(60)]
pub fn init(ctx: &mut DomContext) -> (r: Result<usize, DomError>)
    requires
        old(ctx).wf(),
    ensures
        final(ctx).wf(),
        !(old(ctx).phase is Uninitialized) ==> r == Err::<usize, DomError>(
            DomError::AlreadyInitialized,
        ) && *final(ctx) == *old(ctx),
        old(ctx).phase is Uninitialized ==> (r matches Ok(w) && final(ctx).bound_shape(
            old(ctx).trees@.len() as int,
            w,
        )),
{
    match ctx.phase {
        Phase::Uninitialized => {},
        _ => {
            return Err(DomError::AlreadyInitialized);
        },
    }
    proof {
        reveal_strlit("Node");
        reveal_strlit("Document");
        reveal_strlit("Window");
        reveal_strlit("window");
        reveal_strlit("document");
        assert("Node"@.len() == 4);
        assert("Window"@.len() == 6);
        assert("window"@.len() == 6);
        assert("Document"@.len() == 8);
        assert("document"@.len() == 8);
        assert("Window"@[0] == 'W');
        assert("window"@[0] == 'w');
        assert(spec_lookup_binding(ctx.registry.bindings@, "Node"@) is None);
    }
    let attrs = PropAttributes::builtin();
    let rn = ctx.register("Node".to_owned(), CtorBehavior::Illegal, attrs, None);
    match rn {
        Ok(_) => {},
        Err(e) => {
            return Err(e);
        },
    }
    proof {
        let s1 = ctx.registry.bindings@;
        assert(s1.drop_last().len() == 0);
        assert(spec_lookup_binding(s1.drop_last(), "Document"@) is None);
        assert(spec_lookup_binding(s1, "Document"@) is None);
    }
    let rd = ctx.register("Document".to_owned(), CtorBehavior::DefaultDocument, attrs, Some(0));
    match rd {
        Ok(_) => {},
        Err(e) => {
            return Err(e);
        },
    }
    proof {
        let s2 = ctx.registry.bindings@;
        assert(s2.drop_last()[0] == s2[0]);
        assert(s2.drop_last().drop_last().len() == 0);
        assert(spec_lookup_binding(s2.drop_last().drop_last(), "Window"@) is None);
        assert(spec_lookup_binding(s2.drop_last(), "Window"@) is None);
        assert(spec_lookup_binding(s2, "Window"@) is None);
    }
    let rw = ctx.register("Window".to_owned(), CtorBehavior::Illegal, attrs, None);
    match rw {
        Ok(_) => {},
        Err(e) => {
            return Err(e);
        },
    }
    let dpay = Document::constructor(&mut ctx.trees);
    proof {
        assert forall|k: int| 0 <= k < ctx.trees@.len() implies (#[trigger] ctx.trees@[k]).wf() by {
            if k < old(ctx).trees@.len() {
                assert(old(ctx).trees@[k].wf());
            }
        }
        assert forall|o: int|
            0 <= o < ctx.heap.objects@.len() implies (
        #[trigger] ctx.heap.objects@[o].slot matches Some(p) ==> p.valid(ctx.trees@)) by {}
    }
    let win = Window::new(dpay);
    let w = ctx.reflect_at(2, Payload::Window(win));
    ctx.register_global_property(
        "window".to_owned(),
        PropValue::Obj(w),
        PropAttributes::writable_only(),
    );
    let d = win.init_global(ctx, w);
    ctx.phase = Phase::Ready;
    proof {
        assert(spec_downcast_window(ctx.heap, w as int) == Some(win));
        assert(spec_get_prop(ctx.heap, w as int, "document"@) == Some(PropValue::Obj(d)));
        assert(spec_downcast_document(ctx.heap, d as int) == Some(dpay));
    }
    Ok(w)
}

/// The node handle the downcast gate recovers behind an object for ancestor
/// navigation: the node itself for a node payload, the backing root node for
/// a document payload, and nothing for a window payload, a payload-free
/// object, or a reference to no object.
pub open spec fn spec_gate_node_handle(heap: Heap, o: int) -> Option<NodeHandle> {
    if 0 <= o < heap.objects@.len() {
        match heap.objects@[o].slot {
            Some(Payload::Node(n)) => Some(n.inner),
            Some(Payload::Document(d)) => Some(d.node.inner),
            _ => None,
        }
    } else {
        None
    }
}

/// In a context whose core types are registered, the three class names
/// resolve to their bindings: `Node` and `Window` are bound to the
/// illegal constructor, so constructing them always raises the
/// illegal-constructor error, while `Document` is bound to the
/// default-document constructor, which always succeeds.
pub proof fn lemma_constructor_policy(ctx: DomContext)
    requires
        ctx.wf(),
        ctx.core_types_registered(),
    ensures
        spec_lookup_binding(ctx.registry.bindings@, "Node"@) == Some(0int),
        spec_lookup_binding(ctx.registry.bindings@, "Document"@) == Some(1int),
        spec_lookup_binding(ctx.registry.bindings@, "Window"@) == Some(2int),
        ctx.registry.bindings@[0].ctor is Illegal,
        ctx.registry.bindings@[1].ctor is DefaultDocument,
        ctx.registry.bindings@[2].ctor is Illegal,
{
    lemma_lookup_binding_unique(ctx.registry.bindings@, "Node"@, 0);
    lemma_lookup_binding_unique(ctx.registry.bindings@, "Document"@, 1);
    lemma_lookup_binding_unique(ctx.registry.bindings@, "Window"@, 2);
}

/// Every instance reflected with the `Document` prototype passes the
/// `instanceof`-style check for both `Document` and its declared supertype
/// `Node`: the script-visible chain mirrors the native type relationship.
pub proof fn lemma_document_instance_of_node(ctx: DomContext, obj: int)
    requires
        ctx.wf(),
        ctx.core_types_registered(),
        0 <= obj < ctx.heap.objects@.len(),
        ctx.heap.objects@[obj].proto == Some(ctx.registry.bindings@[1].proto_obj),
    ensures
        chain_contains(ctx.heap.objects@, obj, ctx.registry.bindings@[0].proto_obj as int),
        chain_contains(ctx.heap.objects@, obj, ctx.registry.bindings@[1].proto_obj as int),
{
    assert(crate::registry::in_super_chain(ctx.registry.bindings@, 0, 0));
    assert(crate::registry::in_super_chain(ctx.registry.bindings@, 1, 0));
    assert(crate::registry::in_super_chain(ctx.registry.bindings@, 1, 1));
    lemma_prototype_chain_matches_bindings(ctx.registry, ctx.heap, obj, 1, 0);
    lemma_prototype_chain_matches_bindings(ctx.registry, ctx.heap, obj, 1, 1);
}

} // verus!
