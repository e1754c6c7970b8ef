//! The `Window` native payload: the singleton root of the script-visible
//! global object graph, owning exactly one document.

use vstd::prelude::*;

use crate::DomError;
use crate::context::DomContext;
use crate::context::Phase;
use crate::document::Document;
use crate::heap::spec_get_prop;
use crate::payload::Payload;
use crate::table::PropAttributes;
use crate::table::PropValue;
use crate::table::spec_lookup_value;
use crate::tree::NodeTree;

verus! {

/// A native window value, the payload behind the script-visible `window`
/// singleton. Created once while a context binds its globals; not
/// constructible from script.
#[derive(Debug, Clone, Copy, PartialEq, Eq, Structural)]
pub struct Window {
    /// The one document this window owns.
    pub document: Document,
}

impl Window {
    /// The payload's handle points into an existing, well-formed tree.
    pub open spec fn valid(self, trees: Seq<NodeTree>) -> bool {
        self.document.valid(trees)
    }

    /// Wraps a document as a `Window` payload.
    pub fn new(document: Document) -> (w: Window)
        ensures
            w.document == document,
    {
        Window { document }
    }

    /// The script-invoked constructor of the `Window` class. The class is not
    /// constructible: calling it always raises the illegal-constructor error
    /// and never produces a value.
    pub fn constructor() -> (r: Result<Window, DomError>)
        ensures
            r == Err::<Window, DomError>(DomError::IllegalConstructor),
    {
        Err(DomError::IllegalConstructor)
    }

    /// The document this window owns.
    pub fn document(&self) -> (d: &Document)
        ensures
            d == &self.document,
    {
        &self.document
    }

    /// Wires the global object graph of a context whose core types are
    /// registered and whose `window` instance is already reflected at
    /// `window_obj`: reflects this window's document as the `document`
    /// instance, hangs it onto the window object as its `document` property
    /// and onto the global object, registers the three constructor functions
    /// as globals under their class names, and moves the context to the
    /// globals-bound phase. Returns the document instance.
    #[verifier::rlimit(60)]
    pub fn init_global(&self, ctx: &mut DomContext, window_obj: usize) -> (d: usize)
        requires
            old(ctx).wf(),
            old(ctx).core_types_registered(),
            self.valid(old(ctx).trees@),
            window_obj < old(ctx).heap.objects@.len(),
            old(ctx).heap.objects@[window_obj as int].slot == Some(Payload::Window(*self)),
        ensures
            final(ctx).wf(),
            final(ctx).core_types_registered(),
            final(ctx).phase is GlobalsBound,
            final(ctx).registry == old(ctx).registry,
            final(ctx).trees == old(ctx).trees,
            d == old(ctx).heap.objects@.len(),
            final(ctx).heap.objects@.len() == old(ctx).heap.objects@.len() + 1,
            final(ctx).heap.objects@[d as int].slot == Some(Payload::Document(self.document)),
            final(ctx).heap.objects@[d as int].proto == Some(
                old(ctx).registry.bindings@[1].proto_obj,
            ),
            final(ctx).heap.objects@[window_obj as int].slot == old(ctx).heap.objects@[window_obj as int].slot,
            final(ctx).heap.objects@[window_obj as int].proto == old(ctx).heap.objects@[window_obj as int].proto,
            forall|o: int|
                0 <= o < old(ctx).heap.objects@.len() && o != window_obj ==> final(ctx).heap.objects@[o] == old(ctx).heap.objects@[o],
            spec_get_prop(final(ctx).heap, window_obj as int, "document"@) == Some(
                PropValue::Obj(d),
            ),
            spec_lookup_value(final(ctx).globals.slots@, "document"@) == Some(PropValue::Obj(d)),
            spec_lookup_value(final(ctx).globals.slots@, "Node"@) == Some(
                PropValue::Obj(old(ctx).registry.bindings@[0].ctor_obj),
            ),
            spec_lookup_value(final(ctx).globals.slots@, "Document"@) == Some(
                PropValue::Obj(old(ctx).registry.bindings@[1].ctor_obj),
            ),
            spec_lookup_value(final(ctx).globals.slots@, "Window"@) == Some(
                PropValue::Obj(old(ctx).registry.bindings@[2].ctor_obj),
            ),
            forall|other: Seq<char>|
                other != "document"@ && other != "Node"@ && other != "Document"@ && other
                    != "Window"@ ==> #[trigger] spec_lookup_value(final(ctx).globals.slots@, other)
                    == spec_lookup_value(old(ctx).globals.slots@, other),
    {
        proof {
            reveal_strlit("Node");
            reveal_strlit("Document");
            reveal_strlit("Window");
            reveal_strlit("document");
        }
        let d = ctx.reflect_at(1, Payload::Document(self.document));
        ctx.heap.set_prop(
            window_obj,
            "document".to_owned(),
            PropValue::Obj(d),
            PropAttributes::writable_only(),
        );
        proof {
            assert forall|i: int|
                0 <= i < ctx.registry.bindings@.len() implies ctx.registry.binding_ok(
                ctx.heap.objects@,
                i,
            ) by {
                assert(old(ctx).registry.binding_ok(old(ctx).heap.objects@, i));
            }
            assert forall|o: int|
                0 <= o < ctx.heap.objects@.len() implies (
            #[trigger] ctx.heap.objects@[o].slot matches Some(p) ==> p.valid(ctx.trees@)) by {
                if o < old(ctx).heap.objects@.len() {
                    assert(old(ctx).heap.objects@[o].slot matches Some(q) ==> q.valid(
                        old(ctx).trees@,
                    ));
                }
            }
        }
        let node_attrs = ctx.registry.bindings[0].attrs;
        let node_ctor = ctx.registry.bindings[0].ctor_obj;
        ctx.register_global_property("Node".to_owned(), PropValue::Obj(node_ctor), node_attrs);
        let document_attrs = ctx.registry.bindings[1].attrs;
        let document_ctor = ctx.registry.bindings[1].ctor_obj;
        ctx.register_global_property(
            "Document".to_owned(),
            PropValue::Obj(document_ctor),
            document_attrs,
        );
        let window_attrs = ctx.registry.bindings[2].attrs;
        let window_ctor = ctx.registry.bindings[2].ctor_obj;
        ctx.register_global_property(
            "Window".to_owned(),
            PropValue::Obj(window_ctor),
            window_attrs,
        );
        ctx.register_global_property(
            "document".to_owned(),
            PropValue::Obj(d),
            PropAttributes::writable_only(),
        );
        ctx.phase = Phase::GlobalsBound;
        proof {
            reveal_strlit("Node");
            reveal_strlit("Document");
            reveal_strlit("Window");
            reveal_strlit("document");
            assert("Node"@.len() == 4);
            assert("Window"@.len() == 6);
            assert("Document"@.len() == 8);
            assert("document"@.len() == 8);
            assert("Document"@[0] == 'D');
            assert("document"@[0] == 'd');
        }
        d
    }
}

} // verus!
