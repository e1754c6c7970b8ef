//! Tests of the reflection layer: context initialization, the global object
//! graph, constructor dispatch, the downcast gate, and root navigation.

use dom_reflect::context::DomContext;
use dom_reflect::document::Document;
use dom_reflect::init;
use dom_reflect::node::Node;
use dom_reflect::payload::Payload;
use dom_reflect::table::PropAttributes;
use dom_reflect::table::PropValue;
use dom_reflect::tree::NodeHandle;
use dom_reflect::tree::NodeTree;
use dom_reflect::window::Window;
use dom_reflect::DomError;

#[test]
fn dom_reflection() {
    // Create a document over a parsed tree, wrap it in a window, and wire the
    // context's global object graph.
    let html = r"
            <DOCTYPE html>
            <html>
            <head></head>
            <body>
                <h1>Example</h1>
                <p class='foo'>Hello, world!</p>
                <p class='foo'>I love HTML</p>
            </body>
            </html>
        ";
    let mut ctx = DomContext::new();
    let tree = NodeTree::from_markup(html);
    assert!(tree.len() > 1);
    ctx.trees.push(tree);
    let document = Document::new(NodeHandle { tree: 0, index: 0 });
    let window = Window::new(document);
    let w = init(&mut ctx).unwrap();
    assert_eq!(window.document().as_node().inner, document.node.inner);

    // Run the equivalent of `let x = new Document(); x.bb`.
    let x = ctx.construct(&"Document".to_owned()).unwrap();
    assert_eq!(ctx.heap.get_prop(x, &"bb".to_owned()), None);
    ctx.heap.set_prop(
        x,
        "bb".to_owned(),
        PropValue::Int(10),
        PropAttributes::writable_only(),
    );
    assert_eq!(
        ctx.heap.get_prop(x, &"bb".to_owned()),
        Some(PropValue::Int(10))
    );
    assert!(w < ctx.heap.len());
}

#[test]
fn dom_document() {
    let mut ctx = DomContext::new();
    init(&mut ctx).unwrap();
    // Evaluate the equivalent of `window`, then `window.document`.
    let w = match ctx.get_global(&"window".to_owned()) {
        Some(PropValue::Obj(w)) => w,
        other => panic!("window global is not an object: {:?}", other),
    };
    let window = ctx.heap.downcast_window(w).unwrap();
    let d = match ctx.heap.get_prop(w, &"document".to_owned()) {
        Some(PropValue::Obj(d)) => d,
        other => panic!("window.document is not an object: {:?}", other),
    };
    let document = ctx.heap.downcast_document(d).unwrap();
    assert_eq!(window.document().node.inner, document.node.inner);
}

#[test]
fn new_node_and_window_throw_illegal_constructor() {
    let mut ctx = DomContext::new();
    init(&mut ctx).unwrap();
    let before = ctx.heap.len();
    // `new Node()` reports a thrown type error and returns no value.
    let r = ctx.construct(&"Node".to_owned());
    assert_eq!(r, Err(DomError::IllegalConstructor));
    assert_eq!(ctx.heap.len(), before, "no instance may be created");
    let r = ctx.construct(&"Window".to_owned());
    assert_eq!(r, Err(DomError::IllegalConstructor));
    assert_eq!(ctx.heap.len(), before);
    assert_eq!(
        DomError::IllegalConstructor.message(),
        "Illegal constructor"
    );
    // The payload-level constructors state the same policy.
    assert_eq!(Node::constructor(), Err(DomError::IllegalConstructor));
    assert_eq!(Window::constructor(), Err(DomError::IllegalConstructor));
}

#[test]
fn new_document_succeeds_and_downcasts() {
    let mut ctx = DomContext::new();
    init(&mut ctx).unwrap();
    let trees_before = ctx.trees.len();
    let x = ctx.construct(&"Document".to_owned()).unwrap();
    let doc = ctx.heap.downcast_document(x).unwrap();
    assert_eq!(
        doc.node.inner,
        NodeHandle { tree: trees_before, index: 0 }
    );
    // A fresh tree was parsed for the constructed document.
    assert_eq!(ctx.trees.len(), trees_before + 1);
}

#[test]
fn construct_unknown_type_is_reported() {
    let mut ctx = DomContext::new();
    init(&mut ctx).unwrap();
    let r = ctx.construct(&"Element".to_owned());
    assert_eq!(r, Err(DomError::UnknownType));
}

#[test]
fn reinitialization_is_rejected() {
    let mut ctx = DomContext::new();
    init(&mut ctx).unwrap();
    let r = init(&mut ctx);
    assert_eq!(r, Err(DomError::AlreadyInitialized));
    assert_eq!(
        DomError::AlreadyInitialized.message(),
        "context is already initialized"
    );
}

#[test]
fn downcast_without_payload_is_absent() {
    let mut ctx = DomContext::new();
    init(&mut ctx).unwrap();
    // A plain script object: allocated with no native payload.
    let plain = ctx.heap.allocate(None, None);
    assert_eq!(ctx.heap.downcast_node(plain), None);
    assert_eq!(ctx.heap.downcast_document(plain), None);
    assert_eq!(ctx.heap.downcast_window(plain), None);
    // A reference to no object at all is also absent, never a crash.
    let out_of_range = ctx.heap.len() + 17;
    assert_eq!(ctx.heap.downcast_node(out_of_range), None);
    assert_eq!(ctx.heap.downcast_document(out_of_range), None);
    assert_eq!(ctx.heap.downcast_window(out_of_range), None);
}

#[test]
fn downcast_wrong_type_is_absent() {
    let mut ctx = DomContext::new();
    let w = init(&mut ctx).unwrap();
    // The window instance holds a window payload, not a node or document.
    assert_eq!(ctx.heap.downcast_node(w), None);
    assert_eq!(ctx.heap.downcast_document(w), None);
    assert!(ctx.heap.downcast_window(w).is_some());
}

#[test]
fn reflect_then_downcast_round_trip() {
    let mut ctx = DomContext::new();
    init(&mut ctx).unwrap();
    // Pick a real node of the default document's tree and reflect it.
    let payload = Node::new(NodeHandle { tree: 0, index: 0 });
    let id = ctx
        .reflect(&"Node".to_owned(), Payload::Node(payload))
        .unwrap();
    // Downcasting right after reflection returns a value observationally
    // equal to the original payload: the same underlying handle.
    let back = ctx.heap.downcast_node(id).unwrap();
    assert_eq!(back.inner, payload.inner);
    assert_eq!(ctx.heap.downcast_document(id), None);
    assert_eq!(ctx.heap.downcast_window(id), None);
    // Reflecting under an unregistered name is a reported error.
    let r = ctx.reflect(&"Element".to_owned(), Payload::Node(payload));
    assert_eq!(r, Err(DomError::UnknownType));
}

#[test]
fn evaluate_window_document_scenario() {
    // initialize context -> `window.document` downcasts to Document ->
    // `window.document.getRootNode()` downcasts to a Node whose handle equals
    // the parsed tree's root handle.
    let mut ctx = DomContext::new();
    init(&mut ctx).unwrap();
    let w = match ctx.get_global(&"window".to_owned()).unwrap() {
        PropValue::Obj(w) => w,
        other => panic!("window is not an object: {:?}", other),
    };
    let d = match ctx.heap.get_prop(w, &"document".to_owned()).unwrap() {
        PropValue::Obj(d) => d,
        other => panic!("window.document is not an object: {:?}", other),
    };
    let doc = ctx.heap.downcast_document(d).unwrap();
    assert_eq!(doc.node.inner, NodeHandle { tree: 0, index: 0 });
    let doc_root = match ctx.get_root_node(d).unwrap() {
        PropValue::Obj(o) => o,
        other => panic!("getRootNode returned no object: {:?}", other),
    };
    let doc_root_node = ctx.heap.downcast_node(doc_root).unwrap();
    assert_eq!(doc_root_node.inner, NodeHandle { tree: 0, index: 0 });

    // For a non-root node of the same tree, getRootNode returns a Node
    // instance whose handle equals the parsed tree's root handle.
    let leaf = ctx.trees[0].len() - 1;
    assert!(leaf > 0, "default document has more than its root node");
    let node_inst = ctx
        .reflect(
            &"Node".to_owned(),
            Payload::Node(Node::new(NodeHandle { tree: 0, index: leaf })),
        )
        .unwrap();
    let root_inst = match ctx.get_root_node(node_inst).unwrap() {
        PropValue::Obj(o) => o,
        other => panic!("getRootNode returned no object: {:?}", other),
    };
    let root_node = ctx.heap.downcast_node(root_inst).unwrap();
    assert_eq!(root_node.inner, NodeHandle { tree: 0, index: 0 });

    // Idempotence at the root: getRootNode applied to the root's own Node
    // instance returns a Node referring to itself.
    let again = match ctx.get_root_node(root_inst).unwrap() {
        PropValue::Obj(o) => o,
        other => panic!("getRootNode returned no object: {:?}", other),
    };
    assert_eq!(ctx.heap.downcast_node(again).unwrap().inner, root_node.inner);
}

#[test]
fn get_root_node_rejects_foreign_this() {
    let mut ctx = DomContext::new();
    let w = init(&mut ctx).unwrap();
    // A window payload backs no node: the call reports the mismatch.
    assert_eq!(ctx.get_root_node(w), Err(DomError::TypeMismatch));
    // So does a plain object with no payload.
    let plain = ctx.heap.allocate(None, None);
    assert_eq!(ctx.get_root_node(plain), Err(DomError::TypeMismatch));
    assert_eq!(
        DomError::TypeMismatch.message(),
        "value is not of the expected native type"
    );
}
