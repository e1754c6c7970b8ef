//! Tests of prototype-chain linkage, registration ordering, and ancestor
//! navigation over parsed trees.

use dom_reflect::context::DomContext;
use dom_reflect::init;
use dom_reflect::node::Node;
use dom_reflect::payload::Payload;
use dom_reflect::registry::CtorBehavior;
use dom_reflect::table::PropAttributes;
use dom_reflect::table::PropValue;
use dom_reflect::tree::NodeHandle;
use dom_reflect::tree::NodeTree;
use dom_reflect::DomError;

#[test]
fn instance_chains_match_declared_supertypes() {
    let mut ctx = DomContext::new();
    let w = init(&mut ctx).unwrap();
    let node_proto = ctx.registry.bindings[0].proto_obj;
    let document_proto = ctx.registry.bindings[1].proto_obj;
    let window_proto = ctx.registry.bindings[2].proto_obj;

    // The document instance: instanceof Document and, transitively through
    // the declared supertype chain, instanceof Node — and nothing else.
    let d = match ctx.heap.get_prop(w, &"document".to_owned()).unwrap() {
        PropValue::Obj(d) => d,
        other => panic!("window.document is not an object: {:?}", other),
    };
    assert!(ctx.heap.instance_of(d, document_proto));
    assert!(ctx.heap.instance_of(d, node_proto));
    assert!(!ctx.heap.instance_of(d, window_proto));

    // The window instance: instanceof Window only.
    assert!(ctx.heap.instance_of(w, window_proto));
    assert!(!ctx.heap.instance_of(w, node_proto));
    assert!(!ctx.heap.instance_of(w, document_proto));

    // A reflected Node instance: instanceof Node only.
    let n = ctx
        .reflect(
            &"Node".to_owned(),
            Payload::Node(Node::new(NodeHandle { tree: 0, index: 0 })),
        )
        .unwrap();
    assert!(ctx.heap.instance_of(n, node_proto));
    assert!(!ctx.heap.instance_of(n, document_proto));
}

#[test]
fn registered_type_extends_the_chain() {
    let mut ctx = DomContext::new();
    init(&mut ctx).unwrap();
    // A further type whose supertype is Node.
    let e = ctx
        .register(
            "Element".to_owned(),
            CtorBehavior::Plain,
            PropAttributes::builtin(),
            Some(0),
        )
        .unwrap();
    assert_eq!(ctx.registry.len(), 4);
    let element_proto = ctx.registry.bindings[e].proto_obj;
    let node_proto = ctx.registry.bindings[0].proto_obj;
    let document_proto = ctx.registry.bindings[1].proto_obj;

    // Its plain instances carry no payload but the full chain.
    let x = ctx.construct(&"Element".to_owned()).unwrap();
    assert!(ctx.heap.instance_of(x, element_proto));
    assert!(ctx.heap.instance_of(x, node_proto));
    assert!(!ctx.heap.instance_of(x, document_proto));
    assert_eq!(ctx.heap.downcast_node(x), None);
    assert_eq!(ctx.heap.downcast_document(x), None);
    assert_eq!(ctx.heap.downcast_window(x), None);
}

#[test]
fn registration_order_is_enforced() {
    let mut ctx = DomContext::new();
    init(&mut ctx).unwrap();
    // A supertype index that names no earlier binding is rejected.
    let r = ctx.register(
        "Element".to_owned(),
        CtorBehavior::Plain,
        PropAttributes::builtin(),
        Some(57),
    );
    assert_eq!(r, Err(DomError::RegistrationOrder));
    // So is a name that is already taken.
    let r = ctx.register(
        "Node".to_owned(),
        CtorBehavior::Plain,
        PropAttributes::builtin(),
        None,
    );
    assert_eq!(r, Err(DomError::RegistrationOrder));
    assert_eq!(
        DomError::RegistrationOrder.message(),
        "type registered before its supertype or twice"
    );
}

#[test]
fn parsed_tree_is_rooted_and_navigable() {
    let tree = NodeTree::from_markup(
        "<!DOCTYPE html><html><head></head><body><p>one</p><p>two</p></body></html>",
    );
    let n = tree.len();
    assert!(n > 1);
    assert_eq!(tree.parent_of(0), None);
    for i in 1..n {
        let p = tree.parent_of(i).expect("every non-root node has a parent");
        assert!(p < i, "parents stand before their children");
    }
    // Walking to the topmost ancestor always ends at the root slot.
    for i in 0..n {
        assert_eq!(tree.root_of(i), 0);
    }
    // Idempotence: from a node that is already a root, the walk returns the
    // node itself.
    let r = tree.root_of(n - 1);
    assert_eq!(tree.root_of(r), r);
}

#[test]
fn parent_node_follows_the_arena() {
    let tree = NodeTree::from_markup("<!DOCTYPE html><html><body></body></html>");
    let n = tree.len();
    assert!(n > 1);
    let leaf = Node::new(NodeHandle { tree: 4, index: n - 1 });
    let p = leaf.parent_node(&tree).expect("leaf has a parent");
    // The handle stays within the node's own tree.
    assert_eq!(p.tree, 4);
    assert!(p.index < n - 1);
    let root = Node::new(NodeHandle { tree: 4, index: 0 });
    assert_eq!(root.parent_node(&tree), None);
}

#[test]
fn parsing_recovers_from_arbitrary_markup() {
    // The external parser follows the HTML recovery rules: even degenerate
    // inputs produce a document node.
    assert!(NodeTree::from_markup("").len() >= 1);
    assert!(NodeTree::from_markup("<<<not html>>>").len() >= 1);
    assert!(NodeTree::from_markup("plain text").len() >= 1);
}

#[test]
fn property_table_shadows_and_keeps_other_names() {
    let mut ctx = DomContext::new();
    init(&mut ctx).unwrap();
    let o = ctx.heap.allocate(None, None);
    ctx.heap.set_prop(
        o,
        "a".to_owned(),
        PropValue::Int(1),
        PropAttributes::writable_only(),
    );
    ctx.heap.set_prop(
        o,
        "b".to_owned(),
        PropValue::Null,
        PropAttributes::builtin(),
    );
    ctx.heap.set_prop(
        o,
        "a".to_owned(),
        PropValue::Int(2),
        PropAttributes::writable_only(),
    );
    assert_eq!(
        ctx.heap.get_prop(o, &"a".to_owned()),
        Some(PropValue::Int(2))
    );
    assert_eq!(ctx.heap.get_prop(o, &"b".to_owned()), Some(PropValue::Null));
    assert_eq!(ctx.heap.get_prop(o, &"c".to_owned()), None);
}

#[test]
fn constructor_functions_stand_on_the_global_object() {
    let mut ctx = DomContext::new();
    init(&mut ctx).unwrap();
    for (name, idx) in [("Node", 0), ("Document", 1), ("Window", 2)] {
        let ctor = ctx.registry.bindings[idx].ctor_obj;
        assert_eq!(
            ctx.get_global(&name.to_owned()),
            Some(PropValue::Obj(ctor)),
            "global {} names its constructor function object",
            name
        );
    }
}
