//! The node-tree adapter: it wraps the external HTML parser's tree behind a
//! verified arena model.
//!
//! A parsed tree is flattened, parent before child, into a [`NodeTree`]: the
//! node at slot 0 is the root, and every later slot records the index of its
//! parent. All navigation that the reflection layer performs (parent lookup,
//! walking to the topmost ancestor) is verified against that arena. The
//! parser's own reference-counted nodes ride along in the arena, so the
//! external tree stays alive exactly as long as the arena that indexes it.
//!
//! What the arena holds is pinned to the markup through two named results:
//! [`parse_parents`] names the parent table of the parsed document and
//! [`tree_parents`] names the parent table of the subtree hanging at one
//! external node. The trusted wrappers state how the two decompose, and
//! [`NodeTree::from_markup`] proves that its arena lays down exactly that
//! table (a prefix of it, when the node budget cuts the traversal short).

use vstd::prelude::*;

use kuchiki::traits::TendrilSink;
use vstd::string::StringSliceAdditionalSpecFns;

verus! {

#[verifier::external_type_specification]
#[verifier::external_body]
pub struct ExNodeRef(kuchiki::NodeRef);

/// The parent table, in document preorder, of the subtree hanging at `n`:
/// slot 0 is `n` itself with no parent recorded, and every later slot holds
/// the table index of its parent within the same subtree. The table is a
/// function of the external tree's shape alone.
pub uninterp spec fn tree_parents(n: kuchiki::NodeRef) -> Seq<Option<int>>;

/// The parent table, in document preorder, of the document tree that parsing
/// `markup` produces. Parsing is deterministic, so the table depends on the
/// markup alone.
pub uninterp spec fn parse_parents(markup: Seq<char>) -> Seq<Option<int>>;

/// A well-formed preorder parent table: nonempty, rooted at its first slot,
/// every other slot's parent standing earlier. Every tree's preorder parent
/// table has this shape.
pub open spec fn shape_wf(s: Seq<Option<int>>) -> bool {
    &&& s.len() >= 1
    &&& s[0] is None
    &&& forall|i: int| 1 <= i < s.len() ==> #[trigger] s[i] is Some && 0 <= s[i]->0 < i
}

/// An arena's parent column read as a mathematical parent table.
pub open spec fn table_view(parents: Seq<Option<usize>>) -> Seq<Option<int>> {
    Seq::new(
        parents.len(),
        |i: int|
            match parents[i] {
                Some(p) => Some(p as int),
                None => None,
            },
    )
}

/// A parent link read as a table link.
pub open spec fn link_view(p: Option<usize>) -> Option<int> {
    match p {
        Some(v) => Some(v as int),
        None => None,
    }
}

/// Every parent link of `s` moved `d` slots later.
pub open spec fn shifted(s: Seq<Option<int>>, d: int) -> Seq<Option<int>> {
    Seq::new(
        s.len(),
        |i: int|
            match s[i] {
                Some(p) => Some(p + d),
                None => None,
            },
    )
}

/// The table `shape`, placed so that its root stands at slot `base` with
/// parent link `par`, and every inner link moved to its absolute slot.
pub open spec fn placed(shape: Seq<Option<int>>, par: Option<int>, base: int) -> Seq<Option<int>> {
    seq![par] + shifted(shape.skip(1), base)
}

/// The subtree tables of `kids`, laid side by side in order, each rooted with
/// parent link `par`, the first one starting at slot `base`.
pub open spec fn sibling_tables(kids: Seq<kuchiki::NodeRef>, par: int, base: int) -> Seq<
    Option<int>,
>
    decreases kids.len(),
{
    if kids.len() == 0 {
        Seq::empty()
    } else {
        placed(tree_parents(kids[0]), Some(par), base) + sibling_tables(
            kids.drop_first(),
            par,
            base + tree_parents(kids[0]).len() as int,
        )
    }
}

/// The total length of the subtree tables of `kids`.
pub open spec fn tables_len(kids: Seq<kuchiki::NodeRef>) -> int
    decreases kids.len(),
{
    if kids.len() == 0 {
        0
    } else {
        tree_parents(kids[0]).len() as int + tables_len(kids.drop_first())
    }
}

/// The subtree tables of the pending traversal entries, in the order the
/// traversal will lay them down (last entry first), the first starting at
/// slot `base`.
pub open spec fn pending_tables(
    stack: Seq<(kuchiki::NodeRef, Option<usize>)>,
    base: int,
) -> Seq<Option<int>>
    decreases stack.len(),
{
    if stack.len() == 0 {
        Seq::empty()
    } else {
        placed(tree_parents(stack.last().0), link_view(stack.last().1), base) + pending_tables(
            stack.drop_last(),
            base + tree_parents(stack.last().0).len() as int,
        )
    }
}

/// Relies on `kuchiki::parse_html` and `TendrilSink::one`: parsing follows the
/// HTML recovery rules, parse errors are reported to an optional callback and
/// are never fatal, so a document node is always produced. The parser's
/// string buffer holds at most four gibibytes, and feeding it more panics, so
/// longer markup is excluded here.
#[verifier::external_body]
fn parse_markup(markup: &str) -> (r: kuchiki::NodeRef)
    requires
        markup.spec_bytes().len() <= 0xFFFF_FFFF,
    ensures
        tree_parents(r) == parse_parents(markup@),
        shape_wf(tree_parents(r)),
{
    kuchiki::parse_html().one(markup)
}

/// Relies on `kuchiki::NodeRef::children`, an iterator that yields the
/// children of the node in tree order, here collected into a vector. The
/// node's preorder parent table is therefore its root slot followed by the
/// children's subtree tables laid side by side, each child rooted at the
/// node itself; and each child's own table is a preorder parent table.
#[verifier::external_body]
fn node_children(n: &kuchiki::NodeRef) -> (kids: Vec<kuchiki::NodeRef>)
    ensures
        tree_parents(*n) == seq![Option::<int>::None] + sibling_tables(kids@, 0, 1),
        forall|i: int| 0 <= i < kids@.len() ==> shape_wf(#[trigger] tree_parents(kids@[i])),
{
    n.children().collect()
}

/// The largest number of nodes one arena will index. The flattening loop walks
/// an external tree whose extent nothing here can bound, so it carries this
/// budget as its termination measure; a document with more nodes is indexed
/// up to this prefix of its parent table.
pub const MAX_NODES: usize = 1048576;

/// A shared-ownership reference to one node of one parsed tree: the index of
/// the tree inside its context, and the index of the node inside that tree.
///
/// A handle is never null; a node with no parent is reported as an explicit
/// absence, never as a null handle.
#[derive(Debug, Clone, Copy, PartialEq, Eq, Structural)]
pub struct NodeHandle {
    /// Index of the tree in the owning context's tree list.
    pub tree: usize,
    /// Index of the node inside that tree's arena.
    pub index: usize,
}

impl NodeHandle {
    /// The handle points into an existing, well-formed tree of `trees`.
    pub open spec fn valid(self, trees: Seq<NodeTree>) -> bool {
        &&& self.tree < trees.len()
        &&& trees[self.tree as int].wf()
        &&& self.index < trees[self.tree as int].parents@.len()
    }
}

/// Shifting a shifted table adds the two moves.
proof fn lemma_shifted_compose(s: Seq<Option<int>>, a: int, b: int)
    ensures
        shifted(shifted(s, a), b) =~= shifted(s, a + b),
{
}

/// Shifting distributes over laying tables side by side.
proof fn lemma_shifted_concat(a: Seq<Option<int>>, b: Seq<Option<int>>, d: int)
    ensures
        shifted(a + b, d) =~= shifted(a, d) + shifted(b, d),
{
}

/// Moving a placed table `d` slots later moves its base and its parent link.
proof fn lemma_placed_shift(shape: Seq<Option<int>>, p: int, base: int, d: int)
    ensures
        shifted(placed(shape, Some(p), base), d) =~= placed(shape, Some(p + d), base + d),
{
    lemma_shifted_concat(seq![Some(p)], shifted(shape.skip(1), base), d);
    lemma_shifted_compose(shape.skip(1), base, d);
    assert(shifted(seq![Some(p)], d) =~= seq![Some(p + d)]);
}

/// Moving sibling tables `d` slots later moves their base and parent.
proof fn lemma_sibling_shift(kids: Seq<kuchiki::NodeRef>, par: int, base: int, d: int)
    ensures
        shifted(sibling_tables(kids, par, base), d) =~= sibling_tables(kids, par + d, base + d),
    decreases kids.len(),
{
    if kids.len() > 0 {
        let head = placed(tree_parents(kids[0]), Some(par), base);
        let rest = sibling_tables(kids.drop_first(), par, base + tree_parents(kids[0]).len());
        lemma_shifted_concat(head, rest, d);
        lemma_placed_shift(tree_parents(kids[0]), par, base, d);
        lemma_sibling_shift(kids.drop_first(), par, base + tree_parents(kids[0]).len(), d);
    }
}

/// The length of sibling tables does not depend on where they are placed.
proof fn lemma_sibling_len(kids: Seq<kuchiki::NodeRef>, par: int, base: int)
    requires
        forall|i: int| 0 <= i < kids.len() ==> shape_wf(#[trigger] tree_parents(kids[i])),
    ensures
        sibling_tables(kids, par, base).len() == tables_len(kids),
    decreases kids.len(),
{
    if kids.len() > 0 {
        assert(shape_wf(tree_parents(kids[0])));
        assert(placed(tree_parents(kids[0]), Some(par), base).len() == tree_parents(
            kids[0],
        ).len());
        assert forall|i: int|
            0 <= i < kids.drop_first().len() implies shape_wf(
            #[trigger] tree_parents(kids.drop_first()[i]),
        ) by {
            assert(kids.drop_first()[i] == kids[i + 1]);
        }
        lemma_sibling_len(kids.drop_first(), par, base + tree_parents(kids[0]).len());
    }
}

/// Sibling tables and their length, peeled at the last sibling.
proof fn lemma_sibling_peel_last(kids: Seq<kuchiki::NodeRef>, par: int, base: int)
    requires
        kids.len() > 0,
        forall|i: int| 0 <= i < kids.len() ==> shape_wf(#[trigger] tree_parents(kids[i])),
    ensures
        sibling_tables(kids, par, base) == sibling_tables(kids.drop_last(), par, base) + placed(
            tree_parents(kids.last()),
            Some(par),
            base + tables_len(kids.drop_last()),
        ),
        tables_len(kids) == tables_len(kids.drop_last()) + tree_parents(kids.last()).len(),
    decreases kids.len(),
{
    if kids.len() == 1 {
        assert(kids.drop_last() =~= Seq::<kuchiki::NodeRef>::empty());
        assert(kids.drop_first() =~= Seq::<kuchiki::NodeRef>::empty());
        assert(tables_len(kids.drop_last()) == 0);
        assert(kids.last() == kids[0]);
        assert(sibling_tables(kids.drop_first(), par, base + tree_parents(kids[0]).len() as int)
            =~= Seq::<Option<int>>::empty());
        assert(sibling_tables(kids.drop_last(), par, base) =~= Seq::<Option<int>>::empty());
        assert(sibling_tables(kids, par, base) =~= sibling_tables(kids.drop_last(), par, base)
            + placed(
            tree_parents(kids.last()),
            Some(par),
            base + tables_len(kids.drop_last()),
        ));
    } else {
        let tail = kids.drop_first();
        let k0len = tree_parents(kids[0]).len() as int;
        let dl = kids.drop_last();
        assert forall|i: int|
            0 <= i < tail.len() implies shape_wf(#[trigger] tree_parents(tail[i])) by {
            assert(tail[i] == kids[i + 1]);
        }
        lemma_sibling_peel_last(tail, par, base + k0len);
        assert(tail.drop_last() =~= dl.drop_first());
        assert(tail.last() == kids.last());
        assert(dl[0] == kids[0]);
        assert(dl.len() > 0);
        assert(tables_len(dl) == k0len + tables_len(tail.drop_last()));
        assert(sibling_tables(dl, par, base) =~= placed(tree_parents(kids[0]), Some(par), base)
            + sibling_tables(tail.drop_last(), par, base + k0len));
        assert(sibling_tables(kids, par, base) =~= sibling_tables(dl, par, base) + placed(
            tree_parents(kids.last()),
            Some(par),
            base + tables_len(dl),
        ));
    }
}

/// A table placed at slot 0 under no parent is the table itself.
proof fn lemma_placed_at_origin(shape: Seq<Option<int>>)
    requires
        shape_wf(shape),
    ensures
        placed(shape, None, 0) =~= shape,
{
    assert(shifted(shape.skip(1), 0) =~= shape.skip(1));
}

/// Each character encodes to at most four bytes.
proof fn lemma_encode_len(chars: Seq<char>)
    ensures
        vstd::utf8::encode_utf8(chars).len() <= 4 * chars.len(),
    decreases chars.len(),
{
    if chars.len() > 0 {
        lemma_encode_len(chars.drop_first());
        assert(vstd::utf8::encode_scalar(chars[0] as u32).len() <= 4);
    }
}

/// One parsed document tree, flattened parent-before-child.
///
/// `nodes[i]` is the external parser's node for slot `i`; `parents[i]` is the
/// arena index of its parent, absent exactly at the root slot 0. The `nodes`
/// column keeps the reference-counted external tree alive; the verified logic
/// reads only the `parents` column.
pub struct NodeTree {
    /// The external parser's nodes, one per arena slot.
    pub nodes: Vec<kuchiki::NodeRef>,
    /// Parent links: `parents[i]` is the slot of the parent of slot `i`.
    pub parents: Vec<Option<usize>>,
}

impl NodeTree {
    /// Well-formedness: the arena is nonempty, slot 0 is the root (the only
    /// slot with no parent), and every parent stands before its children.
    pub open spec fn wf(self) -> bool {
        &&& self.nodes@.len() == self.parents@.len()
        &&& self.parents@.len() >= 1
        &&& self.parents@[0] is None
        &&& forall|i: int|
            1 <= i < self.parents@.len() ==> #[trigger] self.parents@[i] is Some
                && self.parents@[i]->0 < i
    }

    /// The slot reached from `i` by following parent links upward as far as
    /// they go: the topmost ancestor of `i` (or `i` itself at the root).
    pub open spec fn spec_root(self, i: int) -> int
        decreases i,
    {
        if 0 <= i < self.parents@.len() {
            match self.parents@[i] {
                Some(p) => if p < i {
                    self.spec_root(p as int)
                } else {
                    i
                },
                None => i,
            }
        } else {
            i
        }
    }

    /// Parses `markup` with the external HTML parser and flattens the
    /// resulting tree into a well-formed arena whose parent column is the
    /// parsed document's parent table — all of it when the document has at
    /// most [`MAX_NODES`] nodes, and exactly that prefix of it otherwise.
    /// The HTML parser recovers from every input, so this never fails; the
    /// length bound keeps the markup inside the parser's buffer limit (at
    /// most four bytes per character).
    pub fn from_markup(markup: &str) -> (t: NodeTree)
        requires
            markup@.len() <= 0x3FFF_FFFF,
        ensures
            t.wf(),
            table_view(t.parents@) == parse_parents(markup@).take(t.parents@.len() as int),
            t.parents@.len() == if parse_parents(markup@).len() <= MAX_NODES {
                parse_parents(markup@).len()
            } else {
                MAX_NODES as nat
            },
    {
        proof {
            lemma_encode_len(markup@);
        }
        let mut nodes: Vec<kuchiki::NodeRef> = Vec::new();
        let mut parents: Vec<Option<usize>> = Vec::new();
        let mut pending: Vec<(kuchiki::NodeRef, Option<usize>)> = Vec::new();
        let mut fuel: usize = MAX_NODES;
        let root = parse_markup(markup);
        proof {
            lemma_placed_at_origin(tree_parents(root));
        }
        pending.push((root, None));
        proof {
            assert(pending@.last() == (root, None::<usize>));
            assert(pending@.drop_last() =~= Seq::<(kuchiki::NodeRef, Option<usize>)>::empty());
            assert(pending_tables(
                pending@.drop_last(),
                0 + tree_parents(root).len() as int,
            ) =~= Seq::<Option<int>>::empty());
            assert(pending_tables(pending@, 0) =~= parse_parents(markup@));
            assert(table_view(parents@).len() == 0);
            assert(table_view(parents@) + pending_tables(pending@, 0) =~= parse_parents(markup@));
        }
        loop
            invariant
                nodes@.len() == parents@.len(),
                nodes@.len() == 0 ==> pending@.len() == 1 && pending@[0].1 is None && fuel
                    >= 1,
                nodes@.len() >= 1 ==> parents@[0] is None,
                nodes@.len() >= 1 ==> forall|j: int|
                    0 <= j < pending@.len() ==> #[trigger] pending@[j].1 is Some
                        && pending@[j].1->0 < nodes@.len(),
                forall|i: int|
                    1 <= i < parents@.len() ==> #[trigger] parents@[i] is Some
                        && parents@[i]->0 < i,
                table_view(parents@) + pending_tables(pending@, parents@.len() as int)
                    == parse_parents(markup@),
                forall|j: int|
                    0 <= j < pending@.len() ==> shape_wf(#[trigger] tree_parents(pending@[j].0)),
                fuel + parents@.len() == MAX_NODES,
            ensures
                nodes@.len() >= 1,
                nodes@.len() == parents@.len(),
                parents@[0] is None,
                forall|i: int|
                    1 <= i < parents@.len() ==> #[trigger] parents@[i] is Some
                        && parents@[i]->0 < i,
                table_view(parents@) == parse_parents(markup@).take(parents@.len() as int),
                parents@.len() == if parse_parents(markup@).len() <= MAX_NODES {
                    parse_parents(markup@).len()
                } else {
                    MAX_NODES as nat
                },
            decreases fuel,
        {
            if fuel == 0 {
                proof {
                    assert(parse_parents(markup@).len() == table_view(parents@).len()
                        + pending_tables(pending@, parents@.len() as int).len());
                    if pending@.len() > 0 {
                        assert(shape_wf(tree_parents(pending@.last().0)));
                        assert(placed(
                            tree_parents(pending@.last().0),
                            link_view(pending@.last().1),
                            parents@.len() as int,
                        ).len() >= 1);
                        assert(pending_tables(pending@, parents@.len() as int).len() >= 1);
                    } else {
                        assert(pending_tables(pending@, parents@.len() as int) =~= Seq::<
                            Option<int>,
                        >::empty());
                    }
                    assert(parse_parents(markup@).take(parents@.len() as int) =~= table_view(
                        parents@,
                    ));
                }
                break ;
            }
            let ghost pend_pre = pending@;
            let ghost parents_pre = parents@;
            let next = pending.pop();
            match next {
                None => {
                    proof {
                        assert(pending_tables(pending@, parents@.len() as int) =~= Seq::<
                            Option<int>,
                        >::empty());
                        assert(parse_parents(markup@) =~= table_view(parents@));
                        assert(parse_parents(markup@).take(parents@.len() as int) =~= table_view(
                            parents@,
                        ));
                    }
                    break ;
                },
                Some((n, par)) => {
                    fuel = fuel - 1;
                    let idx: usize = nodes.len();
                    parents.push(par);
                    nodes.push(n);
                    let mut kids = node_children(&nodes[idx]);
                    proof {
                        let shape = tree_parents(n);
                        assert(pend_pre.last() == (n, par));
                        assert(pend_pre.drop_last() == pending@);
                        assert(pending_tables(pend_pre, idx as int) =~= placed(
                            shape,
                            link_view(par),
                            idx as int,
                        ) + pending_tables(pending@, idx as int + shape.len() as int));
                        assert(table_view(parents@) =~= table_view(parents_pre) + seq![
                            link_view(par),
                        ]);
                        assert(shape == seq![Option::<int>::None] + sibling_tables(kids@, 0, 1));
                        assert(shape.skip(1) =~= sibling_tables(kids@, 0, 1));
                        lemma_sibling_shift(kids@, 0, 1, idx as int);
                        lemma_sibling_len(kids@, 0, 1);
                        assert(sibling_tables(kids@, 0, 1).len() == tables_len(kids@));
                        assert(shape.len() == 1 + tables_len(kids@));
                        assert(shifted(shape.skip(1), idx as int) =~= sibling_tables(
                            kids@,
                            idx as int,
                            idx as int + 1,
                        ));
                        assert(placed(shape, link_view(par), idx as int) =~= seq![link_view(par)]
                            + sibling_tables(kids@, idx as int, idx as int + 1));
                        assert(table_view(parents@) + sibling_tables(
                            kids@,
                            idx as int,
                            parents@.len() as int,
                        ) + pending_tables(pending@, parents@.len() as int + tables_len(kids@))
                            =~= parse_parents(markup@));
                    }
                    loop
                        invariant
                            idx < nodes@.len(),
                            nodes@.len() == parents@.len(),
                            parents@[0] is None,
                            forall|j: int|
                                0 <= j < pending@.len() ==> #[trigger] pending@[j].1 is Some
                                    && pending@[j].1->0 < nodes@.len(),
                            forall|i: int|
                                1 <= i < parents@.len() ==> #[trigger] parents@[i] is Some
                                    && parents@[i]->0 < i,
                            forall|j: int|
                                0 <= j < pending@.len() ==> shape_wf(
                                    #[trigger] tree_parents(pending@[j].0),
                                ),
                            forall|i: int|
                                0 <= i < kids@.len() ==> shape_wf(
                                    #[trigger] tree_parents(kids@[i]),
                                ),
                            table_view(parents@) + sibling_tables(
                                kids@,
                                idx as int,
                                parents@.len() as int,
                            ) + pending_tables(
                                pending@,
                                parents@.len() as int + tables_len(kids@),
                            ) == parse_parents(markup@),
                        ensures
                            forall|j: int|
                                0 <= j < pending@.len() ==> #[trigger] pending@[j].1 is Some
                                    && pending@[j].1->0 < nodes@.len(),
                            forall|j: int|
                                0 <= j < pending@.len() ==> shape_wf(
                                    #[trigger] tree_parents(pending@[j].0),
                                ),
                            table_view(parents@) + pending_tables(
                                pending@,
                                parents@.len() as int,
                            ) == parse_parents(markup@),
                        decreases kids@.len(),
                    {
                        let ghost kids_pre = kids@;
                        let ghost pend_pre2 = pending@;
                        match kids.pop() {
                            None => {
                                proof {
                                    assert(sibling_tables(
                                        kids@,
                                        idx as int,
                                        parents@.len() as int,
                                    ) =~= Seq::<Option<int>>::empty());
                                    assert(tables_len(kids@) == 0);
                                    assert(table_view(parents@) + pending_tables(
                                        pending@,
                                        parents@.len() as int,
                                    ) =~= parse_parents(markup@));
                                }
                                break ;
                            },
                            Some(c) => {
                                proof {
                                    assert(kids_pre.last() == c);
                                    assert(kids_pre.drop_last() == kids@);
                                    lemma_sibling_peel_last(
                                        kids_pre,
                                        idx as int,
                                        parents@.len() as int,
                                    );
                                }
                                pending.push((c, Some(idx)));
                                proof {
                                    assert(pending@.last() == (c, Some(idx)));
                                    assert(pending@.drop_last() == pend_pre2);
                                    assert(link_view(Some(idx)) == Some(idx as int));
                                    assert(pending_tables(
                                        pending@,
                                        parents@.len() as int + tables_len(kids@),
                                    ) =~= placed(
                                        tree_parents(c),
                                        Some(idx as int),
                                        parents@.len() as int + tables_len(kids@),
                                    ) + pending_tables(
                                        pend_pre2,
                                        parents@.len() as int + tables_len(kids_pre),
                                    ));
                                    assert(table_view(parents@) + sibling_tables(
                                        kids@,
                                        idx as int,
                                        parents@.len() as int,
                                    ) + pending_tables(
                                        pending@,
                                        parents@.len() as int + tables_len(kids@),
                                    ) =~= parse_parents(markup@));
                                }
                            },
                        }
                    }
                },
            }
        }
        NodeTree { nodes, parents }
    }

    /// Number of nodes in the arena.
    pub fn len(&self) -> (n: usize)
        ensures
            n == self.parents@.len(),
    {
        self.parents.len()
    }

    /// The parent slot of node `i`, or absence at the root.
    pub fn parent_of(&self, i: usize) -> (r: Option<usize>)
        requires
            self.wf(),
            i < self.parents@.len(),
        ensures
            r == self.parents@[i as int],
    {
        self.parents[i]
    }

    /// Walks parent links from `i` to the topmost ancestor and returns its
    /// slot.
    pub fn root_of(&self, i: usize) -> (r: usize)
        requires
            self.wf(),
            i < self.parents@.len(),
        ensures
            r == self.spec_root(i as int),
            r < self.parents@.len(),
            self.parents@[r as int] is None,
    {
        let mut cur: usize = i;
        loop
            invariant
                self.wf(),
                cur < self.parents@.len(),
                self.spec_root(cur as int) == self.spec_root(i as int),
            decreases cur,
        {
            match self.parents[cur] {
                Some(p) => {
                    cur = p;
                },
                None => {
                    return cur;
                },
            }
        }
    }
}

/// In a well-formed arena every parent walk ends at slot 0: the tree is
/// rooted, and slot 0 is its root.
pub proof fn lemma_root_is_zero(t: NodeTree, i: int)
    requires
        t.wf(),
        0 <= i < t.parents@.len(),
    ensures
        t.spec_root(i) == 0,
    decreases i,
{
    if t.parents@[i] is Some {
        lemma_root_is_zero(t, t.parents@[i]->0 as int);
    }
}

/// Walking to the topmost ancestor is idempotent: applied to a node that is
/// already a root, it returns that node itself.
pub proof fn lemma_spec_root_idempotent(t: NodeTree, i: int)
    requires
        t.wf(),
        0 <= i < t.parents@.len(),
    ensures
        t.spec_root(t.spec_root(i)) == t.spec_root(i),
{
    lemma_root_is_zero(t, i);
    lemma_root_is_zero(t, 0);
}

} // verus!
