//! Declarative tree application over a mock document.
//!
//! A `TreeNode` is an immutable description of a document subtree.  The
//! applier materializes it onto a `ModelDom`, an arena model of the host
//! document, and at the same time emits the stream of primitive host
//! operations it stands for.  The stream makes the build order a proved
//! fact: a subtree's root is attached to its parent only by the very
//! last operation, after the whole subtree is built.

use vstd::prelude::*;

verus! {

/// An immutable description of a document node, constructed fully
/// before any host mutation.
#[derive(Debug)]
pub enum TreeNode {
    Text { content: String },
    Element { name: String, attributes: Vec<(String, String)>, children: Vec<TreeNode> },
}

/// How many document nodes one description materializes into.
pub open spec fn node_count(t: TreeNode) -> int
    decreases t,
{
    match t {
        TreeNode::Text { .. } => 1,
        TreeNode::Element { children, .. } => 1 + forest_count(children@),
    }
}

/// How many document nodes a list of sibling descriptions materializes into.
pub open spec fn forest_count(kids: Seq<TreeNode>) -> int
    decreases kids,
{
    if kids.len() == 0 {
        0
    } else {
        node_count(kids.first()) + forest_count(kids.drop_first())
    }
}

pub proof fn lemma_counts_positive(t: TreeNode)
    ensures
        node_count(t) >= 1,
    decreases t,
{
    if t is Element {
        lemma_forest_count_nonneg(t->children@);
    }
}

pub proof fn lemma_forest_count_nonneg(kids: Seq<TreeNode>)
    ensures
        forest_count(kids) >= 0,
    decreases kids,
{
    if kids.len() > 0 {
        lemma_counts_positive(kids.first());
        lemma_forest_count_nonneg(kids.drop_first());
    }
}

pub proof fn lemma_forest_count_snoc(kids: Seq<TreeNode>, last: TreeNode)
    ensures
        forest_count(kids.push(last)) == forest_count(kids) + node_count(last),
    decreases kids,
{
    reveal_with_fuel(forest_count, 3);
    if kids.len() == 0 {
        assert(kids.push(last).first() == last);
        assert(kids.push(last).drop_first() =~= Seq::<TreeNode>::empty());
    } else {
        assert(kids.push(last).first() == kids.first());
        assert(kids.push(last).drop_first() =~= kids.drop_first().push(last));
        lemma_forest_count_snoc(kids.drop_first(), last);
    }
}

// ---------------------------------------------------------------------
// Attribute lists under host `set attribute` semantics.
// ---------------------------------------------------------------------

/// Setting one attribute: the first entry with the key is overwritten in
/// place, any other entry is untouched, a fresh key is appended.
pub open spec fn set_attr_spec(
    attrs: Seq<(String, String)>,
    key: String,
    value: String,
) -> Seq<(String, String)>
    decreases attrs,
{
    if attrs.len() == 0 {
        seq![(key, value)]
    } else if attrs.first().0@ == key@ {
        seq![(key, value)] + attrs.drop_first()
    } else {
        seq![attrs.first()] + set_attr_spec(attrs.drop_first(), key, value)
    }
}

/// The attribute list an element carries after a pair list is applied to
/// it in order, starting from no attributes.
pub open spec fn attrs_applied(pairs: Seq<(String, String)>) -> Seq<(String, String)>
    decreases pairs,
{
    if pairs.len() == 0 {
        Seq::empty()
    } else {
        set_attr_spec(attrs_applied(pairs.drop_last()), pairs.last().0, pairs.last().1)
    }
}

/// What reading an attribute from a carried list returns: the first
/// entry with the key (a carried list never repeats a key).
pub open spec fn attr_lookup(attrs: Seq<(String, String)>, key: Seq<char>) -> Option<Seq<char>>
    decreases attrs,
{
    if attrs.len() == 0 {
        None
    } else if attrs.first().0@ == key {
        Some(attrs.first().1@)
    } else {
        attr_lookup(attrs.drop_first(), key)
    }
}

/// The value of the last write to `key` in a pair list, if any.
pub open spec fn last_written(pairs: Seq<(String, String)>, key: Seq<char>) -> Option<Seq<char>>
    decreases pairs,
{
    if pairs.len() == 0 {
        None
    } else if pairs.last().0@ == key {
        Some(pairs.last().1@)
    } else {
        last_written(pairs.drop_last(), key)
    }
}

proof fn lemma_lookup_after_set_same(a: Seq<(String, String)>, k: String, v: String, key: Seq<char>)
    requires
        k@ == key,
    ensures
        attr_lookup(set_attr_spec(a, k, v), key) == Some(v@),
    decreases a,
{
    reveal_with_fuel(attr_lookup, 3);
    reveal_with_fuel(set_attr_spec, 3);
    if a.len() == 0 {
    } else if a.first().0@ == k@ {
    } else {
        let rest = set_attr_spec(a.drop_first(), k, v);
        assert((seq![a.first()] + rest).drop_first() =~= rest);
        lemma_lookup_after_set_same(a.drop_first(), k, v, key);
    }
}

proof fn lemma_lookup_after_set_other(a: Seq<(String, String)>, k: String, v: String, key: Seq<char>)
    requires
        k@ != key,
    ensures
        attr_lookup(set_attr_spec(a, k, v), key) == attr_lookup(a, key),
    decreases a,
{
    reveal_with_fuel(attr_lookup, 3);
    reveal_with_fuel(set_attr_spec, 3);
    if a.len() == 0 {
    } else if a.first().0@ == k@ {
        let s2 = seq![(k, v)] + a.drop_first();
        assert(s2.first() == (k, v));
        assert(s2.drop_first() =~= a.drop_first());
    } else {
        let rest = set_attr_spec(a.drop_first(), k, v);
        let s3 = seq![a.first()] + rest;
        assert(s3.first() == a.first());
        assert(s3.drop_first() =~= rest);
        lemma_lookup_after_set_other(a.drop_first(), k, v, key);
    }
}

/// For repeated keys in one attribute pair list, the element built from
/// it exposes exactly the value of the last write, for every key.
pub proof fn lemma_last_write_wins(pairs: Seq<(String, String)>, key: Seq<char>)
    ensures
        attr_lookup(attrs_applied(pairs), key) == last_written(pairs, key),
    decreases pairs,
{
    if pairs.len() > 0 {
        lemma_last_write_wins(pairs.drop_last(), key);
        if pairs.last().0@ == key {
            lemma_lookup_after_set_same(
                attrs_applied(pairs.drop_last()),
                pairs.last().0,
                pairs.last().1,
                key,
            );
        } else {
            lemma_lookup_after_set_other(
                attrs_applied(pairs.drop_last()),
                pairs.last().0,
                pairs.last().1,
                key,
            );
        }
    }
}

// ---------------------------------------------------------------------
// The mock document.
// ---------------------------------------------------------------------

/// One node of the mock document.  For a text node `name` is empty and
/// `text` is the content; for an element `name` is the tag, `text` is
/// empty, and `children` holds the ids of its children in order.
#[derive(Debug)]
pub struct ModelNode {
    pub is_element: bool,
    pub name: String,
    pub text: String,
    pub attrs: Vec<(String, String)>,
    pub children: Vec<usize>,
}

/// A mock document: an arena of nodes, a node's id being its index.  A
/// node is always created before it is attached, so a child's id is
/// strictly above its parent's.
#[derive(Debug)]
pub struct ModelDom {
    pub nodes: Vec<ModelNode>,
}

pub open spec fn wf_node_at(nodes: Seq<ModelNode>, i: int) -> bool {
    &&& (!nodes[i].is_element ==> nodes[i].attrs@.len() == 0 && nodes[i].children@.len() == 0)
    &&& forall|j: int|
        0 <= j < nodes[i].children@.len() ==> i < #[trigger] nodes[i].children@[j] < nodes.len()
}

pub open spec fn dom_wf(nodes: Seq<ModelNode>) -> bool {
    forall|i: int| 0 <= i < nodes.len() ==> #[trigger] wf_node_at(nodes, i)
}

impl ModelDom {
    pub open spec fn wf(&self) -> bool {
        dom_wf(self.nodes@)
    }

    /// A document holding one detached element, to build under.
    pub fn new_with_root(name: String) -> (doc: Self)
        ensures
            doc.wf(),
            doc.nodes@.len() == 1,
            doc.nodes@[0].is_element,
            doc.nodes@[0].name == name,
            doc.nodes@[0].attrs@.len() == 0,
            doc.nodes@[0].children@.len() == 0,
    {
        let mut nodes: Vec<ModelNode> = Vec::new();
        nodes.push(
            ModelNode {
                is_element: true,
                name,
                text: String::new(),
                attrs: Vec::new(),
                children: Vec::new(),
            },
        );
        ModelDom { nodes }
    }
}

/// The ids that the children of an element created at `id` occupy: the
/// subtree is laid out depth-first, so the `j`-th child root lives at
/// `id + 1 + forest_count(children.take(j))`.
pub open spec fn child_ids(id: int, kids: Seq<TreeNode>) -> Seq<usize> {
    Seq::new(kids.len(), |j: int| (id + 1 + forest_count(kids.take(j))) as usize)
}

/// The subtree rooted at `id` is exactly the materialization of `t`:
/// same shape, attributes applied in order (a later write to a key
/// overwriting an earlier one), children laid out depth-first.
pub open spec fn tree_built_at(nodes: Seq<ModelNode>, id: int, t: TreeNode) -> bool
    decreases t,
{
    0 <= id < nodes.len() && match t {
        TreeNode::Text { content } => {
            &&& !nodes[id].is_element
            &&& nodes[id].text@ == content@
        },
        TreeNode::Element { name, attributes, children } => {
            &&& nodes[id].is_element
            &&& nodes[id].name@ == name@
            &&& nodes[id].attrs@ == attrs_applied(attributes@)
            &&& nodes[id].children@ == child_ids(id, children@)
            &&& forest_built_at(nodes, id + 1, children@)
        },
    }
}

/// The sibling descriptions `kids` are materialized back to back,
/// depth-first, the first root at `base`.
pub open spec fn forest_built_at(nodes: Seq<ModelNode>, base: int, kids: Seq<TreeNode>) -> bool
    decreases kids,
{
    kids.len() == 0 || {
        &&& tree_built_at(nodes, base, kids.first())
        &&& forest_built_at(nodes, base + node_count(kids.first()), kids.drop_first())
    }
}

pub proof fn lemma_forest_built_snoc(
    nodes: Seq<ModelNode>,
    base: int,
    kids: Seq<TreeNode>,
    last: TreeNode,
)
    requires
        forest_built_at(nodes, base, kids),
        tree_built_at(nodes, base + forest_count(kids), last),
    ensures
        forest_built_at(nodes, base, kids.push(last)),
    decreases kids,
{
    reveal_with_fuel(forest_built_at, 3);
    reveal_with_fuel(forest_count, 3);
    if kids.len() == 0 {
        assert(kids.push(last).first() == last);
        assert(kids.push(last).drop_first() =~= Seq::<TreeNode>::empty());
    } else {
        assert(kids.push(last).first() == kids.first());
        assert(kids.push(last).drop_first() =~= kids.drop_first().push(last));
        lemma_forest_count_snoc(kids.drop_first(), last);
        lemma_forest_built_snoc(
            nodes,
            base + node_count(kids.first()),
            kids.drop_first(),
            last,
        );
    }
}

/// Materialized subtrees only mention arena entries at or above their
/// root, so they survive any change strictly below the root and any
/// growth of the arena.
pub proof fn lemma_built_stable(
    nodes1: Seq<ModelNode>,
    nodes2: Seq<ModelNode>,
    id: int,
    t: TreeNode,
)
    requires
        tree_built_at(nodes1, id, t),
        nodes1.len() <= nodes2.len(),
        forall|i: int| id <= i < nodes1.len() ==> nodes2[i] == nodes1[i],
    ensures
        tree_built_at(nodes2, id, t),
    decreases t,
{
    assert(nodes2[id] == nodes1[id]);
    match t {
        TreeNode::Text { .. } => {
        },
        TreeNode::Element { name, attributes, children } => {
            lemma_forest_built_stable(nodes1, nodes2, id + 1, children@);
        },
    }
}

pub proof fn lemma_forest_built_stable(
    nodes1: Seq<ModelNode>,
    nodes2: Seq<ModelNode>,
    base: int,
    kids: Seq<TreeNode>,
)
    requires
        forest_built_at(nodes1, base, kids),
        nodes1.len() <= nodes2.len(),
        forall|i: int| base <= i < nodes1.len() ==> nodes2[i] == nodes1[i],
    ensures
        forest_built_at(nodes2, base, kids),
    decreases kids,
{
    if kids.len() > 0 {
        lemma_counts_positive(kids.first());
        lemma_built_stable(nodes1, nodes2, base, kids.first());
        lemma_forest_built_stable(
            nodes1,
            nodes2,
            base + node_count(kids.first()),
            kids.drop_first(),
        );
    }
}

// ---------------------------------------------------------------------
// The primitive operation stream.
// ---------------------------------------------------------------------

/// One primitive document operation, as the host performs it.
#[derive(Debug, PartialEq, Eq)]
pub enum DomOp {
    CreateElement { id: usize, name: String },
    CreateText { id: usize, content: String },
    SetAttribute { id: usize, key: String, value: String },
    AppendChild { parent: usize, child: usize },
}

/// The operations that write one attribute pair list, in order, onto
/// the node created at `id`.
pub open spec fn attr_ops(id: int, pairs: Seq<(String, String)>) -> Seq<DomOp> {
    Seq::new(
        pairs.len(),
        |j: int| DomOp::SetAttribute { id: id as usize, key: pairs[j].0, value: pairs[j].1 },
    )
}

/// The operation stream that materializes `t` under `target`, fresh ids
/// starting at `base`: create, write attributes, build the children,
/// and only as the very last step attach the root to `target`.
pub open spec fn dom_ops(t: TreeNode, target: int, base: int) -> Seq<DomOp>
    decreases t,
{
    match t {
        TreeNode::Text { content } => seq![
            DomOp::CreateText { id: base as usize, content },
            DomOp::AppendChild { parent: target as usize, child: base as usize },
        ],
        TreeNode::Element { name, attributes, children } => seq![
            DomOp::CreateElement { id: base as usize, name },
        ] + attr_ops(base, attributes@) + forest_ops(children@, base, base + 1) + seq![
            DomOp::AppendChild { parent: target as usize, child: base as usize },
        ],
    }
}

/// The operation stream for sibling descriptions, built back to back.
pub open spec fn forest_ops(kids: Seq<TreeNode>, target: int, base: int) -> Seq<DomOp>
    decreases kids,
{
    if kids.len() == 0 {
        Seq::empty()
    } else {
        dom_ops(kids.first(), target, base) + forest_ops(
            kids.drop_first(),
            target,
            base + node_count(kids.first()),
        )
    }
}

pub proof fn lemma_forest_ops_snoc(kids: Seq<TreeNode>, last: TreeNode, target: int, base: int)
    ensures
        forest_ops(kids.push(last), target, base) == forest_ops(kids, target, base) + dom_ops(
            last,
            target,
            base + forest_count(kids),
        ),
    decreases kids,
{
    reveal_with_fuel(forest_ops, 3);
    reveal_with_fuel(forest_count, 3);
    if kids.len() == 0 {
        assert(kids.push(last).first() == last);
        assert(kids.push(last).drop_first() =~= Seq::<TreeNode>::empty());
        assert(forest_ops(kids.push(last), target, base) =~= forest_ops(kids, target, base)
            + dom_ops(last, target, base + forest_count(kids)));
    } else {
        assert(kids.push(last).first() == kids.first());
        assert(kids.push(last).drop_first() =~= kids.drop_first().push(last));
        lemma_forest_ops_snoc(kids.drop_first(), last, target, base + node_count(kids.first()));
        lemma_forest_count_snoc(kids.drop_first(), last);
        assert(forest_ops(kids.push(last), target, base) =~= forest_ops(kids, target, base)
            + dom_ops(last, target, base + forest_count(kids)));
    }
}

/// The least node id an operation touches.
pub open spec fn op_floor(op: DomOp) -> int {
    match op {
        DomOp::CreateElement { id, .. } => id as int,
        DomOp::CreateText { id, .. } => id as int,
        DomOp::SetAttribute { id, .. } => id as int,
        DomOp::AppendChild { parent, child } => if parent < child {
            parent as int
        } else {
            child as int
        },
    }
}

/// Build-then-attach: the stream for one subtree ends with the attach
/// of its root onto the target, and every earlier operation stays
/// strictly inside the fresh id range -- so no node that already hangs
/// in the document is touched, and the root becomes a child of the
/// target only once its whole subtree is built.
pub proof fn lemma_attach_comes_last(t: TreeNode, target: int, base: int)
    requires
        0 <= target < base,
        base + node_count(t) <= usize::MAX,
    ensures
        dom_ops(t, target, base).len() >= 1,
        dom_ops(t, target, base).last() == (DomOp::AppendChild {
            parent: target as usize,
            child: base as usize,
        }),
        forall|k: int|
            0 <= k < dom_ops(t, target, base).len() - 1 ==> op_floor(
                #[trigger] dom_ops(t, target, base)[k],
            ) >= base,
    decreases t,
{
    match t {
        TreeNode::Text { .. } => {
        },
        TreeNode::Element { name, attributes, children } => {
            lemma_forest_count_nonneg(children@);
            lemma_forest_ops_floor(children@, base, base + 1);
            let ops = dom_ops(t, target, base);
            let head = seq![DomOp::CreateElement { id: base as usize, name }];
            let setters = attr_ops(base, attributes@);
            let middle = forest_ops(children@, base, base + 1);
            let tail = seq![
                DomOp::AppendChild { parent: target as usize, child: base as usize },
            ];
            assert(ops =~= head + setters + middle + tail);
            assert forall|k: int| 0 <= k < ops.len() - 1 implies op_floor(#[trigger] ops[k])
                >= base by {
                if k == 0 {
                    assert(ops[k] == head[0]);
                } else if k < 1 + setters.len() {
                    assert(ops[k] == setters[k - 1]);
                } else {
                    assert(ops[k] == middle[k - 1 - setters.len()]);
                }
            }
        },
    }
}

/// Every operation in a forest stream stays at or above its target id.
pub proof fn lemma_forest_ops_floor(kids: Seq<TreeNode>, target: int, base: int)
    requires
        0 <= target < base,
        base + forest_count(kids) <= usize::MAX,
    ensures
        forall|k: int|
            0 <= k < forest_ops(kids, target, base).len() ==> op_floor(
                #[trigger] forest_ops(kids, target, base)[k],
            ) >= target,
    decreases kids,
{
    if kids.len() > 0 {
        lemma_counts_positive(kids.first());
        lemma_forest_count_nonneg(kids.drop_first());
        lemma_attach_comes_last(kids.first(), target, base);
        lemma_forest_ops_floor(kids.drop_first(), target, base + node_count(kids.first()));
        let ops = forest_ops(kids, target, base);
        let head = dom_ops(kids.first(), target, base);
        let rest = forest_ops(kids.drop_first(), target, base + node_count(kids.first()));
        assert forall|k: int| 0 <= k < ops.len() implies op_floor(#[trigger] ops[k])
            >= target by {
            if k < head.len() {
                assert(ops[k] == head[k]);
                if k == head.len() - 1 {
                    assert(head[k] == head.last());
                }
            } else {
                assert(ops[k] == rest[k - head.len()]);
            }
        }
    }
}


// ---------------------------------------------------------------------
// The applier.
// ---------------------------------------------------------------------

proof fn lemma_set_attr_update(s: Seq<(String, String)>, key: String, value: String, i: int)
    requires
        0 <= i < s.len(),
        s[i].0@ == key@,
        forall|j: int| 0 <= j < i ==> s[j].0@ != key@,
    ensures
        set_attr_spec(s, key, value) == s.update(i, (key, value)),
    decreases s,
{
    if i == 0 {
        assert(set_attr_spec(s, key, value) =~= s.update(0, (key, value)));
    } else {
        assert(s[0].0@ != key@);
        assert(s.drop_first()[i - 1] == s[i]);
        assert forall|j: int| 0 <= j < i - 1 implies s.drop_first()[j].0@ != key@ by {
            assert(s.drop_first()[j] == s[j + 1]);
        }
        lemma_set_attr_update(s.drop_first(), key, value, i - 1);
        assert(set_attr_spec(s, key, value) =~= s.update(i, (key, value)));
    }
}

proof fn lemma_set_attr_append(s: Seq<(String, String)>, key: String, value: String)
    requires
        forall|j: int| 0 <= j < s.len() ==> s[j].0@ != key@,
    ensures
        set_attr_spec(s, key, value) == s.push((key, value)),
    decreases s,
{
    if s.len() == 0 {
        assert(set_attr_spec(s, key, value) =~= s.push((key, value)));
    } else {
        assert forall|j: int| 0 <= j < s.drop_first().len() implies s.drop_first()[j].0@
            != key@ by {
            assert(s.drop_first()[j] == s[j + 1]);
        }
        lemma_set_attr_append(s.drop_first(), key, value);
        assert(set_attr_spec(s, key, value) =~= s.push((key, value)));
    }
}

/// Write one attribute onto a carried list, as the host does: the
/// first entry with the key is overwritten, else the pair is appended.
fn set_model_attr(attrs: &mut Vec<(String, String)>, key: String, value: String)
    ensures
        final(attrs)@ == set_attr_spec(old(attrs)@, key, value),
{
    let mut i: usize = 0;
    while i < attrs.len()
        invariant
            i <= attrs@.len(),
            attrs@ == old(attrs)@,
            forall|j: int| 0 <= j < i ==> attrs@[j].0@ != key@,
        decreases attrs@.len() - i,
    {
        if attrs[i].0 == key {
            attrs[i] = (key, value);
            proof {
                lemma_set_attr_update(old(attrs)@, key, value, i as int);
            }
            return;
        }
        i = i + 1;
    }
    attrs.push((key, value));
    proof {
        lemma_set_attr_append(old(attrs)@, key, value);
    }
}

/// Materialize `node` under the element `target`: build the whole
/// subtree first, attach it to `target` as the very last step, and
/// append to `log` the primitive operations performed, in order.
pub fn apply_vnode(
    doc: &mut ModelDom,
    log: &mut Vec<DomOp>,
    target: usize,
    node: &TreeNode,
) -> (root: usize)
    requires
        old(doc).wf(),
        target < old(doc).nodes@.len(),
        old(doc).nodes@[target as int].is_element,
    ensures
        final(doc).wf(),
        root == old(doc).nodes@.len(),
        final(doc).nodes@.len() == old(doc).nodes@.len() + node_count(*node),
        forall|i: int|
            0 <= i < old(doc).nodes@.len() && i != target ==> final(doc).nodes@[i] == old(
                doc,
            ).nodes@[i],
        final(doc).nodes@[target as int].is_element,
        final(doc).nodes@[target as int].name == old(doc).nodes@[target as int].name,
        final(doc).nodes@[target as int].text == old(doc).nodes@[target as int].text,
        final(doc).nodes@[target as int].attrs == old(doc).nodes@[target as int].attrs,
        final(doc).nodes@[target as int].children@ == old(doc).nodes@[target as int].children@.push(
            root,
        ),
        tree_built_at(final(doc).nodes@, root as int, *node),
        final(log)@ == old(log)@ + dom_ops(*node, target as int, old(doc).nodes@.len() as int),
    decreases *node,
{
    let root = doc.nodes.len();
    match node {
        TreeNode::Text { content } => {
            log.push(DomOp::CreateText { id: root, content: content.clone() });
            doc.nodes.push(
                ModelNode {
                    is_element: false,
                    name: String::new(),
                    text: content.clone(),
                    attrs: Vec::new(),
                    children: Vec::new(),
                },
            );
            log.push(DomOp::AppendChild { parent: target, child: root });
            let ghost mid = doc.nodes@;
            doc.nodes[target].children.push(root);
            proof {
                assert forall|i: int| 0 <= i < doc.nodes@.len() implies wf_node_at(
                    doc.nodes@,
                    i,
                ) by {
                    if i == target {
                        assert(wf_node_at(old(doc).nodes@, target as int));
                    } else if i < old(doc).nodes@.len() {
                        assert(wf_node_at(old(doc).nodes@, i));
                        assert(doc.nodes@[i] == old(doc).nodes@[i]);
                    } else {
                        assert(doc.nodes@[i] == mid[i]);
                    }
                }
                assert(log@ =~= old(log)@ + dom_ops(
                    *node,
                    target as int,
                    old(doc).nodes@.len() as int,
                ));
            }
            root
        },
        TreeNode::Element { name, attributes, children } => {
            log.push(DomOp::CreateElement { id: root, name: name.clone() });
            let ghost log1 = log@;
            let mut applied: Vec<(String, String)> = Vec::new();
            let mut j: usize = 0;
            while j < attributes.len()
                invariant
                    j <= attributes@.len(),
                    applied@ == attrs_applied(attributes@.take(j as int)),
                    log@ == log1 + attr_ops(root as int, attributes@.take(j as int)),
                decreases attributes@.len() - j,
            {
                let key = attributes[j].0.clone();
                let value = attributes[j].1.clone();
                log.push(DomOp::SetAttribute { id: root, key: key.clone(), value: value.clone() });
                set_model_attr(&mut applied, key, value);
                j = j + 1;
                proof {
                    assert(attributes@.take(j as int).drop_last() =~= attributes@.take(
                        j as int - 1,
                    ));
                    assert(attributes@.take(j as int).last() == attributes@[j as int - 1]);
                    assert(log@ =~= log1 + attr_ops(root as int, attributes@.take(j as int)));
                }
            }
            proof {
                assert(attributes@.take(attributes@.len() as int) =~= attributes@);
            }
            doc.nodes.push(
                ModelNode {
                    is_element: true,
                    name: name.clone(),
                    text: String::new(),
                    attrs: applied,
                    children: Vec::new(),
                },
            );
            proof {
                assert forall|i: int| 0 <= i < doc.nodes@.len() implies wf_node_at(
                    doc.nodes@,
                    i,
                ) by {
                    if i < old(doc).nodes@.len() {
                        assert(wf_node_at(old(doc).nodes@, i));
                        assert(doc.nodes@[i] == old(doc).nodes@[i]);
                    }
                }
            }
            apply_forest(doc, log, root, children);
            proof {
                lemma_forest_count_nonneg(children@);
            }
            log.push(DomOp::AppendChild { parent: target, child: root });
            let ghost pre_attach = doc.nodes@;
            doc.nodes[target].children.push(root);
            proof {
                assert forall|i: int| 0 <= i < doc.nodes@.len() implies wf_node_at(
                    doc.nodes@,
                    i,
                ) by {
                    if i == target {
                        assert(wf_node_at(pre_attach, target as int));
                    } else {
                        assert(wf_node_at(pre_attach, i));
                        assert(doc.nodes@[i] == pre_attach[i]);
                    }
                }
                lemma_forest_built_stable(pre_attach, doc.nodes@, root as int + 1, children@);
                assert(doc.nodes@[root as int].children@ =~= child_ids(root as int, children@));
                assert(tree_built_at(doc.nodes@, root as int, *node));
                assert(log@ =~= old(log)@ + dom_ops(
                    *node,
                    target as int,
                    old(doc).nodes@.len() as int,
                ));
            }
            root
        },
    }
}

/// The ids at which sibling descriptions take root, the first at `base`.
pub open spec fn forest_root_ids(base: int, kids: Seq<TreeNode>) -> Seq<usize> {
    Seq::new(kids.len(), |j: int| (base + forest_count(kids.take(j))) as usize)
}

/// Materialize each description in `kids`, in order, under the element
/// `target`, logging the operations performed.
pub fn apply_forest(doc: &mut ModelDom, log: &mut Vec<DomOp>, target: usize, kids: &Vec<TreeNode>)
    requires
        old(doc).wf(),
        target < old(doc).nodes@.len(),
        old(doc).nodes@[target as int].is_element,
    ensures
        final(doc).wf(),
        final(doc).nodes@.len() == old(doc).nodes@.len() + forest_count(kids@),
        forall|i: int|
            0 <= i < old(doc).nodes@.len() && i != target ==> final(doc).nodes@[i] == old(
                doc,
            ).nodes@[i],
        final(doc).nodes@[target as int].is_element,
        final(doc).nodes@[target as int].name == old(doc).nodes@[target as int].name,
        final(doc).nodes@[target as int].text == old(doc).nodes@[target as int].text,
        final(doc).nodes@[target as int].attrs == old(doc).nodes@[target as int].attrs,
        final(doc).nodes@[target as int].children@ == old(doc).nodes@[target as int].children@
            + forest_root_ids(old(doc).nodes@.len() as int, kids@),
        forest_built_at(final(doc).nodes@, old(doc).nodes@.len() as int, kids@),
        final(log)@ == old(log)@ + forest_ops(kids@, target as int, old(doc).nodes@.len() as int),
    decreases kids@,
{
    let ghost olen: int = old(doc).nodes@.len() as int;
    let mut c: usize = 0;
    proof {
        assert(kids@.take(0) =~= Seq::<TreeNode>::empty());
        assert(forest_root_ids(olen, kids@.take(0)) =~= Seq::<usize>::empty());
        assert(old(doc).nodes@[target as int].children@ + Seq::<usize>::empty() =~= old(
            doc,
        ).nodes@[target as int].children@);
        assert(old(log)@ + forest_ops(kids@.take(0), target as int, olen) =~= old(log)@);
    }
    while c < kids.len()
        invariant
            c <= kids@.len(),
            doc.wf(),
            target < olen,
            olen == old(doc).nodes@.len(),
            old(doc).wf(),
            doc.nodes@.len() == olen + forest_count(kids@.take(c as int)),
            forall|i: int| 0 <= i < olen && i != target ==> doc.nodes@[i] == old(doc).nodes@[i],
            doc.nodes@[target as int].is_element,
            doc.nodes@[target as int].name == old(doc).nodes@[target as int].name,
            doc.nodes@[target as int].text == old(doc).nodes@[target as int].text,
            doc.nodes@[target as int].attrs == old(doc).nodes@[target as int].attrs,
            doc.nodes@[target as int].children@ == old(doc).nodes@[target as int].children@
                + forest_root_ids(olen, kids@.take(c as int)),
            forest_built_at(doc.nodes@, olen, kids@.take(c as int)),
            log@ == old(log)@ + forest_ops(kids@.take(c as int), target as int, olen),
        decreases kids@.len() - c,
    {
        proof {
            lemma_forest_count_nonneg(kids@.take(c as int));
        }
        let ghost prev = doc.nodes@;
        let rid = apply_vnode(doc, log, target, &kids[c]);
        c = c + 1;
        proof {
            let ktc = kids@.take(c as int - 1);
            lemma_forest_count_snoc(ktc, kids@[c as int - 1]);
            lemma_forest_ops_snoc(ktc, kids@[c as int - 1], target as int, olen);
            assert(kids@.take(c as int) =~= ktc.push(kids@[c as int - 1]));
            lemma_forest_built_stable(prev, doc.nodes@, olen, ktc);
            lemma_forest_built_snoc(doc.nodes@, olen, ktc, kids@[c as int - 1]);
            assert(forest_root_ids(olen, kids@.take(c as int)) =~= forest_root_ids(
                olen,
                ktc,
            ).push(rid)) by {
                assert forall|j: int| 0 <= j <= c as int - 1 implies kids@.take(c as int).take(j)
                    =~= kids@.take(j) by {}
                assert forall|j: int| 0 <= j < c as int - 1 implies ktc.take(j) =~= kids@.take(
                    j,
                ) by {}
            }
            assert(doc.nodes@[target as int].children@ =~= old(doc).nodes@[target as int].children@
                + forest_root_ids(olen, kids@.take(c as int)));
            assert(log@ =~= old(log)@ + forest_ops(kids@.take(c as int), target as int, olen));
        }
    }
    proof {
        assert(kids@.take(kids@.len() as int) =~= kids@);
    }
}

/// Materialize the top-level children of `tree` -- whose own root is a
/// purely logical container -- onto the element `target`.
pub fn apply_dom_tree(doc: &mut ModelDom, log: &mut Vec<DomOp>, target: usize, tree: &TreeNode)
    requires
        old(doc).wf(),
        target < old(doc).nodes@.len(),
        old(doc).nodes@[target as int].is_element,
        *tree is Element,
    ensures
        final(doc).wf(),
        final(doc).nodes@.len() == old(doc).nodes@.len() + forest_count(tree->children@),
        forall|i: int|
            0 <= i < old(doc).nodes@.len() && i != target ==> final(doc).nodes@[i] == old(
                doc,
            ).nodes@[i],
        final(doc).nodes@[target as int].is_element,
        final(doc).nodes@[target as int].children@ == old(doc).nodes@[target as int].children@
            + forest_root_ids(old(doc).nodes@.len() as int, tree->children@),
        forest_built_at(final(doc).nodes@, old(doc).nodes@.len() as int, tree->children@),
        final(log)@ == old(log)@ + forest_ops(
            tree->children@,
            target as int,
            old(doc).nodes@.len() as int,
        ),
{
    match tree {
        TreeNode::Text { .. } => {
            proof {
                assert(false);
            }
        },
        TreeNode::Element { children, .. } => {
            apply_forest(doc, log, target, children);
        },
    }
}


/// Materialize a style element carrying `css` as its text content under
/// the element `target`, as one build-then-attach application.
pub fn apply_style_node(doc: &mut ModelDom, log: &mut Vec<DomOp>, target: usize, css: &str) -> (
    root: usize)
    requires
        old(doc).wf(),
        target < old(doc).nodes@.len(),
        old(doc).nodes@[target as int].is_element,
    ensures
        final(doc).wf(),
        root == old(doc).nodes@.len(),
        final(doc).nodes@.len() == old(doc).nodes@.len() + 2,
        forall|i: int|
            0 <= i < old(doc).nodes@.len() && i != target ==> final(doc).nodes@[i] == old(
                doc,
            ).nodes@[i],
        final(doc).nodes@[target as int].children@ == old(doc).nodes@[target as int].children@.push(
            root,
        ),
        final(doc).nodes@[root as int].is_element,
        final(doc).nodes@[root as int].name@ == "style"@,
        final(doc).nodes@[root as int].attrs@.len() == 0,
        final(doc).nodes@[root as int].children@ == seq![(root + 1) as usize],
        !final(doc).nodes@[root as int + 1].is_element,
        final(doc).nodes@[root as int + 1].text@ == css@,
        final(log)@.len() == old(log)@.len() + 4,
        final(log)@[old(log)@.len() as int] matches DomOp::CreateElement { id, name } && id == root
            && name@ == "style"@,
        final(log)@[old(log)@.len() as int + 1] matches DomOp::CreateText { id, content } && id as int
            == root + 1 && content@ == css@,
        final(log)@[old(log)@.len() as int + 2] == (DomOp::AppendChild {
            parent: root,
            child: ((root + 1) as usize),
        }),
        final(log)@[old(log)@.len() as int + 3] == (DomOp::AppendChild { parent: target, child: root }),
{
    let style_name = "style".to_owned();
    let css_text = css.to_owned();
    let mut kids: Vec<TreeNode> = Vec::new();
    kids.push(TreeNode::Text { content: css_text });
    let tree = TreeNode::Element { name: style_name, attributes: Vec::new(), children: kids };
    let root = apply_vnode(doc, log, target, &tree);
    let total = doc.nodes.len();
    proof {
        reveal_with_fuel(forest_count, 3);
        reveal_with_fuel(forest_ops, 3);
        let kseq = tree->children@;
        assert(kseq.len() == 1);
        assert(kseq.drop_first() =~= Seq::<TreeNode>::empty());
        assert(kseq.take(0) =~= Seq::<TreeNode>::empty());
        assert(forest_count(kseq) == 1);
        assert(node_count(tree) == 2);
        assert(total as int == root + 2);
        assert(root + 2 <= usize::MAX);
        assert(tree_built_at(doc.nodes@, root as int, tree));
        assert(doc.nodes@[root as int].children@ =~= seq![(root + 1) as usize]) by {
            assert(doc.nodes@[root as int].children@ == child_ids(root as int, kseq));
            assert(child_ids(root as int, kseq).len() == 1);
            assert(child_ids(root as int, kseq)[0] == ((root as int + 1 + forest_count(
                kseq.take(0),
            )) as usize));
        }
        assert(forest_built_at(doc.nodes@, root as int + 1, kseq));
        assert(tree_built_at(doc.nodes@, root as int + 1, kseq.first()));
        assert(attrs_applied(Seq::<(String, String)>::empty()) =~= Seq::<(String, String)>::empty());
        let ops = dom_ops(tree, target as int, root as int);
        assert(log@ == old(log)@ + ops);
        let head = seq![DomOp::CreateElement { id: root, name: tree->name }];
        let setters = attr_ops(root as int, Seq::<(String, String)>::empty());
        let middle = forest_ops(kseq, root as int, root as int + 1);
        let tail = seq![DomOp::AppendChild { parent: target, child: root }];
        assert(setters.len() == 0);
        assert(middle =~= dom_ops(kseq.first(), root as int, root as int + 1) + Seq::<
            DomOp,
        >::empty());
        assert(middle.len() == 2);
        assert(ops =~= head + setters + middle + tail);
        assert(ops.len() == 4);
        assert(ops[0] == head[0]);
        assert(ops[1] == middle[0]);
        assert(ops[2] == middle[1]);
        assert(ops[3] == tail[0]);
        assert(middle[0] == dom_ops(kseq.first(), root as int, root as int + 1)[0]);
        assert(middle[1] == dom_ops(kseq.first(), root as int, root as int + 1)[1]);
    }
    root
}

} // verus!
