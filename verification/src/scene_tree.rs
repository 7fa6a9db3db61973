//! The scene hierarchy: nodes by id, each listing its children and naming
//! its parent, and the ids shown at the top level.
use vstd::prelude::*;
use crate::assoc::find_key;
use crate::assoc::keys_distinct;
use crate::assoc::lemma_pairs_lookup;
use crate::assoc::lemma_pairs_map;
use crate::assoc::lemma_pairs_map_push;
use crate::assoc::lemma_pairs_map_remove;
use crate::assoc::lemma_pairs_map_update;
use crate::assoc::pairs_map;
use crate::panels::NodeType;
use crate::text::contains_text;
use crate::text::copy_string;
use crate::text::lowercase;
use crate::text::opt_text;
use crate::text::str_contains;
use crate::text::to_lowercase;
use crate::text::texts;

verus! {

/// A node of the scene tree. `P` and `N` are the physics and navigation
/// mesh components that a node may carry.
#[derive(Debug, Clone)]
pub struct SceneNodeData<P, N> {
    pub id: String,
    pub name: String,
    pub children: Vec<String>,
    pub parent: Option<String>,
    pub visible: bool,
    pub locked: bool,
    pub node_type: NodeType,
    pub asset_source_uuid: Option<String>,
    pub prefab_ref_uuid: Option<String>,
    pub physics: Option<P>,
    pub navmesh: Option<N>,
}

/// What a [`SceneNodeData`] holds, with its strings as texts.
pub struct NodeView<P, N> {
    pub id: Seq<char>,
    pub name: Seq<char>,
    pub children: Seq<Seq<char>>,
    pub parent: Option<Seq<char>>,
    pub visible: bool,
    pub locked: bool,
    pub node_type: NodeType,
    pub asset_source_uuid: Option<Seq<char>>,
    pub prefab_ref_uuid: Option<Seq<char>>,
    pub physics: Option<P>,
    pub navmesh: Option<N>,
}

impl<P, N> View for SceneNodeData<P, N> {
    type V = NodeView<P, N>;

    open spec fn view(&self) -> NodeView<P, N> {
        NodeView {
            id: self.id@,
            name: self.name@,
            children: texts(self.children@),
            parent: opt_text(self.parent),
            visible: self.visible,
            locked: self.locked,
            node_type: self.node_type,
            asset_source_uuid: opt_text(self.asset_source_uuid),
            prefab_ref_uuid: opt_text(self.prefab_ref_uuid),
            physics: self.physics,
            navmesh: self.navmesh,
        }
    }
}

/// The abstract scene tree: the nodes by id, and the top-level ids in the
/// order they were added (an id may occur more than once).
pub struct TreeView<P, N> {
    pub nodes: Map<Seq<char>, NodeView<P, N>>,
    pub roots: Seq<Seq<char>>,
}

/// The children listed by the node `id`, none when there is no such node.
pub open spec fn kids<P, N>(m: Map<Seq<char>, NodeView<P, N>>, id: Seq<char>) -> Seq<Seq<char>> {
    if m.contains_key(id) {
        m[id].children
    } else {
        Seq::empty()
    }
}

/// The tree after `add_node`: the node is stored under its id (replacing
/// any node stored there); it is listed among its parent's children when
/// the parent is stored (the node itself included), and at the top level
/// otherwise.
pub open spec fn after_add<P, N>(t: TreeView<P, N>, node: NodeView<P, N>) -> TreeView<P, N> {
    let m1 = t.nodes.insert(node.id, node);
    match node.parent {
        Some(pid) => if m1.contains_key(pid) {
            TreeView {
                nodes: m1.insert(pid, NodeView { children: m1[pid].children.push(node.id), ..m1[pid] }),
                roots: t.roots,
            }
        } else {
            TreeView { nodes: m1, roots: t.roots.push(node.id) }
        },
        None => TreeView { nodes: m1, roots: t.roots.push(node.id) },
    }
}

/// The ids of the subtree of `id`, depth first with each node before its
/// children, followed at most `fuel` levels down. A listed child that is
/// not stored counts as a leaf.
pub open spec fn preorder<P, N>(m: Map<Seq<char>, NodeView<P, N>>, id: Seq<char>, fuel: nat) -> Seq<Seq<char>>
    decreases fuel, 0nat,
{
    if fuel == 0 {
        seq![id]
    } else {
        seq![id] + preorder_all(m, kids(m, id), (fuel - 1) as nat)
    }
}

/// The subtrees of several ids, one after the other.
pub open spec fn preorder_all<P, N>(m: Map<Seq<char>, NodeView<P, N>>, ids: Seq<Seq<char>>, fuel: nat) -> Seq<Seq<char>>
    decreases fuel, ids.len() + 1,
{
    if ids.len() == 0 {
        Seq::empty()
    } else {
        preorder_all(m, ids.drop_last(), fuel) + preorder(m, ids.last(), fuel)
    }
}

/// `rank` decreases from every stored node to each of its stored children.
pub open spec fn ranked<P, N>(m: Map<Seq<char>, NodeView<P, N>>, rank: spec_fn(Seq<char>) -> nat) -> bool {
    forall|id: Seq<char>, j: int|
        m.contains_key(id) && 0 <= j < m[id].children.len() && m.contains_key(#[trigger] m[id].children[j])
            ==> rank(m[id].children[j]) < rank(id)
}

/// No node is its own descendant: some rank below the number of nodes
/// decreases along every parent-to-child link.
pub open spec fn acyclic<P, N>(m: Map<Seq<char>, NodeView<P, N>>) -> bool {
    exists|rank: spec_fn(Seq<char>) -> nat|
        #[trigger] ranked(m, rank) && forall|id: Seq<char>| m.contains_key(id) ==> #[trigger] rank(id) < m.dom().len()
}

/// The whole subtree of `id` (in an acyclic tree no path is longer than
/// the number of nodes).
pub open spec fn subtree<P, N>(m: Map<Seq<char>, NodeView<P, N>>, id: Seq<char>) -> Seq<Seq<char>> {
    preorder(m, id, m.dom().len())
}

/// The ids of `s` that are not in `gone`, in order.
pub open spec fn without(s: Seq<Seq<char>>, gone: Set<Seq<char>>) -> Seq<Seq<char>>
    decreases s.len(),
{
    if s.len() == 0 {
        s
    } else if gone.contains(s.last()) {
        without(s.drop_last(), gone)
    } else {
        without(s.drop_last(), gone).push(s.last())
    }
}

/// Every child of a stored node of `s` is in `s`.
pub open spec fn closed<P, N>(m: Map<Seq<char>, NodeView<P, N>>, s: Seq<Seq<char>>) -> bool {
    forall|x: Seq<char>, j: int|
        s.contains(x) && m.contains_key(x) && 0 <= j < m[x].children.len() ==> s.contains(#[trigger] m[x].children[j])
}

proof fn lemma_concat_contains(a: Seq<Seq<char>>, b: Seq<Seq<char>>, x: Seq<char>)
    ensures
        (a + b).contains(x) <==> a.contains(x) || b.contains(x),
{
    if (a + b).contains(x) {
        let i = choose|i: int| 0 <= i < (a + b).len() && (a + b)[i] == x;
        if i >= a.len() {
            assert(b[i - a.len()] == x);
        }
    }
    if a.contains(x) {
        let i = choose|i: int| 0 <= i < a.len() && a[i] == x;
        assert((a + b)[i] == x);
    }
    if b.contains(x) {
        let i = choose|i: int| 0 <= i < b.len() && b[i] == x;
        assert((a + b)[a.len() + i] == x);
    }
}

/// Each listed id heads its own subtree in the list of subtrees.
proof fn lemma_lists_its_ids<P, N>(m: Map<Seq<char>, NodeView<P, N>>, ids: Seq<Seq<char>>, fuel: nat)
    ensures
        forall|j: int| 0 <= j < ids.len() ==> preorder_all(m, ids, fuel).contains(#[trigger] ids[j]),
    decreases ids.len(),
{
    if ids.len() > 0 {
        lemma_lists_its_ids(m, ids.drop_last(), fuel);
        let a = preorder_all(m, ids.drop_last(), fuel);
        let b = preorder(m, ids.last(), fuel);
        assert(b[0] == ids.last());
        assert forall|j: int| 0 <= j < ids.len() implies preorder_all(m, ids, fuel).contains(#[trigger] ids[j]) by {
            if j < ids.len() - 1 {
                assert(ids.drop_last()[j] == ids[j]);
                lemma_concat_contains(a, b, ids[j]);
            } else {
                lemma_concat_contains(a, b, ids[j]);
            }
        }
    }
}

/// A subtree followed deep enough holds every child of each stored node
/// it lists.
proof fn lemma_preorder_closed<P, N>(
    m: Map<Seq<char>, NodeView<P, N>>,
    rank: spec_fn(Seq<char>) -> nat,
    c: Seq<char>,
    fuel: nat,
)
    requires
        ranked(m, rank),
        m.contains_key(c) ==> rank(c) < fuel,
    ensures
        closed(m, preorder(m, c, fuel)),
    decreases fuel, 0nat,
{
    if fuel > 0 {
        let ks = kids(m, c);
        let f1 = (fuel - 1) as nat;
        assert forall|j: int| 0 <= j < ks.len() && m.contains_key(ks[j]) implies rank(#[trigger] ks[j]) < f1 by {
            assert(m[c].children[j] == ks[j]);
        }
        lemma_preorder_all_closed(m, rank, ks, f1);
        lemma_lists_its_ids(m, ks, f1);
        let a = preorder_all(m, ks, f1);
        let s = seq![c] + a;
        assert forall|x: Seq<char>, j: int|
            s.contains(x) && m.contains_key(x) && 0 <= j < m[x].children.len() implies s.contains(#[trigger] m[x].children[j]) by {
            lemma_concat_contains(seq![c], a, x);
            lemma_concat_contains(seq![c], a, m[x].children[j]);
            if x == c {
                assert(ks[j] == m[x].children[j]);
            }
        }
    }
}

/// The list of subtrees of several ids is closed in the same way.
proof fn lemma_preorder_all_closed<P, N>(
    m: Map<Seq<char>, NodeView<P, N>>,
    rank: spec_fn(Seq<char>) -> nat,
    ids: Seq<Seq<char>>,
    fuel: nat,
)
    requires
        ranked(m, rank),
        forall|j: int| 0 <= j < ids.len() && m.contains_key(ids[j]) ==> rank(#[trigger] ids[j]) < fuel,
    ensures
        closed(m, preorder_all(m, ids, fuel)),
    decreases fuel, ids.len() + 1,
{
    if ids.len() > 0 {
        let d = ids.drop_last();
        assert forall|j: int| 0 <= j < d.len() && m.contains_key(d[j]) implies rank(#[trigger] d[j]) < fuel by {
            assert(d[j] == ids[j]);
        }
        lemma_preorder_all_closed(m, rank, d, fuel);
        lemma_preorder_closed(m, rank, ids.last(), fuel);
        let a = preorder_all(m, d, fuel);
        let b = preorder(m, ids.last(), fuel);
        assert forall|x: Seq<char>, j: int|
            (a + b).contains(x) && m.contains_key(x) && 0 <= j < m[x].children.len() implies (a + b).contains(
                #[trigger] m[x].children[j],
            ) by {
            lemma_concat_contains(a, b, x);
            lemma_concat_contains(a, b, m[x].children[j]);
        }
    }
}

/// Below an id of a closed list, a subtree stays inside the list.
proof fn lemma_preorder_inside<P, N>(m: Map<Seq<char>, NodeView<P, N>>, u: Seq<Seq<char>>, c: Seq<char>, fuel: nat)
    requires
        closed(m, u),
        u.contains(c),
    ensures
        forall|x: Seq<char>| preorder(m, c, fuel).contains(x) ==> u.contains(x),
    decreases fuel, 0nat,
{
    if fuel > 0 {
        let ks = kids(m, c);
        let f1 = (fuel - 1) as nat;
        assert forall|j: int| 0 <= j < ks.len() implies u.contains(#[trigger] ks[j]) by {
            assert(m[c].children[j] == ks[j]);
        }
        lemma_preorder_all_inside(m, u, ks, f1);
        assert forall|x: Seq<char>| preorder(m, c, fuel).contains(x) implies u.contains(x) by {
            lemma_concat_contains(seq![c], preorder_all(m, ks, f1), x);
            if x == c {
            } else {
                assert(!seq![c].contains(x));
            }
        }
    }
}

/// The subtrees of ids of a closed list stay inside the list.
proof fn lemma_preorder_all_inside<P, N>(
    m: Map<Seq<char>, NodeView<P, N>>,
    u: Seq<Seq<char>>,
    ids: Seq<Seq<char>>,
    fuel: nat,
)
    requires
        closed(m, u),
        forall|j: int| 0 <= j < ids.len() ==> u.contains(#[trigger] ids[j]),
    ensures
        forall|x: Seq<char>| preorder_all(m, ids, fuel).contains(x) ==> u.contains(x),
    decreases fuel, ids.len() + 1,
{
    if ids.len() > 0 {
        let d = ids.drop_last();
        assert forall|j: int| 0 <= j < d.len() implies u.contains(#[trigger] d[j]) by {
            assert(d[j] == ids[j]);
        }
        lemma_preorder_all_inside(m, u, d, fuel);
        lemma_preorder_inside(m, u, ids.last(), fuel);
        assert forall|x: Seq<char>| preorder_all(m, ids, fuel).contains(x) implies u.contains(x) by {
            lemma_concat_contains(preorder_all(m, d, fuel), preorder(m, ids.last(), fuel), x);
        }
    }
}

/// Taking a closed list of ids out of the tree changes a subtree only by
/// the ids of that list.
proof fn lemma_preorder_restrict<P, N>(m: Map<Seq<char>, NodeView<P, N>>, u: Seq<Seq<char>>, c: Seq<char>, fuel: nat)
    requires
        closed(m, u),
    ensures
        forall|x: Seq<char>| preorder(m.remove_keys(u.to_set()), c, fuel).contains(x) ==> preorder(m, c, fuel).contains(x),
        forall|x: Seq<char>|
            preorder(m, c, fuel).contains(x) ==> u.contains(x) || preorder(m.remove_keys(u.to_set()), c, fuel).contains(x),
    decreases fuel, 0nat,
{
    let r = m.remove_keys(u.to_set());
    if fuel > 0 {
        let f1 = (fuel - 1) as nat;
        if u.contains(c) {
            lemma_preorder_inside(m, u, c, fuel);
            assert(!r.contains_key(c));
            assert(preorder_all(r, kids(r, c), f1) =~= Seq::<Seq<char>>::empty());
            assert(preorder(r, c, fuel) =~= seq![c]);
            assert forall|x: Seq<char>| preorder(r, c, fuel).contains(x) implies preorder(m, c, fuel).contains(x) by {
                assert(preorder(m, c, fuel)[0] == c);
            }
        } else {
            assert(kids(r, c) == kids(m, c));
            lemma_preorder_all_restrict(m, u, kids(m, c), f1);
            let a = preorder_all(m, kids(m, c), f1);
            let b = preorder_all(r, kids(m, c), f1);
            assert forall|x: Seq<char>| preorder(r, c, fuel).contains(x) implies preorder(m, c, fuel).contains(x) by {
                lemma_concat_contains(seq![c], a, x);
                lemma_concat_contains(seq![c], b, x);
            }
            assert forall|x: Seq<char>| preorder(m, c, fuel).contains(x) implies u.contains(x) || preorder(r, c, fuel).contains(x) by {
                lemma_concat_contains(seq![c], a, x);
                lemma_concat_contains(seq![c], b, x);
            }
        }
    }
}

/// The same for the subtrees of several ids.
proof fn lemma_preorder_all_restrict<P, N>(
    m: Map<Seq<char>, NodeView<P, N>>,
    u: Seq<Seq<char>>,
    ids: Seq<Seq<char>>,
    fuel: nat,
)
    requires
        closed(m, u),
    ensures
        forall|x: Seq<char>|
            preorder_all(m.remove_keys(u.to_set()), ids, fuel).contains(x) ==> preorder_all(m, ids, fuel).contains(x),
        forall|x: Seq<char>|
            preorder_all(m, ids, fuel).contains(x) ==> u.contains(x) || preorder_all(m.remove_keys(u.to_set()), ids, fuel).contains(x),
    decreases fuel, ids.len() + 1,
{
    let r = m.remove_keys(u.to_set());
    if ids.len() > 0 {
        let d = ids.drop_last();
        lemma_preorder_all_restrict(m, u, d, fuel);
        lemma_preorder_restrict(m, u, ids.last(), fuel);
        let a = preorder_all(m, d, fuel);
        let b = preorder(m, ids.last(), fuel);
        let a2 = preorder_all(r, d, fuel);
        let b2 = preorder(r, ids.last(), fuel);
        assert forall|x: Seq<char>| preorder_all(r, ids, fuel).contains(x) implies preorder_all(m, ids, fuel).contains(x) by {
            lemma_concat_contains(a, b, x);
            lemma_concat_contains(a2, b2, x);
        }
        assert forall|x: Seq<char>| preorder_all(m, ids, fuel).contains(x) implies u.contains(x) || preorder_all(r, ids, fuel).contains(x) by {
            lemma_concat_contains(a, b, x);
            lemma_concat_contains(a2, b2, x);
        }
    }
}

/// Leaving out one set of ids and then another leaves out both.
proof fn lemma_without_twice(s: Seq<Seq<char>>, a: Set<Seq<char>>, b: Set<Seq<char>>)
    ensures
        without(without(s, a), b) == without(s, a.union(b)),
    decreases s.len(),
{
    if s.len() > 0 {
        lemma_without_twice(s.drop_last(), a, b);
        if !a.contains(s.last()) {
            let w = without(s.drop_last(), a).push(s.last());
            assert(w.drop_last() =~= without(s.drop_last(), a));
        }
    }
}

/// Taking keys out of a ranked tree keeps it ranked.
proof fn lemma_ranked_remove_keys<P, N>(m: Map<Seq<char>, NodeView<P, N>>, rank: spec_fn(Seq<char>) -> nat, gone: Set<Seq<char>>)
    requires
        ranked(m, rank),
    ensures
        ranked(m.remove_keys(gone), rank),
{
    let r = m.remove_keys(gone);
    assert forall|id: Seq<char>, j: int|
        r.contains_key(id) && 0 <= j < r[id].children.len() && r.contains_key(#[trigger] r[id].children[j]) implies rank(
            r[id].children[j],
        ) < rank(id) by {
        assert(r[id] == m[id]);
        assert(m.contains_key(m[id].children[j]));
    }
}

/// Leaving out nothing keeps the list.
proof fn lemma_without_none(s: Seq<Seq<char>>, gone: Set<Seq<char>>)
    requires
        gone =~= Set::<Seq<char>>::empty(),
    ensures
        without(s, gone) == s,
    decreases s.len(),
{
    if s.len() > 0 {
        lemma_without_none(s.drop_last(), gone);
        assert(s.drop_last().push(s.last()) =~= s);
    }
}

/// A subtree is its root and the subtrees of the root's children.
proof fn lemma_preorder_split<P, N>(m: Map<Seq<char>, NodeView<P, N>>, id: Seq<char>, fuel: nat)
    requires
        fuel > 0 || kids(m, id).len() == 0,
    ensures
        preorder(m, id, fuel).to_set() == preorder_all(m, kids(m, id), (fuel - 1) as nat).to_set().union(set![id]),
{
    let pre = preorder(m, id, fuel);
    let u = preorder_all(m, kids(m, id), (fuel - 1) as nat);
    if fuel == 0 {
        assert(u =~= Seq::<Seq<char>>::empty());
        assert(pre =~= seq![id]);
    } else {
        assert(pre == seq![id] + u);
    }
    assert forall|x: Seq<char>| pre.contains(x) <==> (x == id || u.contains(x)) by {
        let one = seq![id];
        if one.contains(x) {
            let i = choose|i: int| 0 <= i < one.len() && one[i] == x;
            assert(i == 0);
        }
        if x == id {
            assert(one[0] == x);
        }
        if fuel > 0 {
            lemma_concat_contains(one, u, x);
        } else {
            assert(!u.contains(x));
        }
    }
    assert(pre.to_set() =~= u.to_set().union(set![id]));
}

/// Copies a list of strings.
fn copy_strings(v: &Vec<String>) -> (r: Vec<String>)
    ensures
        texts(r@) == texts(v@),
{
    let mut r: Vec<String> = Vec::new();
    let mut i: usize = 0;
    while i < v.len()
        invariant
            i <= v@.len(),
            texts(r@) == texts(v@.take(i as int)),
        decreases v@.len() - i,
    {
        let ghost before = r@;
        r.push(copy_string(&v[i]));
        proof {
            assert(v@.take(i + 1) =~= v@.take(i as int).push(v@[i as int]));
            assert(texts(r@) =~= texts(before).push(v@[i as int]@));
            assert(texts(v@.take(i + 1)) =~= texts(v@.take(i as int)).push(v@[i as int]@));
        }
        i = i + 1;
    }
    assert(v@.take(v@.len() as int) =~= v@);
    r
}

/// The stored nodes among `ids`, in order.
pub open spec fn stored_only<P, N>(m: Map<Seq<char>, NodeView<P, N>>, ids: Seq<Seq<char>>) -> Seq<NodeView<P, N>>
    decreases ids.len(),
{
    if ids.len() == 0 {
        Seq::empty()
    } else if m.contains_key(ids.last()) {
        stored_only(m, ids.drop_last()).push(m[ids.last()])
    } else {
        stored_only(m, ids.drop_last())
    }
}

/// Whether a node name passes the hierarchy's search box: an empty filter
/// passes everything; otherwise the lower-case name must contain the
/// lower-case filter.
pub open spec fn name_matches(name: Seq<char>, filter: Seq<char>) -> bool {
    filter.len() == 0 || contains_text(lowercase(name), lowercase(filter))
}

/// How deep the walk of [`SceneNodeTree::collect_subtree_nodes`] goes
/// before it stops, in case the links form a cycle.
pub const MAX_SUBTREE_DEPTH: usize = 2048;

/// The ids met below `id` by a walk of at most `levels` levels that skips
/// a node listed as its own child: each child, then what lies below it.
pub open spec fn below<P, N>(m: Map<Seq<char>, NodeView<P, N>>, id: Seq<char>, levels: nat) -> Seq<Seq<char>>
    decreases levels, 0nat,
{
    if levels == 0 {
        Seq::empty()
    } else {
        below_all(m, id, kids(m, id), (levels - 1) as nat)
    }
}

/// The walk over the children `ids` of `parent`.
pub open spec fn below_all<P, N>(
    m: Map<Seq<char>, NodeView<P, N>>,
    parent: Seq<char>,
    ids: Seq<Seq<char>>,
    levels: nat,
) -> Seq<Seq<char>>
    decreases levels, ids.len() + 1,
{
    if ids.len() == 0 {
        Seq::empty()
    } else if ids.last() == parent {
        below_all(m, parent, ids.drop_last(), levels)
    } else {
        below_all(m, parent, ids.drop_last(), levels) + seq![ids.last()] + below(m, ids.last(), levels)
    }
}

/// The stored pairs with their keys as texts and their nodes as views.
pub open spec fn node_pairs<P, N>(s: Seq<(String, SceneNodeData<P, N>)>) -> Seq<(Seq<char>, NodeView<P, N>)> {
    s.map_values(|p: (String, SceneNodeData<P, N>)| (p.0@, p.1@))
}

/// The scene tree shown by the hierarchy panel.
pub struct SceneNodeTree<P, N> {
    nodes: Vec<(String, SceneNodeData<P, N>)>,
    root_ids: Vec<String>,
}

impl<P, N> View for SceneNodeTree<P, N> {
    type V = TreeView<P, N>;

    closed spec fn view(&self) -> TreeView<P, N> {
        TreeView { nodes: pairs_map(node_pairs(self.nodes@)), roots: texts(self.root_ids@) }
    }
}

impl<P, N> SceneNodeTree<P, N> {
    /// Each id is stored once.
    pub closed spec fn wf(&self) -> bool {
        keys_distinct(node_pairs(self.nodes@))
    }

    /// An empty tree.
    pub fn new() -> (t: Self)
        ensures
            t.wf(),
            t@.nodes == Map::<Seq<char>, NodeView<P, N>>::empty(),
            t@.roots == Seq::<Seq<char>>::empty(),
    {
        let t = SceneNodeTree { nodes: Vec::new(), root_ids: Vec::new() };
        assert(node_pairs(t.nodes@) =~= Seq::empty());
        assert(texts(t.root_ids@) =~= Seq::empty());
        t
    }

    /// Where the node `id` is stored.
    fn position(&self, id: &str) -> (r: Option<usize>)
        requires
            self.wf(),
        ensures
            self@.nodes.contains_key(id@) == r is Some,
            r matches Some(i) ==> i < self.nodes@.len() && self.nodes@[i as int].0@ == id@
                && self@.nodes[id@] == self.nodes@[i as int].1@,
    {
        let r = find_key(&self.nodes, id);
        proof {
            let s = node_pairs(self.nodes@);
            match r {
                Some(i) => {
                    assert(s[i as int].0 == id@);
                },
                None => {
                    assert forall|j: int| 0 <= j < s.len() implies s[j].0 != id@ by {
                        assert(s[j].0 == self.nodes@[j].0@);
                    }
                },
            }
            lemma_pairs_lookup(s, id@, r);
        }
        r
    }

    /// Adds a node and links it to its parent, or to the top level when it
    /// has no parent or its parent is not in the tree.
    pub fn add_node(&mut self, node: SceneNodeData<P, N>)
        requires
            old(self).wf(),
        ensures
            final(self).wf(),
            final(self)@ == after_add(old(self)@, node@),
    {
        let ghost nv = node@;
        let ghost es = node_pairs(self.nodes@);
        let id = copy_string(&node.id);
        let key = copy_string(&node.id);
        let parent: Option<String> = match &node.parent {
            Some(p) => Some(copy_string(p)),
            None => None,
        };
        match self.position(id.as_str()) {
            Some(i) => {
                self.nodes.set(i, (key, node));
                proof {
                    assert(node_pairs(self.nodes@) =~= es.update(i as int, (es[i as int].0, nv)));
                    lemma_pairs_map_update(es, i as int, nv);
                }
            },
            None => {
                self.nodes.push((key, node));
                proof {
                    lemma_pairs_map(es);
                    assert forall|j: int| 0 <= j < es.len() implies es[j].0 != nv.id by {
                        assert(pairs_map(es).contains_key(es[j].0));
                    }
                    assert(node_pairs(self.nodes@) =~= es.push((nv.id, nv)));
                    lemma_pairs_map_push(es, nv.id, nv);
                }
            },
        }
        let ghost m1 = self@.nodes;
        let ghost roots0 = self.root_ids@;
        match parent {
            None => {
                self.root_ids.push(id);
                assert(texts(self.root_ids@) =~= texts(roots0).push(nv.id));
            },
            Some(pid) => {
                match self.position(pid.as_str()) {
                    None => {
                        self.root_ids.push(id);
                        assert(texts(self.root_ids@) =~= texts(roots0).push(nv.id));
                    },
                    Some(j) => {
                        let ghost before = self.nodes@;
                        let ghost ps = node_pairs(before);
                        let (k, d) = self.nodes.remove(j);
                        let ghost old_view = d@;
                        let mut d = d;
                        d.children.push(id);
                        let ghost new_view = d@;
                        proof {
                            assert(texts(d.children@) =~= old_view.children.push(nv.id));
                            assert(new_view == NodeView { children: old_view.children.push(nv.id), ..old_view });
                        }
                        self.nodes.insert(j, (k, d));
                        proof {
                            assert(self.nodes@ =~= before.update(j as int, (k, d)));
                            let upd = ps.update(j as int, (ps[j as int].0, new_view));
                            assert forall|q: int| 0 <= q < ps.len() implies node_pairs(self.nodes@)[q] == upd[q] by {
                                if q != j as int {
                                    assert(self.nodes@[q] == before[q]);
                                }
                            }
                            assert(node_pairs(self.nodes@) =~= upd);
                            lemma_pairs_map_update(ps, j as int, new_view);
                        }
                    },
                }
            },
        }
    }

    /// The ids of the subtree of `id`, followed `fuel` levels down.
    fn collect_rec(&self, id: &str, Ghost(rank): Ghost<spec_fn(Seq<char>) -> nat>, Ghost(fuel): Ghost<nat>) -> (r: Vec<
        String,
    >)
        requires
            self.wf(),
            ranked(self@.nodes, rank),
            self@.nodes.contains_key(id@) ==> rank(id@) < fuel,
        ensures
            texts(r@) == preorder(self@.nodes, id@, fuel),
        decreases fuel,
    {
        let ghost m = self@.nodes;
        let mut result: Vec<String> = Vec::new();
        result.push(String::from_str(id));
        assert(texts(result@) =~= seq![id@]);
        match self.position(id) {
            None => {
                proof {
                    assert(kids(m, id@) =~= Seq::<Seq<char>>::empty());
                    if fuel > 0 {
                        assert(preorder(m, id@, fuel) =~= seq![id@]);
                    }
                }
                result
            },
            Some(i) => {
                let children = &self.nodes[i].1.children;
                let ghost ks = kids(m, id@);
                let ghost f1 = (fuel - 1) as nat;
                assert(texts(children@) == ks);
                let mut j: usize = 0;
                while j < children.len()
                    invariant
                        self.wf(),
                        m == self@.nodes,
                        ranked(m, rank),
                        m.contains_key(id@),
                        rank(id@) < fuel,
                        f1 == fuel - 1,
                        ks == m[id@].children,
                        texts(children@) == ks,
                        j <= children@.len(),
                        texts(result@) == seq![id@] + preorder_all(m, ks.take(j as int), f1),
                    decreases children@.len() - j,
                {
                    let ghost before = texts(result@);
                    proof {
                        assert(ks[j as int] == children@[j as int]@);
                        assert(m[id@].children[j as int] == ks[j as int]);
                    }
                    let mut sub = self.collect_rec(children[j].as_str(), Ghost(rank), Ghost(f1));
                    let ghost sub_texts = texts(sub@);
                    let ghost old_result = result@;
                    result.append(&mut sub);
                    proof {
                        assert(texts(result@) =~= texts(old_result) + sub_texts);
                        assert(ks.take(j + 1).drop_last() =~= ks.take(j as int));
                        assert(ks.take(j + 1).last() == ks[j as int]);
                        assert(texts(result@) =~= seq![id@] + preorder_all(m, ks.take(j + 1), f1));
                    }
                    j = j + 1;
                }
                assert(ks.take(ks.len() as int) =~= ks);
                result
            },
        }
    }

    /// The ids of the subtree of `id`: `id` first, then the subtree of
    /// each child in turn. A listed child that is not stored is a leaf.
    pub fn collect_subtree_ids(&self, id: &str) -> (r: Vec<String>)
        requires
            self.wf(),
            acyclic(self@.nodes),
        ensures
            texts(r@) == subtree(self@.nodes, id@),
    {
        let ghost m = self@.nodes;
        let ghost rank = choose|rank: spec_fn(Seq<char>) -> nat|
            #[trigger] ranked(m, rank) && forall|k: Seq<char>| m.contains_key(k) ==> #[trigger] rank(k) < m.dom().len();
        self.collect_rec(id, Ghost(rank), Ghost(m.dom().len()))
    }

    /// Takes every occurrence of `id` off the top level.
    fn drop_root(&mut self, id: &str)
        ensures
            final(self).nodes == old(self).nodes,
            final(self)@.roots == without(old(self)@.roots, set![id@]),
    {
        let ghost r0 = texts(self.root_ids@);
        let mut kept: Vec<String> = Vec::new();
        let mut k: usize = 0;
        while k < self.root_ids.len()
            invariant
                k <= self.root_ids@.len(),
                r0 == texts(self.root_ids@),
                texts(kept@) == without(r0.take(k as int), set![id@]),
            decreases self.root_ids@.len() - k,
        {
            let ghost t = r0.take(k + 1);
            proof {
                assert(t.drop_last() =~= r0.take(k as int));
                assert(t.last() == self.root_ids@[k as int]@);
            }
            if !crate::text::str_eq(self.root_ids[k].as_str(), id) {
                let ghost old_kept = texts(kept@);
                kept.push(copy_string(&self.root_ids[k]));
                assert(texts(kept@) =~= old_kept.push(self.root_ids@[k as int]@));
            }
            k = k + 1;
        }
        assert(r0.take(r0.len() as int) =~= r0);
        self.root_ids = kept;
    }

    /// Removes the subtree of `id`, followed `fuel` levels down.
    fn remove_rec(&mut self, id: &str, Ghost(rank): Ghost<spec_fn(Seq<char>) -> nat>, Ghost(fuel): Ghost<nat>)
        requires
            old(self).wf(),
            ranked(old(self)@.nodes, rank),
            old(self)@.nodes.contains_key(id@) ==> rank(id@) < fuel,
        ensures
            final(self).wf(),
            final(self)@.nodes == old(self)@.nodes.remove_keys(preorder(old(self)@.nodes, id@, fuel).to_set()),
            final(self)@.roots == without(old(self)@.roots, preorder(old(self)@.nodes, id@, fuel).to_set()),
        decreases fuel,
    {
        let ghost m0 = self@.nodes;
        let ghost r0 = self@.roots;
        let ghost ks = kids(m0, id@);
        let ghost f1 = (fuel - 1) as nat;
        let children: Vec<String> = match self.position(id) {
            Some(i) => copy_strings(&self.nodes[i].1.children),
            None => Vec::new(),
        };
        assert(texts(children@) =~= ks);
        assert(preorder_all(m0, ks.take(0), f1) =~= Seq::<Seq<char>>::empty());
        assert(m0.remove_keys(Seq::<Seq<char>>::empty().to_set()) =~= m0);
        proof {
            lemma_without_none(r0, Seq::<Seq<char>>::empty().to_set());
        }
        let mut j: usize = 0;
        while j < children.len()
            invariant
                self.wf(),
                texts(children@) == ks,
                j <= ks.len(),
                ranked(m0, rank),
                ks == kids(m0, id@),
                ks.len() > 0 ==> m0.contains_key(id@) && rank(id@) < fuel && f1 == fuel - 1,
                self@.nodes == m0.remove_keys(preorder_all(m0, ks.take(j as int), f1).to_set()),
                self@.roots == without(r0, preorder_all(m0, ks.take(j as int), f1).to_set()),
            decreases ks.len() - j,
        {
            let ghost u = preorder_all(m0, ks.take(j as int), f1);
            let ghost mj = self@.nodes;
            let ghost c = ks[j as int];
            proof {
                assert(children@[j as int]@ == c);
                assert(m0[id@].children[j as int] == c);
                lemma_ranked_remove_keys(m0, rank, u.to_set());
                let t = ks.take(j as int);
                assert forall|k: int| 0 <= k < t.len() && m0.contains_key(t[k]) implies rank(#[trigger] t[k]) < f1 by {
                    assert(t[k] == ks[k]);
                    assert(m0[id@].children[k] == ks[k]);
                }
                lemma_preorder_all_closed(m0, rank, t, f1);
            }
            self.remove_rec(children[j].as_str(), Ghost(rank), Ghost(f1));
            proof {
                lemma_preorder_restrict(m0, u, c, f1);
                let u2 = preorder_all(m0, ks.take(j + 1), f1);
                assert(ks.take(j + 1).drop_last() =~= ks.take(j as int));
                assert(ks.take(j + 1).last() == c);
                assert(u2 == u + preorder(m0, c, f1));
                let p = preorder(mj, c, f1);
                assert forall|x: Seq<char>| u.contains(x) || p.contains(x) <==> u2.contains(x) by {
                    lemma_concat_contains(u, preorder(m0, c, f1), x);
                }
                assert(u.to_set().union(p.to_set()) =~= u2.to_set());
                assert(self@.nodes =~= m0.remove_keys(u2.to_set()));
                lemma_without_twice(r0, u.to_set(), p.to_set());
            }
            j = j + 1;
        }
        let ghost u = preorder_all(m0, ks, f1);
        assert(ks.take(ks.len() as int) =~= ks);
        let ghost mj = self@.nodes;
        let ghost ps = node_pairs(self.nodes@);
        match self.position(id) {
            Some(i) => {
                self.nodes.remove(i);
                proof {
                    assert(node_pairs(self.nodes@) =~= ps.remove(i as int));
                    lemma_pairs_map_remove(ps, i as int);
                }
            },
            None => {
                assert(mj.remove(id@) =~= mj);
            },
        }
        self.drop_root(id);
        proof {
            let pre = preorder(m0, id@, fuel);
            lemma_preorder_split(m0, id@, fuel);
            assert(pre.to_set() =~= u.to_set().union(set![id@]));
            assert(self@.nodes =~= m0.remove_keys(pre.to_set()));
            lemma_without_twice(r0, u.to_set(), set![id@]);
        }
    }

    /// Removes `id` with its whole subtree, from the nodes and from the top
    /// level.
    pub fn remove(&mut self, id: &str)
        requires
            old(self).wf(),
            acyclic(old(self)@.nodes),
        ensures
            final(self).wf(),
            final(self)@.nodes == old(self)@.nodes.remove_keys(subtree(old(self)@.nodes, id@).to_set()),
            final(self)@.roots == without(old(self)@.roots, subtree(old(self)@.nodes, id@).to_set()),
    {
        let ghost m = self@.nodes;
        let ghost rank = choose|rank: spec_fn(Seq<char>) -> nat|
            #[trigger] ranked(m, rank) && forall|k: Seq<char>| m.contains_key(k) ==> #[trigger] rank(k) < m.dom().len();
        self.remove_rec(id, Ghost(rank), Ghost(m.dom().len()));
    }

    /// The stored children of `id`, in the order they are listed.
    pub fn children_of(&self, id: &str) -> (r: Vec<&SceneNodeData<P, N>>)
        requires
            self.wf(),
        ensures
            r@.map_values(|d: &SceneNodeData<P, N>| d@) == stored_only(self@.nodes, kids(self@.nodes, id@)),
            r@.map_values(|d: &SceneNodeData<P, N>| d@) == kids(self@.nodes, id@).filter(
                |x: Seq<char>| self@.nodes.contains_key(x),
            ).map_values(|x: Seq<char>| self@.nodes[x]),
            forall|j: int|
                0 <= j < kids(self@.nodes, id@).len() && self@.nodes.contains_key(kids(self@.nodes, id@)[j])
                    ==> r@.map_values(|d: &SceneNodeData<P, N>| d@).contains(
                    self@.nodes[#[trigger] kids(self@.nodes, id@)[j]],
                ),
    {
        let ghost m = self@.nodes;
        proof {
            children_are_the_stored_listed_ones(m, kids(m, id@));
        }
        let mut r: Vec<&SceneNodeData<P, N>> = Vec::new();
        match self.position(id) {
            None => {
                assert(r@.map_values(|d: &SceneNodeData<P, N>| d@) =~= stored_only(m, kids(m, id@)));
                r
            },
            Some(i) => {
                let children = &self.nodes[i].1.children;
                let ghost ks = kids(m, id@);
                let mut j: usize = 0;
                while j < children.len()
                    invariant
                        self.wf(),
                        m == self@.nodes,
                        ks == texts(children@),
                        j <= children@.len(),
                        r@.map_values(|d: &SceneNodeData<P, N>| d@) == stored_only(m, ks.take(j as int)),
                    decreases children@.len() - j,
                {
                    let ghost before = r@.map_values(|d: &SceneNodeData<P, N>| d@);
                    proof {
                        assert(ks.take(j + 1).drop_last() =~= ks.take(j as int));
                        assert(ks.take(j + 1).last() == children@[j as int]@);
                    }
                    match self.position(children[j].as_str()) {
                        Some(k) => {
                            r.push(&self.nodes[k].1);
                            assert(r@.map_values(|d: &SceneNodeData<P, N>| d@) =~= before.push(self.nodes@[k as int].1@));
                        },
                        None => {},
                    }
                    j = j + 1;
                }
                assert(ks.take(ks.len() as int) =~= ks);
                r
            },
        }
    }

    /// The ids whose node name passes the search filter; each id once, in
    /// no promised order.
    pub fn find(&self, name_filter: &str) -> (r: Vec<String>)
        requires
            self.wf(),
        ensures
            texts(r@).no_duplicates(),
            forall|x: Seq<char>|
                texts(r@).contains(x) <==> self@.nodes.contains_key(x) && name_matches(self@.nodes[x].name, name_filter@),
    {
        let ghost ps = node_pairs(self.nodes@);
        let empty = name_filter.unicode_len() == 0;
        let lower = to_lowercase(name_filter);
        let mut r: Vec<String> = Vec::new();
        let mut i: usize = 0;
        while i < self.nodes.len()
            invariant
                self.wf(),
                ps == node_pairs(self.nodes@),
                empty == (name_filter@.len() == 0),
                lower@ == lowercase(name_filter@),
                i <= self.nodes@.len(),
                texts(r@).no_duplicates(),
                forall|x: Seq<char>|
                    texts(r@).contains(x) <==> exists|k: int|
                        0 <= k < i && #[trigger] ps[k].0 == x && name_matches(ps[k].1.name, name_filter@),
            decreases self.nodes@.len() - i,
        {
            let keep = if empty {
                true
            } else {
                let name_lower = to_lowercase(self.nodes[i].1.name.as_str());
                str_contains(name_lower.as_str(), lower.as_str())
            };
            let ghost key = ps[i as int].0;
            assert(key == self.nodes@[i as int].0@);
            assert(keep == name_matches(ps[i as int].1.name, name_filter@));
            if keep {
                let ghost before = texts(r@);
                proof {
                    if before.contains(key) {
                        let k = choose|k: int| 0 <= k < i && #[trigger] ps[k].0 == key && name_matches(ps[k].1.name, name_filter@);
                        assert(ps[k].0 != ps[i as int].0);
                    }
                }
                r.push(copy_string(&self.nodes[i].0));
                proof {
                    assert(texts(r@) =~= before.push(key));
                    assert forall|a: int, b: int| 0 <= a < b < texts(r@).len() implies texts(r@)[a] != texts(r@)[b] by {
                        if b == before.len() {
                            assert(before[a] == texts(r@)[a]);
                            assert(before.contains(before[a]));
                        } else {
                            assert(before[a] == texts(r@)[a] && before[b] == texts(r@)[b]);
                        }
                    }
                    assert forall|x: Seq<char>|
                        texts(r@).contains(x) <==> exists|k: int|
                            0 <= k < i + 1 && #[trigger] ps[k].0 == x && name_matches(ps[k].1.name, name_filter@) by {
                        if texts(r@).contains(x) {
                            let q = choose|q: int| 0 <= q < texts(r@).len() && texts(r@)[q] == x;
                            if q < before.len() {
                                assert(before[q] == x);
                                assert(before.contains(x));
                            }
                        }
                        if exists|k: int| 0 <= k < i + 1 && #[trigger] ps[k].0 == x && name_matches(ps[k].1.name, name_filter@) {
                            let k = choose|k: int| 0 <= k < i + 1 && #[trigger] ps[k].0 == x && name_matches(ps[k].1.name, name_filter@);
                            if k < i {
                                assert(before.contains(x));
                                let q = choose|q: int| 0 <= q < before.len() && before[q] == x;
                                assert(texts(r@)[q] == x);
                            } else {
                                assert(texts(r@)[before.len() as int] == x);
                            }
                        }
                    }
                }
            } else {
                proof {
                    assert forall|x: Seq<char>|
                        texts(r@).contains(x) <==> exists|k: int|
                            0 <= k < i + 1 && #[trigger] ps[k].0 == x && name_matches(ps[k].1.name, name_filter@) by {
                        if exists|k: int| 0 <= k < i + 1 && #[trigger] ps[k].0 == x && name_matches(ps[k].1.name, name_filter@) {
                            let k = choose|k: int| 0 <= k < i + 1 && #[trigger] ps[k].0 == x && name_matches(ps[k].1.name, name_filter@);
                            assert(k < i);
                        }
                    }
                }
            }
            i = i + 1;
        }
        proof {
            lemma_pairs_map(ps);
            assert forall|x: Seq<char>|
                texts(r@).contains(x) <==> self@.nodes.contains_key(x) && name_matches(self@.nodes[x].name, name_filter@) by {
                if self@.nodes.contains_key(x) {
                    let k = choose|k: int| 0 <= k < ps.len() && ps[k].0 == x;
                    assert(self@.nodes[x] == ps[k].1);
                }
                if exists|k: int| 0 <= k < ps.len() && #[trigger] ps[k].0 == x && name_matches(ps[k].1.name, name_filter@) {
                    let k = choose|k: int| 0 <= k < ps.len() && #[trigger] ps[k].0 == x && name_matches(ps[k].1.name, name_filter@);
                    assert(pairs_map(ps).contains_key(ps[k].0));
                }
            }
        }
        r
    }

    /// Appends the walk below `node_id` at `depth` to `out`.
    fn collect_below(&self, node_id: &str, out: &mut Vec<String>, depth: usize)
        requires
            self.wf(),
            depth <= MAX_SUBTREE_DEPTH + 1,
        ensures
            texts(final(out)@) == texts(old(out)@) + below(self@.nodes, node_id@, (MAX_SUBTREE_DEPTH + 1 - depth) as nat),
        decreases MAX_SUBTREE_DEPTH + 1 - depth,
    {
        let ghost m = self@.nodes;
        let ghost out0 = texts(out@);
        if depth > MAX_SUBTREE_DEPTH {
            assert(texts(out@) =~= out0 + Seq::<Seq<char>>::empty());
            return;
        }
        let ghost levels = (MAX_SUBTREE_DEPTH - depth) as nat;
        match self.position(node_id) {
            None => {
                assert(kids(m, node_id@) =~= Seq::<Seq<char>>::empty());
                assert(texts(out@) =~= out0 + Seq::<Seq<char>>::empty());
            },
            Some(i) => {
                let children = &self.nodes[i].1.children;
                let ghost ks = kids(m, node_id@);
                let mut j: usize = 0;
                while j < children.len()
                    invariant
                        self.wf(),
                        m == self@.nodes,
                        ks == texts(children@),
                        depth <= MAX_SUBTREE_DEPTH,
                        levels == MAX_SUBTREE_DEPTH - depth,
                        j <= children@.len(),
                        texts(out@) == out0 + below_all(m, node_id@, ks.take(j as int), levels),
                    decreases children@.len() - j,
                {
                    let ghost before = texts(out@);
                    let ghost c = ks[j as int];
                    proof {
                        assert(ks.take(j + 1).drop_last() =~= ks.take(j as int));
                        assert(ks.take(j + 1).last() == c);
                        assert(children@[j as int]@ == c);
                    }
                    if !crate::text::str_eq(children[j].as_str(), node_id) {
                        out.push(copy_string(&children[j]));
                        assert(texts(out@) =~= before.push(c));
                        self.collect_below(children[j].as_str(), out, depth + 1);
                        assert(texts(out@) =~= out0 + below_all(m, node_id@, ks.take(j + 1), levels));
                    }
                    j = j + 1;
                }
                assert(ks.take(ks.len() as int) =~= ks);
            },
        }
    }

    /// Appends to `out` every id met walking down from `node_id`: each
    /// child (other than `node_id` itself), then what lies below it, down
    /// to [`MAX_SUBTREE_DEPTH`] levels.
    pub fn collect_subtree_nodes(&self, node_id: &str, out: &mut Vec<String>)
        requires
            self.wf(),
        ensures
            texts(final(out)@) == texts(old(out)@) + below(self@.nodes, node_id@, (MAX_SUBTREE_DEPTH + 1) as nat),
    {
        self.collect_below(node_id, out, 0);
    }

    /// The node stored under `id`, to modify in place; what is written
    /// through the reference becomes the node stored under `id`.
    pub fn get_mut(&mut self, id: &str) -> (r: Option<&mut SceneNodeData<P, N>>)
        requires
            old(self).wf(),
        ensures
            r is Some == old(self)@.nodes.contains_key(id@),
            r matches Some(d) ==> d@ == old(self)@.nodes[id@] && final(self).wf()
                && final(self)@.roots == old(self)@.roots
                && final(self)@.nodes == old(self)@.nodes.insert(id@, final(d)@),
            r is None ==> *final(self) == *old(self),
    {
        match self.position(id) {
            Some(i) => {
                let ghost ps = node_pairs(self.nodes@);
                let ghost before = self.nodes@;
                let d = &mut self.nodes[i].1;
                proof {
                    let after = before.update(i as int, (before[i as int].0, *final(d)));
                    assert(node_pairs(after) =~= ps.update(i as int, (ps[i as int].0, final(d)@)));
                    lemma_pairs_map_update(ps, i as int, final(d)@);
                }
                Some(d)
            },
            None => None,
        }
    }

    /// The top-level ids.
    pub fn root_ids(&self) -> (r: &[String])
        ensures
            texts(r@) == self@.roots,
    {
        self.root_ids.as_slice()
    }

    /// The node stored under `id`.
    pub fn get(&self, id: &str) -> (r: Option<&SceneNodeData<P, N>>)
        requires
            self.wf(),
        ensures
            r is Some == self@.nodes.contains_key(id@),
            r matches Some(d) ==> d@ == self@.nodes[id@],
    {
        match self.position(id) {
            Some(i) => Some(&self.nodes[i].1),
            None => None,
        }
    }
}

/// A node added to the tree is stored under its id as it was given, unless
/// it names itself as its parent (then it also lists itself as a child).
pub proof fn added_node_reads_back<P, N>(t: TreeView<P, N>, node: NodeView<P, N>)
    requires
        node.parent != Some(node.id),
    ensures
        after_add(t, node).nodes.contains_key(node.id),
        after_add(t, node).nodes[node.id] == node,
{
}

/// Removing a node takes the node itself, and no stored child of anything
/// removed is left behind in an acyclic tree.
pub proof fn removal_leaves_no_orphans<P, N>(m: Map<Seq<char>, NodeView<P, N>>, id: Seq<char>)
    requires
        acyclic(m),
    ensures
        !m.remove_keys(subtree(m, id).to_set()).contains_key(id),
        forall|x: Seq<char>, j: int|
            subtree(m, id).contains(x) && m.contains_key(x) && 0 <= j < m[x].children.len()
                ==> !m.remove_keys(subtree(m, id).to_set()).contains_key(#[trigger] m[x].children[j]),
{
    let rank = choose|rank: spec_fn(Seq<char>) -> nat|
        #[trigger] ranked(m, rank) && forall|k: Seq<char>| m.contains_key(k) ==> #[trigger] rank(k) < m.dom().len();
    if m.contains_key(id) {
        assert(rank(id) < m.dom().len());
    }
    lemma_preorder_closed(m, rank, id, m.dom().len());
    assert(subtree(m, id)[0] == id);
    assert(subtree(m, id).contains(id));
}

/// The empty tree is acyclic.
pub proof fn empty_tree_acyclic<P, N>()
    ensures
        acyclic(Map::<Seq<char>, NodeView<P, N>>::empty()),
{
    let m = Map::<Seq<char>, NodeView<P, N>>::empty();
    let rank = |id: Seq<char>| 0nat;
    assert(ranked(m, rank));
    assert(forall|id: Seq<char>| m.contains_key(id) ==> #[trigger] rank(id) < m.dom().len());
}

/// Adding a node keeps the tree acyclic when its id is new, it is not its
/// own parent, and none of the children it lists is stored or is itself.
pub proof fn add_keeps_acyclic<P, N>(t: TreeView<P, N>, node: NodeView<P, N>)
    requires
        acyclic(t.nodes),
        t.nodes.dom().finite(),
        !t.nodes.contains_key(node.id),
        node.parent != Some(node.id),
        forall|j: int|
            0 <= j < node.children.len() ==> !t.nodes.contains_key(#[trigger] node.children[j])
                && node.children[j] != node.id,
    ensures
        acyclic(after_add(t, node).nodes),
{
    let m = t.nodes;
    let rank = choose|rank: spec_fn(Seq<char>) -> nat|
        #[trigger] ranked(m, rank) && forall|id: Seq<char>| m.contains_key(id) ==> #[trigger] rank(id) < m.dom().len();
    let r2 = |x: Seq<char>| if x == node.id { 0nat } else { (rank(x) + 1) as nat };
    let m2 = after_add(t, node).nodes;
    let m1 = m.insert(node.id, node);
    assert(m2.dom() =~= m.dom().insert(node.id));
    assert(m2.dom().len() == m.dom().len() + 1);
    assert forall|id: Seq<char>, j: int|
        m2.contains_key(id) && 0 <= j < m2[id].children.len() && m2.contains_key(#[trigger] m2[id].children[j]) implies r2(
        m2[id].children[j])
        < r2(id) by {
        let c = m2[id].children[j];
        if id == node.id {
            assert(m2[id] == node);
            assert(!m2.contains_key(c));
        } else if c != node.id {
            assert(m.contains_key(id));
            assert(m1[id] == m[id]);
            assert(j < m[id].children.len() && m[id].children[j] == c);
            assert(m.contains_key(c));
            assert(rank(c) < rank(id));
        }
    }
    assert(ranked(m2, r2));
    assert forall|id: Seq<char>| m2.contains_key(id) implies #[trigger] r2(id) < m2.dom().len() by {
        if id != node.id {
            assert(m.contains_key(id));
        }
    }
}

/// The nodes of the ids of `ids` that are stored, in the order listed.
proof fn lemma_stored_only_filter<P, N>(m: Map<Seq<char>, NodeView<P, N>>, ids: Seq<Seq<char>>)
    ensures
        stored_only(m, ids) == ids.filter(|x: Seq<char>| m.contains_key(x)).map_values(|x: Seq<char>| m[x]),
    decreases ids.len(),
{
    reveal(Seq::filter);
    let pred = |x: Seq<char>| m.contains_key(x);
    let get = |x: Seq<char>| m[x];
    if ids.len() > 0 {
        lemma_stored_only_filter(m, ids.drop_last());
        let f = ids.drop_last().filter(pred);
        if pred(ids.last()) {
            assert(ids.filter(pred) == f.push(ids.last()));
            assert(f.push(ids.last()).map_values(get) =~= f.map_values(get).push(m[ids.last()]));
        } else {
            assert(ids.filter(pred) == f);
        }
    } else {
        assert(ids.filter(pred).map_values(get) =~= Seq::<NodeView<P, N>>::empty());
    }
}

/// Whether `x` is the node of an id listed in `ids` that is stored.
pub open spec fn listed_and_stored<P, N>(m: Map<Seq<char>, NodeView<P, N>>, ids: Seq<Seq<char>>, x: NodeView<P, N>) -> bool {
    exists|j: int| 0 <= j < ids.len() && m.contains_key(#[trigger] ids[j]) && x == m[ids[j]]
}

/// What `children_of` lists: the nodes of the listed children that are
/// stored, each once per listing, in the order listed, whether or not the
/// children listed around them are stored. Every listed child that is
/// stored is there; nothing else is.
pub proof fn children_are_the_stored_listed_ones<P, N>(m: Map<Seq<char>, NodeView<P, N>>, ids: Seq<Seq<char>>)
    ensures
        stored_only(m, ids) == ids.filter(|x: Seq<char>| m.contains_key(x)).map_values(|x: Seq<char>| m[x]),
        forall|j: int| 0 <= j < ids.len() && m.contains_key(ids[j]) ==> stored_only(m, ids).contains(m[#[trigger] ids[j]]),
        forall|k: int| 0 <= k < stored_only(m, ids).len() ==> listed_and_stored(m, ids, #[trigger] stored_only(m, ids)[k]),
{
    lemma_stored_only_filter(m, ids);
    let pred = |x: Seq<char>| m.contains_key(x);
    let get = |x: Seq<char>| m[x];
    let f = ids.filter(pred);
    assert forall|j: int| 0 <= j < ids.len() && m.contains_key(ids[j]) implies stored_only(m, ids).contains(
        m[#[trigger] ids[j]],
    ) by {
        ids.lemma_filter_contains(pred, j);
        let k = choose|k: int| 0 <= k < f.len() && f[k] == ids[j];
        assert(f.map_values(get)[k] == m[ids[j]]);
    }
    assert forall|k: int| 0 <= k < stored_only(m, ids).len() implies listed_and_stored(
        m,
        ids,
        #[trigger] stored_only(m, ids)[k],
    ) by {
        ids.lemma_filter_pred(pred, k);
        lemma_filter_from(ids, pred, k);
        let j = choose|j: int| 0 <= j < ids.len() && ids[j] == f[k];
        assert(stored_only(m, ids)[k] == m[f[k]]);
        assert(m.contains_key(ids[j]));
    }
}

/// Every element of a filtered sequence comes from the sequence.
proof fn lemma_filter_from(s: Seq<Seq<char>>, pred: spec_fn(Seq<char>) -> bool, k: int)
    requires
        0 <= k < s.filter(pred).len(),
    ensures
        exists|j: int| 0 <= j < s.len() && s[j] == s.filter(pred)[k],
    decreases s.len(),
{
    reveal(Seq::filter);
    let f = s.drop_last().filter(pred);
    if pred(s.last()) && k == f.len() {
        assert(s[s.len() - 1] == s.filter(pred)[k]);
    } else {
        lemma_filter_from(s.drop_last(), pred, k);
        let j = choose|j: int| 0 <= j < s.drop_last().len() && s.drop_last()[j] == f[k];
        assert(s[j] == s.filter(pred)[k]);
    }
}

} // verus!
