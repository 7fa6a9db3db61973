//! What the hierarchy panel decides: the scene tree with the editor's
//! per-entity caches, the expanded nodes, the selection, the node being
//! renamed, and the actions the panel hands to the editor. `P` and `N` are
//! the physics and navigation mesh components, `T` a transform as the
//! editor caches it.
use vstd::prelude::*;
use crate::hub_conns::NameMap;
use crate::panels::NodeType;
use crate::prefab::PrefabCaches;
use crate::prefab::PrefabNode;
use crate::prefab::nodes_of;
use crate::prefab::prefab_ids;
use crate::prefab::prefab_node_view;
use crate::prefab::prefab_nodes;
use crate::scene_tree::SceneNodeData;
use crate::scene_tree::SceneNodeTree;
use crate::scene_tree::NodeView;
use crate::scene_tree::TreeView;
use crate::scene_tree::after_add;
use crate::scene_tree::acyclic;
use crate::scene_tree::subtree;
use crate::scene_tree::without;
use crate::text::copy_string;
use crate::text::opt_text;
use crate::text::str_eq;

verus! {

/// An action the panel asks the editor to carry out.
#[derive(Debug)]
pub enum HierarchyAction {
    RenameEntity { node_id: String, new_name: String },
    SaveAsPrefab { node_id: String },
    /// Instantiates a dropped prefab under a node (or at the top level).
    InstantiatePrefab { prefab_uuid: String, parent_node_id: Option<String> },
    /// Creates a primitive of the named kind at the origin, under a node.
    CreatePrimitive { kind: String, parent_node_id: Option<String> },
}

/// The primitives the "Create Primitive" menu offers.
#[derive(Debug, Clone, Copy, PartialEq, Eq, Structural)]
pub enum PrimitiveKind {
    Cube,
    Sphere,
    Plane,
    Cylinder,
}

/// The name of a primitive kind in a creation request.
pub open spec fn primitive_name(k: PrimitiveKind) -> Seq<char> {
    match k {
        PrimitiveKind::Cube => "cube"@,
        PrimitiveKind::Sphere => "sphere"@,
        PrimitiveKind::Plane => "plane"@,
        PrimitiveKind::Cylinder => "cylinder"@,
    }
}

impl PrimitiveKind {
    /// The name of the kind in a creation request.
    pub fn name(&self) -> (r: &str)
        ensures
            r@ == primitive_name(*self),
    {
        match self {
            PrimitiveKind::Cube => "cube",
            PrimitiveKind::Sphere => "sphere",
            PrimitiveKind::Plane => "plane",
            PrimitiveKind::Cylinder => "cylinder",
        }
    }
}

/// The texts of a [`HierarchyAction`].
pub enum ActionView {
    RenameEntity { node_id: Seq<char>, new_name: Seq<char> },
    SaveAsPrefab { node_id: Seq<char> },
    InstantiatePrefab { prefab_uuid: Seq<char>, parent_node_id: Option<Seq<char>> },
    CreatePrimitive { kind: Seq<char>, parent_node_id: Option<Seq<char>> },
}

/// The view of an action.
pub open spec fn action_view(a: HierarchyAction) -> ActionView {
    match a {
        HierarchyAction::RenameEntity { node_id, new_name } => ActionView::RenameEntity {
            node_id: node_id@,
            new_name: new_name@,
        },
        HierarchyAction::SaveAsPrefab { node_id } => ActionView::SaveAsPrefab { node_id: node_id@ },
        HierarchyAction::InstantiatePrefab { prefab_uuid, parent_node_id } => ActionView::InstantiatePrefab {
            prefab_uuid: prefab_uuid@,
            parent_node_id: opt_text(parent_node_id),
        },
        HierarchyAction::CreatePrimitive { kind, parent_node_id } => ActionView::CreatePrimitive {
            kind: kind@,
            parent_node_id: opt_text(parent_node_id),
        },
    }
}

/// The abstract state of a [`HierarchyState`].
pub struct HierarchyView<P, N, T> {
    pub tree: TreeView<P, N>,
    pub expanded: Set<Seq<char>>,
    pub selected: Option<Seq<char>>,
    pub renaming: Option<(Seq<char>, Seq<char>)>,
    pub transforms: Map<Seq<char>, T>,
    pub physics: Map<Seq<char>, P>,
    pub navmesh: Map<Seq<char>, N>,
    pub names: Map<Seq<char>, Seq<char>>,
    pub meshes: Set<Seq<char>>,
    pub actions: Seq<ActionView>,
    /// The transform given to new nodes.
    pub initial_transform: T,
}

/// `m` with the entry of `from`, if any, also stored under `to`.
pub open spec fn copy_entry<V>(m: Map<Seq<char>, V>, from: Seq<char>, to: Seq<char>) -> Map<Seq<char>, V> {
    if m.contains_key(from) {
        m.insert(to, m[from])
    } else {
        m
    }
}

/// The texts of name values.
pub open spec fn name_texts(m: Map<Seq<char>, String>) -> Map<Seq<char>, Seq<char>> {
    m.map_values(|v: String| v@)
}

/// The name a copy of a node gets.
pub open spec fn copy_name(name: Seq<char>) -> Seq<char> {
    name + "_copy"@
}

/// A new empty node named "GameObject" under `parent`.
pub open spec fn empty_node<P, N>(id: Seq<char>, parent: Option<Seq<char>>) -> NodeView<P, N> {
    NodeView {
        id,
        name: "GameObject"@,
        children: Seq::empty(),
        parent,
        visible: true,
        locked: false,
        node_type: NodeType::Empty,
        asset_source_uuid: None,
        prefab_ref_uuid: None,
        physics: None,
        navmesh: None,
    }
}

/// The copy of node `src` under the id `new_id`: same parent, settings and
/// components, no children, its name followed by "_copy".
pub open spec fn copy_node<P, N>(src: NodeView<P, N>, new_id: Seq<char>) -> NodeView<P, N> {
    NodeView { id: new_id, name: copy_name(src.name), children: Seq::empty(), ..src }
}

/// The hierarchy panel's state.
#[verifier::reject_recursive_types(P)]
#[verifier::reject_recursive_types(N)]
#[verifier::reject_recursive_types(T)]
pub struct HierarchyState<P, N, T> {
    tree: SceneNodeTree<P, N>,
    expanded: NameMap<()>,
    selected: Option<String>,
    renaming: Option<(String, String)>,
    transforms: NameMap<T>,
    physics: NameMap<P>,
    navmesh: NameMap<N>,
    names: NameMap<String>,
    meshes: NameMap<()>,
    actions: Vec<HierarchyAction>,
    initial_transform: T,
}

impl<P, N, T> View for HierarchyState<P, N, T> {
    type V = HierarchyView<P, N, T>;

    closed spec fn view(&self) -> HierarchyView<P, N, T> {
        HierarchyView {
            tree: self.tree@,
            expanded: self.expanded@.dom(),
            selected: opt_text(self.selected),
            renaming: match self.renaming {
                Some(p) => Some((p.0@, p.1@)),
                None => None,
            },
            transforms: self.transforms@,
            physics: self.physics@,
            navmesh: self.navmesh@,
            names: name_texts(self.names@),
            meshes: self.meshes@.dom(),
            actions: self.actions@.map_values(|a: HierarchyAction| action_view(a)),
            initial_transform: self.initial_transform,
        }
    }
}

/// Copies an optional string.
fn copy_opt(s: &Option<String>) -> (r: Option<String>)
    ensures
        opt_text(r) == opt_text(*s),
{
    match s {
        Some(t) => Some(copy_string(t)),
        None => None,
    }
}

impl<P: Copy, N: Copy, T: Copy> HierarchyState<P, N, T> {
    pub closed spec fn wf(&self) -> bool {
        self.tree.wf()
    }

    /// An empty hierarchy; new nodes get `initial_transform`.
    pub fn new(initial_transform: T) -> (s: Self)
        ensures
            s.wf(),
            s@.tree.nodes == Map::<Seq<char>, NodeView<P, N>>::empty(),
            s@.tree.roots.len() == 0,
            s@.expanded == Set::<Seq<char>>::empty(),
            s@.selected is None,
            s@.renaming is None,
            s@.transforms == Map::<Seq<char>, T>::empty(),
            s@.physics == Map::<Seq<char>, P>::empty(),
            s@.navmesh == Map::<Seq<char>, N>::empty(),
            s@.names == Map::<Seq<char>, Seq<char>>::empty(),
            s@.meshes == Set::<Seq<char>>::empty(),
            s@.actions.len() == 0,
            s@.initial_transform == initial_transform,
    {
        let s = HierarchyState {
            tree: SceneNodeTree::new(),
            expanded: NameMap::new(),
            selected: None,
            renaming: None,
            transforms: NameMap::new(),
            physics: NameMap::new(),
            navmesh: NameMap::new(),
            names: NameMap::new(),
            meshes: NameMap::new(),
            actions: Vec::new(),
            initial_transform,
        };
        assert(s@.expanded =~= Set::<Seq<char>>::empty());
        assert(s@.meshes =~= Set::<Seq<char>>::empty());
        assert(s@.names =~= Map::<Seq<char>, Seq<char>>::empty());
        assert(s@.actions =~= Seq::<ActionView>::empty());
        s
    }

    /// The scene tree.
    pub fn tree(&self) -> (r: &SceneNodeTree<P, N>)
        ensures
            r@ == self@.tree,
            self.wf() ==> r.wf(),
    {
        &self.tree
    }

    /// Selects a node.
    pub fn select(&mut self, id: Option<String>)
        ensures
            final(self)@ == (HierarchyView { selected: opt_text(id), ..old(self)@ }),
            final(self).wf() == old(self).wf(),
    {
        self.selected = id;
    }

    /// The expand arrow of a node: expands `id` when it is collapsed and
    /// collapses it otherwise.
    pub fn toggle_expanded(&mut self, id: &str)
        ensures
            final(self)@ == (HierarchyView {
                expanded: if old(self)@.expanded.contains(id@) {
                    old(self)@.expanded.remove(id@)
                } else {
                    old(self)@.expanded.insert(id@)
                },
                ..old(self)@
            }),
            final(self).wf() == old(self).wf(),
    {
        let ghost before = self.expanded@;
        if self.expanded.get(id).is_some() {
            let _ = self.expanded.remove(id);
            assert(self.expanded@.dom() =~= before.dom().remove(id@));
        } else {
            self.expanded.insert(String::from_str(id), ());
            assert(self.expanded@.dom() =~= before.dom().insert(id@));
        }
    }

    /// The eye button of a node: shows `id` when it is hidden and hides it
    /// otherwise; nothing happens when no node has that id.
    pub fn toggle_visible(&mut self, id: &str)
        requires
            old(self).wf(),
        ensures
            final(self).wf(),
            old(self)@.tree.nodes.contains_key(id@) ==> final(self)@ == (HierarchyView {
                tree: TreeView {
                    nodes: old(self)@.tree.nodes.insert(
                        id@,
                        NodeView { visible: !old(self)@.tree.nodes[id@].visible, ..old(self)@.tree.nodes[id@] },
                    ),
                    roots: old(self)@.tree.roots,
                },
                ..old(self)@
            }),
            !old(self)@.tree.nodes.contains_key(id@) ==> final(self)@ == old(self)@,
    {
        match self.tree.get_mut(id) {
            Some(n) => {
                n.visible = !n.visible;
            },
            None => {},
        }
    }

    /// The lock button of a node: locks `id` when it is unlocked and
    /// unlocks it otherwise; nothing happens when no node has that id.
    pub fn toggle_locked(&mut self, id: &str)
        requires
            old(self).wf(),
        ensures
            final(self).wf(),
            old(self)@.tree.nodes.contains_key(id@) ==> final(self)@ == (HierarchyView {
                tree: TreeView {
                    nodes: old(self)@.tree.nodes.insert(
                        id@,
                        NodeView { locked: !old(self)@.tree.nodes[id@].locked, ..old(self)@.tree.nodes[id@] },
                    ),
                    roots: old(self)@.tree.roots,
                },
                ..old(self)@
            }),
            !old(self)@.tree.nodes.contains_key(id@) ==> final(self)@ == old(self)@,
    {
        match self.tree.get_mut(id) {
            Some(n) => {
                n.locked = !n.locked;
            },
            None => {},
        }
    }

    /// Adds a node from outside the panel.
    pub fn add_scene_node(&mut self, data: SceneNodeData<P, N>)
        requires
            old(self).wf(),
        ensures
            final(self).wf(),
            final(self)@ == (HierarchyView { tree: after_add(old(self)@.tree, data@), ..old(self)@ }),
    {
        self.tree.add_node(data);
    }

    /// Adds a new empty node `new_id` under `parent` (or at the top level)
    /// with the initial transform and the name "GameObject".
    fn add_empty(&mut self, new_id: String, parent: Option<String>)
        requires
            old(self).wf(),
        ensures
            final(self).wf(),
            final(self)@ == (HierarchyView {
                tree: after_add(old(self)@.tree, empty_node(new_id@, opt_text(parent))),
                transforms: old(self)@.transforms.insert(new_id@, old(self)@.initial_transform),
                names: old(self)@.names.insert(new_id@, "GameObject"@),
                ..old(self)@
            }),
    {
        let node = SceneNodeData {
            id: copy_string(&new_id),
            name: String::from_str("GameObject"),
            children: Vec::new(),
            parent: parent,
            visible: true,
            locked: false,
            node_type: NodeType::Empty,
            asset_source_uuid: None,
            prefab_ref_uuid: None,
            physics: None,
            navmesh: None,
        };
        proof {
            reveal_strlit("GameObject");
            assert(crate::text::texts(node.children@) =~= Seq::<Seq<char>>::empty());
            assert(node@ == empty_node::<P, N>(new_id@, opt_text(node.parent)));
        }
        self.tree.add_node(node);
        self.transforms.insert(copy_string(&new_id), self.initial_transform);
        let ghost old_names = self.names@;
        self.names.insert(new_id, String::from_str("GameObject"));
        assert(name_texts(self.names@) =~= name_texts(old_names).insert(new_id@, "GameObject"@));
    }

    /// "Create Empty Child": a new empty node under `parent`, which is
    /// expanded to show it.
    pub fn create_child(&mut self, parent: &str, new_id: String)
        requires
            old(self).wf(),
        ensures
            final(self).wf(),
            final(self)@ == (HierarchyView {
                tree: after_add(old(self)@.tree, empty_node(new_id@, Some(parent@))),
                transforms: old(self)@.transforms.insert(new_id@, old(self)@.initial_transform),
                names: old(self)@.names.insert(new_id@, "GameObject"@),
                expanded: old(self)@.expanded.insert(parent@),
                ..old(self)@
            }),
    {
        self.add_empty(new_id, Some(String::from_str(parent)));
        self.expanded.insert(String::from_str(parent), ());
    }

    /// "Create Empty": a new empty node under the selection (or at the top
    /// level), expanding the selection, and selecting the new node.
    pub fn create_empty(&mut self, new_id: String)
        requires
            old(self).wf(),
        ensures
            final(self).wf(),
            final(self)@ == (HierarchyView {
                tree: after_add(old(self)@.tree, empty_node(new_id@, old(self)@.selected)),
                transforms: old(self)@.transforms.insert(new_id@, old(self)@.initial_transform),
                names: old(self)@.names.insert(new_id@, "GameObject"@),
                expanded: match old(self)@.selected {
                    Some(p) => old(self)@.expanded.insert(p),
                    None => old(self)@.expanded,
                },
                selected: Some(new_id@),
                ..old(self)@
            }),
    {
        let parent = copy_opt(&self.selected);
        let sel = copy_string(&new_id);
        self.add_empty(new_id, parent);
        match &self.selected {
            Some(p) => {
                let p2 = copy_string(p);
                self.expanded.insert(p2, ());
            },
            None => {},
        }
        self.selected = Some(sel);
    }

    /// "Duplicate": a copy of node `id` under `new_id` (same parent, no
    /// children, its name followed by "_copy"), with copies of its cached
    /// transform, name (also followed by "_copy"), mesh flag and components.
    /// Nothing happens when there is no node `id`.
    pub fn duplicate(&mut self, id: &str, new_id: String)
        requires
            old(self).wf(),
        ensures
            final(self).wf(),
            !old(self)@.tree.nodes.contains_key(id@) ==> final(self)@ == old(self)@,
            old(self)@.tree.nodes.contains_key(id@) ==> final(self)@ == (HierarchyView {
                tree: after_add(old(self)@.tree, copy_node(old(self)@.tree.nodes[id@], new_id@)),
                transforms: copy_entry(old(self)@.transforms, id@, new_id@),
                physics: copy_entry(old(self)@.physics, id@, new_id@),
                navmesh: copy_entry(old(self)@.navmesh, id@, new_id@),
                names: if old(self)@.names.contains_key(id@) {
                    old(self)@.names.insert(new_id@, copy_name(old(self)@.names[id@]))
                } else {
                    old(self)@.names
                },
                meshes: if old(self)@.meshes.contains(id@) {
                    old(self)@.meshes.insert(new_id@)
                } else {
                    old(self)@.meshes
                },
                ..old(self)@
            }),
    {
        let node = match self.tree.get(id) {
            None => {
                return;
            },
            Some(src) => {
                let mut name = copy_string(&src.name);
                name.append("_copy");
                proof {
                    reveal_strlit("_copy");
                }
                let n = SceneNodeData {
                    id: copy_string(&new_id),
                    name,
                    children: Vec::new(),
                    parent: copy_opt(&src.parent),
                    visible: src.visible,
                    locked: src.locked,
                    node_type: src.node_type,
                    asset_source_uuid: copy_opt(&src.asset_source_uuid),
                    prefab_ref_uuid: copy_opt(&src.prefab_ref_uuid),
                    physics: src.physics,
                    navmesh: src.navmesh,
                };
                proof {
                    assert(crate::text::texts(n.children@) =~= Seq::<Seq<char>>::empty());
                    assert(n@ == copy_node(src@, new_id@));
                }
                n
            },
        };
        self.tree.add_node(node);
        match self.transforms.get(id) {
            Some(t) => {
                let t = *t;
                self.transforms.insert(copy_string(&new_id), t);
            },
            None => {},
        }
        match self.physics.get(id) {
            Some(p) => {
                let p = *p;
                self.physics.insert(copy_string(&new_id), p);
            },
            None => {},
        }
        match self.navmesh.get(id) {
            Some(v) => {
                let v = *v;
                self.navmesh.insert(copy_string(&new_id), v);
            },
            None => {},
        }
        let ghost old_names = self.names@;
        match self.names.get(id) {
            Some(nm) => {
                let mut copy = copy_string(nm);
                copy.append("_copy");
                proof {
                    reveal_strlit("_copy");
                }
                self.names.insert(copy_string(&new_id), copy);
                assert(name_texts(self.names@) =~= name_texts(old_names).insert(
                    new_id@,
                    copy_name(name_texts(old_names)[id@]),
                ));
            },
            None => {},
        }
        let ghost old_meshes = self.meshes@;
        match self.meshes.get(id) {
            Some(_) => {
                self.meshes.insert(new_id, ());
                assert(self.meshes@.dom() =~= old_meshes.dom().insert(new_id@));
            },
            None => {},
        }
    }

    /// "Delete": removes node `id` with its subtree from the tree and every
    /// id of that subtree from each cache; clears the selection when it was
    /// `id`.
    pub fn delete_subtree(&mut self, id: &str)
        requires
            old(self).wf(),
            acyclic(old(self)@.tree.nodes),
        ensures
            final(self).wf(),
            final(self)@ == (HierarchyView {
                tree: TreeView {
                    nodes: old(self)@.tree.nodes.remove_keys(subtree(old(self)@.tree.nodes, id@).to_set()),
                    roots: without(old(self)@.tree.roots, subtree(old(self)@.tree.nodes, id@).to_set()),
                },
                transforms: old(self)@.transforms.remove_keys(subtree(old(self)@.tree.nodes, id@).to_set()),
                physics: old(self)@.physics.remove_keys(subtree(old(self)@.tree.nodes, id@).to_set()),
                navmesh: old(self)@.navmesh.remove_keys(subtree(old(self)@.tree.nodes, id@).to_set()),
                names: old(self)@.names.remove_keys(subtree(old(self)@.tree.nodes, id@).to_set()),
                meshes: old(self)@.meshes.difference(subtree(old(self)@.tree.nodes, id@).to_set()),
                selected: if old(self)@.selected == Some(id@) {
                    None
                } else {
                    old(self)@.selected
                },
                ..old(self)@
            }),
    {
        let ghost o = self@;
        let ids = self.tree.collect_subtree_ids(id);
        let ghost sub = crate::text::texts(ids@);
        self.tree.remove(id);
        let ghost t1 = self@.tree;
        let mut k: usize = 0;
        assert(sub.take(0).to_set() =~= Set::<Seq<char>>::empty());
        assert(o.transforms.remove_keys(Set::empty()) =~= o.transforms);
        assert(o.physics.remove_keys(Set::empty()) =~= o.physics);
        assert(o.navmesh.remove_keys(Set::empty()) =~= o.navmesh);
        assert(o.names.remove_keys(Set::empty()) =~= o.names);
        assert(o.meshes.difference(Set::empty()) =~= o.meshes);
        while k < ids.len()
            invariant
                k <= ids@.len(),
                sub == crate::text::texts(ids@),
                sub == subtree(o.tree.nodes, id@),
                t1.nodes == o.tree.nodes.remove_keys(sub.to_set()),
                t1.roots == without(o.tree.roots, sub.to_set()),
                self.wf(),
                self@ == (HierarchyView {
                    tree: t1,
                    transforms: o.transforms.remove_keys(sub.take(k as int).to_set()),
                    physics: o.physics.remove_keys(sub.take(k as int).to_set()),
                    navmesh: o.navmesh.remove_keys(sub.take(k as int).to_set()),
                    names: o.names.remove_keys(sub.take(k as int).to_set()),
                    meshes: o.meshes.difference(sub.take(k as int).to_set()),
                    ..o
                }),
            decreases ids@.len() - k,
        {
            let x = ids[k].as_str();
            let ghost before = sub.take(k as int).to_set();
            let ghost after = sub.take(k + 1).to_set();
            proof {
                assert(x@ == sub[k as int]);
                assert(after =~= before.insert(x@)) by {
                    assert forall|y: Seq<char>| after.contains(y) <==> before.contains(y) || y == x@ by {
                        let t1 = sub.take(k + 1);
                        let t0 = sub.take(k as int);
                        if after.contains(y) {
                            let i = choose|i: int| 0 <= i < t1.len() && #[trigger] t1[i] == y;
                            if i < k {
                                assert(t0[i] == y);
                            }
                        }
                        if before.contains(y) {
                            let i = choose|i: int| 0 <= i < t0.len() && #[trigger] t0[i] == y;
                            assert(t1[i] == y);
                        }
                        if y == x@ {
                            assert(sub.take(k + 1)[k as int] == y);
                        }
                    }
                }
            }
            let _ = self.transforms.remove(x);
            let _ = self.physics.remove(x);
            let _ = self.navmesh.remove(x);
            let ghost old_names = self.names@;
            let _ = self.names.remove(x);
            let _ = self.meshes.remove(x);
            proof {
                assert(self@.transforms =~= o.transforms.remove_keys(after));
                assert(self@.physics =~= o.physics.remove_keys(after));
                assert(self@.navmesh =~= o.navmesh.remove_keys(after));
                assert(name_texts(self.names@) =~= name_texts(old_names).remove(x@));
                assert(name_texts(self.names@) =~= o.names.remove_keys(after));
                assert(self@.meshes =~= o.meshes.difference(after));
            }
            k = k + 1;
        }
        proof {
            assert(sub.take(sub.len() as int) =~= sub);
        }
        let clear = match &self.selected {
            Some(s) => str_eq(s.as_str(), id),
            None => false,
        };
        if clear {
            self.selected = None;
        }
    }

    /// "Rename": starts renaming node `id`, from its cached name or, when
    /// none is cached, `node_name`.
    pub fn begin_rename(&mut self, id: &str, node_name: &str)
        ensures
            final(self)@ == (HierarchyView {
                renaming: Some(
                    (
                        id@,
                        if old(self)@.names.contains_key(id@) {
                            old(self)@.names[id@]
                        } else {
                            node_name@
                        },
                    ),
                ),
                ..old(self)@
            }),
            final(self).wf() == old(self).wf(),
    {
        let current = match self.names.get(id) {
            Some(n) => copy_string(n),
            None => String::from_str(node_name),
        };
        self.renaming = Some((String::from_str(id), current));
    }

    /// Edits the name being typed.
    pub fn set_rename_text(&mut self, text: String)
        ensures
            final(self)@ == (HierarchyView {
                renaming: match old(self)@.renaming {
                    Some(r) => Some((r.0, text@)),
                    None => None,
                },
                ..old(self)@
            }),
            final(self).wf() == old(self).wf(),
    {
        match &self.renaming {
            Some(r) => {
                let id = copy_string(&r.0);
                self.renaming = Some((id, text));
            },
            None => {},
        }
    }

    /// Escape: stops renaming without a change.
    pub fn cancel_rename(&mut self)
        ensures
            final(self)@ == (HierarchyView { renaming: None, ..old(self)@ }),
            final(self).wf() == old(self).wf(),
    {
        self.renaming = None;
    }

    /// Enter: stops renaming; a non-empty new name is cached and a rename
    /// action is queued, and the committed (id, name) is returned.
    pub fn commit_rename(&mut self) -> (r: Option<(String, String)>)
        ensures
            final(self).wf() == old(self).wf(),
            match old(self)@.renaming {
                Some((id, name)) => if name.len() > 0 {
                    &&& r matches Some(p) && p.0@ == id && p.1@ == name
                    &&& final(self)@ == (HierarchyView {
                        renaming: None,
                        names: old(self)@.names.insert(id, name),
                        actions: old(self)@.actions.push(ActionView::RenameEntity { node_id: id, new_name: name }),
                        ..old(self)@
                    })
                } else {
                    r is None && final(self)@ == (HierarchyView { renaming: None, ..old(self)@ })
                },
                None => r is None && final(self)@ == old(self)@,
            },
    {
        let taken = self.renaming.take();
        match taken {
            None => None,
            Some((nid, new_name)) => {
                if new_name.as_str().unicode_len() == 0 {
                    return None;
                }
                let ghost old_names = self.names@;
                self.names.insert(copy_string(&nid), copy_string(&new_name));
                assert(name_texts(self.names@) =~= name_texts(old_names).insert(nid@, new_name@));
                let ghost old_actions = self.actions@;
                self.actions.push(
                    HierarchyAction::RenameEntity { node_id: copy_string(&nid), new_name: copy_string(&new_name) },
                );
                assert(self.actions@.map_values(|a: HierarchyAction| action_view(a)) =~= old_actions.map_values(
                    |a: HierarchyAction| action_view(a),
                ).push(ActionView::RenameEntity { node_id: nid@, new_name: new_name@ }));
                Some((nid, new_name))
            },
        }
    }

    /// "Create Primitive" on node `parent`: queues the creation of a
    /// primitive of kind `kind` under it.
    pub fn create_primitive(&mut self, parent: &str, kind: PrimitiveKind)
        ensures
            final(self)@ == (HierarchyView {
                actions: old(self)@.actions.push(
                    ActionView::CreatePrimitive { kind: primitive_name(kind), parent_node_id: Some(parent@) },
                ),
                ..old(self)@
            }),
            final(self).wf() == old(self).wf(),
    {
        let ghost old_actions = self.actions@;
        let a = HierarchyAction::CreatePrimitive {
            kind: String::from_str(kind.name()),
            parent_node_id: Some(String::from_str(parent)),
        };
        self.actions.push(a);
        assert(self.actions@.map_values(|a: HierarchyAction| action_view(a)) =~= old_actions.map_values(
            |a: HierarchyAction| action_view(a),
        ).push(ActionView::CreatePrimitive { kind: primitive_name(kind), parent_node_id: Some(parent@) }));
    }

    /// The prefab nodes of the subtree of `root` (see [`prefab_nodes`]),
    /// each with what the panel caches for it: transform (the initial one
    /// when none is cached), physics and navigation mesh.
    pub fn prefab_of(&self, root: &str) -> (r: Option<Vec<PrefabNode<T, P, N>>>)
        requires
            self.wf(),
        ensures
            r is Some == self@.tree.nodes.contains_key(root@),
            r matches Some(v) ==> v@.map_values(|n: PrefabNode<T, P, N>| prefab_node_view(n)) == nodes_of(
                self@.tree.nodes,
                prefab_ids(self@.tree.nodes, root@),
                prefab_ids(self@.tree.nodes, root@),
                PrefabCaches {
                    transforms: self@.transforms,
                    physics: self@.physics,
                    navmesh: self@.navmesh,
                    default_transform: self@.initial_transform,
                },
            ),
    {
        prefab_nodes(&self.tree, root, &self.transforms, &self.physics, &self.navmesh, self.initial_transform)
    }

    /// "Save as Prefab": queues the request for node `id`.
    pub fn request_save_as_prefab(&mut self, id: &str)
        ensures
            final(self)@ == (HierarchyView {
                actions: old(self)@.actions.push(ActionView::SaveAsPrefab { node_id: id@ }),
                ..old(self)@
            }),
            final(self).wf() == old(self).wf(),
    {
        let ghost old_actions = self.actions@;
        self.actions.push(HierarchyAction::SaveAsPrefab { node_id: String::from_str(id) });
        assert(self.actions@.map_values(|a: HierarchyAction| action_view(a)) =~= old_actions.map_values(
            |a: HierarchyAction| action_view(a),
        ).push(ActionView::SaveAsPrefab { node_id: id@ }));
    }

    /// A finished drop of a dragged prefab: queues its instantiation under
    /// the hovered node, or at the top level when none is hovered; a drag
    /// without a prefab id asks for the empty id.
    pub fn drop_prefab(&mut self, dragged_uuid: Option<String>, target_node_id: Option<String>)
        ensures
            final(self)@ == (HierarchyView {
                actions: old(self)@.actions.push(
                    ActionView::InstantiatePrefab {
                        prefab_uuid: match dragged_uuid {
                            Some(u) => u@,
                            None => Seq::empty(),
                        },
                        parent_node_id: opt_text(target_node_id),
                    },
                ),
                ..old(self)@
            }),
            final(self).wf() == old(self).wf(),
    {
        let uuid = match dragged_uuid {
            Some(u) => u,
            None => String::new(),
        };
        let ghost old_actions = self.actions@;
        let ghost a = ActionView::InstantiatePrefab { prefab_uuid: uuid@, parent_node_id: opt_text(target_node_id) };
        self.actions.push(HierarchyAction::InstantiatePrefab { prefab_uuid: uuid, parent_node_id: target_node_id });
        assert(self.actions@.map_values(|a: HierarchyAction| action_view(a)) =~= old_actions.map_values(
            |a: HierarchyAction| action_view(a),
        ).push(a));
    }

    /// The queued actions, taken out for the editor to carry out.
    pub fn take_actions(&mut self) -> (r: Vec<HierarchyAction>)
        ensures
            r@.map_values(|a: HierarchyAction| action_view(a)) == old(self)@.actions,
            final(self)@ == (HierarchyView { actions: Seq::empty(), ..old(self)@ }),
            final(self).wf() == old(self).wf(),
    {
        let mut r: Vec<HierarchyAction> = Vec::new();
        std::mem::swap(&mut r, &mut self.actions);
        assert(self.actions@.map_values(|a: HierarchyAction| action_view(a)) =~= Seq::<ActionView>::empty());
        r
    }
}

} // verus!
