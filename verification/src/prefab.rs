//! Saving a subtree of the scene as a prefab: the list of prefab nodes
//! (children as indices into the list, the mesh or nested prefab each
//! carries), the file stem made from the root's name, and the file path.
use vstd::prelude::*;
use crate::hub_conns::NameMap;
use crate::panels::NodeType;
use crate::scene_tree::MAX_SUBTREE_DEPTH;
use crate::scene_tree::NodeView;
use crate::scene_tree::SceneNodeTree;
use crate::scene_tree::below;
use crate::text::copy_string;
use crate::text::opt_text;
use crate::text::str_eq;
use crate::text::texts;

verus! {

/// The mesh a prefab node carries.
#[derive(Debug)]
pub enum PrefabMesh {
    /// A model imported from a GLTF file, by its asset UUID.
    ModelRef { model_uuid: String },
    /// The placeholder cube of a mesh node without a source model.
    ProceduralCube,
}

/// One node of a prefab; `T` is its transform, `P` and `N` its physics
/// and navigation mesh components.
#[derive(Debug)]
pub struct PrefabNode<T, P, N> {
    /// The scene node it was made from (its transform and components are
    /// looked up by this id).
    pub node_id: String,
    pub name: String,
    /// Indices of its children in the prefab's node list.
    pub children: Vec<usize>,
    pub mesh: Option<PrefabMesh>,
    /// The UUID of the prefab this node instantiates, instead of a mesh.
    pub prefab_ref: Option<String>,
    pub transform: T,
    pub physics: Option<P>,
    pub navmesh: Option<N>,
}

/// The texts of a [`PrefabMesh`].
pub enum MeshView {
    ModelRef { model_uuid: Seq<char> },
    ProceduralCube,
}

/// The texts of a [`PrefabNode`].
pub struct PrefabNodeView<T, P, N> {
    pub node_id: Seq<char>,
    pub name: Seq<char>,
    pub children: Seq<usize>,
    pub mesh: Option<MeshView>,
    pub prefab_ref: Option<Seq<char>>,
    pub transform: T,
    pub physics: Option<P>,
    pub navmesh: Option<N>,
}

pub open spec fn mesh_view(m: Option<PrefabMesh>) -> Option<MeshView> {
    match m {
        Some(PrefabMesh::ModelRef { model_uuid }) => Some(MeshView::ModelRef { model_uuid: model_uuid@ }),
        Some(PrefabMesh::ProceduralCube) => Some(MeshView::ProceduralCube),
        None => None,
    }
}

pub open spec fn prefab_node_view<T, P, N>(n: PrefabNode<T, P, N>) -> PrefabNodeView<T, P, N> {
    PrefabNodeView {
        node_id: n.node_id@,
        name: n.name@,
        children: n.children@,
        mesh: mesh_view(n.mesh),
        prefab_ref: opt_text(n.prefab_ref),
        transform: n.transform,
        physics: n.physics,
        navmesh: n.navmesh,
    }
}

/// The editor's caches of per-entity values that a prefab node carries:
/// transforms, physics and navigation mesh components, and the transform
/// of an entity that has none cached.
pub struct PrefabCaches<T, P, N> {
    pub transforms: Map<Seq<char>, T>,
    pub physics: Map<Seq<char>, P>,
    pub navmesh: Map<Seq<char>, N>,
    pub default_transform: T,
}

/// The value cached under `id`, if any.
pub open spec fn cached<V>(m: Map<Seq<char>, V>, id: Seq<char>) -> Option<V> {
    if m.contains_key(id) {
        Some(m[id])
    } else {
        None
    }
}

/// The ids saved in a prefab of `root`: the root, then what the editor's
/// bounded walk meets below it.
pub open spec fn prefab_ids<P, N>(m: Map<Seq<char>, NodeView<P, N>>, root: Seq<char>) -> Seq<Seq<char>> {
    seq![root] + below(m, root, (MAX_SUBTREE_DEPTH + 1) as nat)
}

/// The last position of `x` in `ids` (a later position replaces an
/// earlier one in the index of ids).
pub open spec fn last_index(ids: Seq<Seq<char>>, x: Seq<char>) -> Option<usize>
    decreases ids.len(),
{
    if ids.len() == 0 {
        None
    } else if ids.last() == x {
        Some((ids.len() - 1) as usize)
    } else {
        last_index(ids.drop_last(), x)
    }
}

/// The indices in `ids` of the children `kids` that occur in `ids`, in
/// order.
pub open spec fn child_indices(ids: Seq<Seq<char>>, kids: Seq<Seq<char>>) -> Seq<usize>
    decreases kids.len(),
{
    if kids.len() == 0 {
        Seq::empty()
    } else {
        match last_index(ids, kids.last()) {
            Some(i) => child_indices(ids, kids.drop_last()).push(i),
            None => child_indices(ids, kids.drop_last()),
        }
    }
}

/// The mesh of a node: none for a nested prefab; for a mesh node, its
/// source model if it has one, else the placeholder cube.
pub open spec fn mesh_of<P, N>(n: NodeView<P, N>) -> Option<MeshView> {
    if n.prefab_ref_uuid is Some {
        None
    } else if n.node_type is Mesh {
        match n.asset_source_uuid {
            Some(u) => Some(MeshView::ModelRef { model_uuid: u }),
            None => Some(MeshView::ProceduralCube),
        }
    } else {
        None
    }
}

/// The prefab node made from the stored node `n` of id `id`, with the
/// cached transform (or the default), physics and navigation mesh of `id`.
pub open spec fn node_of<T, P, N>(
    ids: Seq<Seq<char>>,
    id: Seq<char>,
    n: NodeView<P, N>,
    c: PrefabCaches<T, P, N>,
) -> PrefabNodeView<T, P, N> {
    PrefabNodeView {
        node_id: id,
        name: n.name,
        children: child_indices(ids, n.children),
        mesh: mesh_of(n),
        prefab_ref: n.prefab_ref_uuid,
        transform: if c.transforms.contains_key(id) {
            c.transforms[id]
        } else {
            c.default_transform
        },
        physics: cached(c.physics, id),
        navmesh: cached(c.navmesh, id),
    }
}

/// The prefab nodes of the ids `list` that are stored, in order, with
/// children indexed in `ids`.
pub open spec fn nodes_of<T, P, N>(
    m: Map<Seq<char>, NodeView<P, N>>,
    ids: Seq<Seq<char>>,
    list: Seq<Seq<char>>,
    c: PrefabCaches<T, P, N>,
) -> Seq<PrefabNodeView<T, P, N>>
    decreases list.len(),
{
    if list.len() == 0 {
        Seq::empty()
    } else if m.contains_key(list.last()) {
        nodes_of(m, ids, list.drop_last(), c).push(node_of(ids, list.last(), m[list.last()], c))
    } else {
        nodes_of(m, ids, list.drop_last(), c)
    }
}

/// The last position of `x` in `ids`.
fn find_last(ids: &Vec<String>, x: &str) -> (r: Option<usize>)
    ensures
        r == last_index(texts(ids@), x@),
{
    let mut i: usize = ids.len();
    assert(texts(ids@).take(ids@.len() as int) =~= texts(ids@));
    while i > 0
        invariant
            i <= ids@.len(),
            last_index(texts(ids@), x@) == last_index(texts(ids@).take(i as int), x@),
        decreases i,
    {
        let ghost t = texts(ids@).take(i as int);
        proof {
            assert(t.drop_last() =~= texts(ids@).take(i - 1));
            assert(t.last() == ids@[i - 1]@);
        }
        if str_eq(ids[i - 1].as_str(), x) {
            return Some(i - 1);
        }
        i = i - 1;
    }
    None
}

/// The indices of the children that occur in `ids`.
fn indices_of(ids: &Vec<String>, kids: &Vec<String>) -> (r: Vec<usize>)
    ensures
        r@ == child_indices(texts(ids@), texts(kids@)),
{
    let mut r: Vec<usize> = Vec::new();
    let mut j: usize = 0;
    while j < kids.len()
        invariant
            j <= kids@.len(),
            r@ == child_indices(texts(ids@), texts(kids@).take(j as int)),
        decreases kids@.len() - j,
    {
        proof {
            let t = texts(kids@).take(j + 1);
            assert(t.drop_last() =~= texts(kids@).take(j as int));
            assert(t.last() == kids@[j as int]@);
        }
        match find_last(ids, kids[j].as_str()) {
            Some(i) => r.push(i),
            None => {},
        }
        j = j + 1;
    }
    assert(texts(kids@).take(kids@.len() as int) =~= texts(kids@));
    r
}

/// The value cached under `id`, if any.
fn cached_value<V: Copy>(m: &NameMap<V>, id: &str) -> (r: Option<V>)
    ensures
        r == cached(m@, id@),
{
    match m.get(id) {
        Some(v) => Some(*v),
        None => None,
    }
}

/// The prefab nodes of the subtree of `root` as the editor saves it: the
/// root, then each node the bounded walk meets below it, skipping ids that
/// are not stored; children are indices into that list of ids (a repeated
/// id counts at its last position). Each node carries the transform,
/// physics and navigation mesh cached for its id; a node without a cached
/// transform gets `default_transform`. `None` when `root` is not stored.
pub fn prefab_nodes<T: Copy, P: Copy, N: Copy>(
    tree: &SceneNodeTree<P, N>,
    root: &str,
    transforms: &NameMap<T>,
    physics: &NameMap<P>,
    navmesh: &NameMap<N>,
    default_transform: T,
) -> (r: Option<Vec<PrefabNode<T, P, N>>>)
    requires
        tree.wf(),
    ensures
        r is Some == tree@.nodes.contains_key(root@),
        r matches Some(v) ==> v@.map_values(|n: PrefabNode<T, P, N>| prefab_node_view(n)) == nodes_of(
            tree@.nodes,
            prefab_ids(tree@.nodes, root@),
            prefab_ids(tree@.nodes, root@),
            PrefabCaches { transforms: transforms@, physics: physics@, navmesh: navmesh@, default_transform },
        ),
        r matches Some(v) ==> forall|k: int|
            0 <= k < v@.len() ==> {
                let p = prefab_node_view(#[trigger] v@[k]);
                let n = tree@.nodes[p.node_id];
                &&& tree@.nodes.contains_key(p.node_id)
                &&& n.prefab_ref_uuid is Some ==> p.mesh is None
                &&& n.prefab_ref_uuid is None && n.node_type is Mesh ==> match n.asset_source_uuid {
                    Some(u) => p.mesh == Some(MeshView::ModelRef { model_uuid: u }),
                    None => p.mesh == Some(MeshView::ProceduralCube),
                }
                &&& !(n.node_type is Mesh) ==> p.mesh is None
            },
{
    let ghost c = PrefabCaches { transforms: transforms@, physics: physics@, navmesh: navmesh@, default_transform };
    let ghost m = tree@.nodes;
    match tree.get(root) {
        None => {
            return None;
        },
        Some(_) => {},
    }
    let mut ids: Vec<String> = Vec::new();
    ids.push(String::from_str(root));
    let ghost first = texts(ids@);
    assert(first =~= seq![root@]);
    tree.collect_subtree_nodes(root, &mut ids);
    let ghost all = texts(ids@);
    assert(all == prefab_ids(m, root@));
    let mut out: Vec<PrefabNode<T, P, N>> = Vec::new();
    let mut k: usize = 0;
    assert(out@.map_values(|n: PrefabNode<T, P, N>| prefab_node_view(n)) =~= nodes_of(m, all, all.take(0), c));
    while k < ids.len()
        invariant
            tree.wf(),
            m == tree@.nodes,
            all == texts(ids@),
            c == (PrefabCaches { transforms: transforms@, physics: physics@, navmesh: navmesh@, default_transform }),
            k <= ids@.len(),
            out@.map_values(|n: PrefabNode<T, P, N>| prefab_node_view(n)) == nodes_of(m, all, all.take(k as int), c),
        decreases ids@.len() - k,
    {
        let ghost before = out@.map_values(|n: PrefabNode<T, P, N>| prefab_node_view(n));
        proof {
            let t = all.take(k + 1);
            assert(t.drop_last() =~= all.take(k as int));
            assert(t.last() == ids@[k as int]@);
        }
        match tree.get(ids[k].as_str()) {
            Some(n) => {
                let mesh = if n.prefab_ref_uuid.is_some() {
                    None
                } else {
                    match n.node_type {
                        NodeType::Mesh => match &n.asset_source_uuid {
                            Some(u) => Some(PrefabMesh::ModelRef { model_uuid: copy_string(u) }),
                            None => Some(PrefabMesh::ProceduralCube),
                        },
                        _ => None,
                    }
                };
                let prefab_ref = match &n.prefab_ref_uuid {
                    Some(u) => Some(copy_string(u)),
                    None => None,
                };
                let id = ids[k].as_str();
                let transform = match cached_value(transforms, id) {
                    Some(t) => t,
                    None => default_transform,
                };
                let ph = cached_value(physics, id);
                let nv = cached_value(navmesh, id);
                let node = PrefabNode {
                    node_id: copy_string(&ids[k]),
                    name: copy_string(&n.name),
                    children: indices_of(&ids, &n.children),
                    mesh,
                    prefab_ref,
                    transform,
                    physics: ph,
                    navmesh: nv,
                };
                assert(id@ == ids@[k as int]@);
                assert(prefab_node_view(node) == node_of(all, ids@[k as int]@, m[ids@[k as int]@], c));
                out.push(node);
                assert(out@.map_values(|n: PrefabNode<T, P, N>| prefab_node_view(n)) =~= before.push(
                    node_of(all, ids@[k as int]@, m[ids@[k as int]@], c),
                ));
            },
            None => {},
        }
        k = k + 1;
    }
    assert(all.take(all.len() as int) =~= all);
    proof {
        prefab_mesh_follows_the_node(m, all, all, c);
        assert forall|k: int| 0 <= k < out@.len() implies prefab_node_view(#[trigger] out@[k]) == nodes_of(
            m,
            all,
            all,
            c,
        )[k] by {
            assert(out@.map_values(|n: PrefabNode<T, P, N>| prefab_node_view(n))[k] == prefab_node_view(out@[k]));
        }
    }
    Some(out)
}

/// Whether a character is alphanumeric, as `char::is_alphanumeric` says
/// (Unicode's alphabetic and numeric properties).
pub uninterp spec fn alphanumeric(c: char) -> bool;

/// Calls `char::is_alphanumeric`, whose answer depends on the character
/// alone.
#[verifier::external_body]
fn is_alphanumeric(c: char) -> (r: bool)
    ensures
        r == alphanumeric(c),
{
    c.is_alphanumeric()
}

/// A character kept in a file stem: alphanumeric, `_` or `-`.
pub open spec fn stem_char(c: char) -> char {
    if alphanumeric(c) || c == '_' || c == '-' {
        c
    } else {
        '_'
    }
}

/// The file stem of a prefab named `name`: every character other than an
/// alphanumeric one, `_` or `-` becomes `_`.
pub fn sanitize_stem(name: &str) -> (r: String)
    ensures
        r@ == name@.map_values(|c: char| stem_char(c)),
{
    let cs = crate::text::chars_of(name);
    let mut r = String::new();
    let mut i: usize = 0;
    while i < cs.len()
        invariant
            cs@ == name@,
            i <= cs@.len(),
            r@ == name@.take(i as int).map_values(|c: char| stem_char(c)),
        decreases cs@.len() - i,
    {
        let c = cs[i];
        let ghost before = r@;
        if is_alphanumeric(c) || c == '_' || c == '-' {
            r.append(name.substring_char(i, i + 1));
            assert(name@.subrange(i as int, i + 1) =~= seq![c]);
        } else {
            r.append("_");
            proof {
                reveal_strlit("_");
            }
        }
        assert(r@ =~= before.push(stem_char(c)));
        assert(r@ =~= name@.take(i + 1).map_values(|c: char| stem_char(c))) by {
            assert(name@.take(i + 1) =~= name@.take(i as int).push(c));
        }
        i = i + 1;
    }
    assert(name@.take(name@.len() as int) =~= name@);
    r
}

/// Where a prefab of stem `stem` is saved in `project`:
/// `{project}/assets/{stem}.prefab.json`, or `{stem}_copy.prefab.json`
/// when that file is already taken.
pub fn prefab_path(project: &str, stem: &str, taken: bool) -> (r: String)
    ensures
        r@ == project@ + "/assets/"@ + stem@ + (if taken {
            "_copy"@
        } else {
            Seq::empty()
        }) + ".prefab.json"@,
{
    let mut r = String::from_str(project);
    r.append("/assets/");
    r.append(stem);
    if taken {
        r.append("_copy");
    }
    r.append(".prefab.json");
    proof {
        reveal_strlit("/assets/");
        reveal_strlit("_copy");
        reveal_strlit(".prefab.json");
    }
    assert(r@ =~= project@ + "/assets/"@ + stem@ + (if taken {
        "_copy"@
    } else {
        Seq::empty()
    }) + ".prefab.json"@);
    r
}

/// The mesh a saved prefab node carries follows the scene node it was
/// made from: a nested prefab carries none; a mesh node with a source
/// model refers to that model; the placeholder cube stands only for a mesh
/// node without a source model; other nodes carry no mesh. Each prefab
/// node is made from a stored node of the same name and nested prefab.
pub proof fn prefab_mesh_follows_the_node<T, P, N>(
    m: Map<Seq<char>, NodeView<P, N>>,
    ids: Seq<Seq<char>>,
    list: Seq<Seq<char>>,
    c: PrefabCaches<T, P, N>,
)
    ensures
        forall|k: int|
            0 <= k < nodes_of(m, ids, list, c).len() ==> {
                let v = #[trigger] nodes_of(m, ids, list, c)[k];
                let n = m[v.node_id];
                &&& m.contains_key(v.node_id)
                &&& list.contains(v.node_id)
                &&& v.name == n.name
                &&& v.prefab_ref == n.prefab_ref_uuid
                &&& n.prefab_ref_uuid is Some ==> v.mesh is None
                &&& n.prefab_ref_uuid is None && n.node_type is Mesh ==> match n.asset_source_uuid {
                    Some(u) => v.mesh == Some(MeshView::ModelRef { model_uuid: u }),
                    None => v.mesh == Some(MeshView::ProceduralCube),
                }
                &&& !(n.node_type is Mesh) ==> v.mesh is None
            },
    decreases list.len(),
{
    if list.len() > 0 {
        let rest = list.drop_last();
        prefab_mesh_follows_the_node(m, ids, rest, c);
        assert forall|k: int| 0 <= k < nodes_of(m, ids, list, c).len() implies {
            let v = #[trigger] nodes_of(m, ids, list, c)[k];
            let n = m[v.node_id];
            &&& m.contains_key(v.node_id)
            &&& list.contains(v.node_id)
            &&& v.name == n.name
            &&& v.prefab_ref == n.prefab_ref_uuid
            &&& n.prefab_ref_uuid is Some ==> v.mesh is None
            &&& n.prefab_ref_uuid is None && n.node_type is Mesh ==> match n.asset_source_uuid {
                Some(u) => v.mesh == Some(MeshView::ModelRef { model_uuid: u }),
                None => v.mesh == Some(MeshView::ProceduralCube),
            }
            &&& !(n.node_type is Mesh) ==> v.mesh is None
        } by {
            let prev = nodes_of(m, ids, rest, c);
            if k < prev.len() {
                assert(nodes_of(m, ids, list, c)[k] == prev[k]);
                let id = prev[k].node_id;
                assert(rest.contains(id));
                let i = choose|i: int| 0 <= i < rest.len() && rest[i] == id;
                assert(list[i] == id);
            } else {
                assert(m.contains_key(list.last()));
                assert(nodes_of(m, ids, list, c)[k] == node_of(ids, list.last(), m[list.last()], c));
                assert(list[list.len() - 1] == list.last());
            }
        }
    }
}

} // verus!
