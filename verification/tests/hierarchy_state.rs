use geese::hub_conns::NameMap;
use geese::hierarchy_state::PrimitiveKind;
use geese::hierarchy_state::HierarchyAction;
use geese::hierarchy_state::HierarchyState;
use geese::panels::NodeType;
use geese::prefab::prefab_nodes;
use geese::prefab::prefab_path;
use geese::prefab::sanitize_stem;
use geese::prefab::PrefabMesh;
use geese::scene_tree::SceneNodeData;

type Tx = u8;

fn node(id: &str, parent: Option<&str>, kind: NodeType) -> SceneNodeData<u8, u8> {
    SceneNodeData {
        id: id.to_string(),
        name: id.to_uppercase(),
        children: Vec::new(),
        parent: parent.map(|p| p.to_string()),
        visible: true,
        locked: false,
        node_type: kind,
        asset_source_uuid: None,
        prefab_ref_uuid: None,
        physics: Some(3),
        navmesh: None,
    }
}

fn sample() -> HierarchyState<u8, u8, Tx> {
    let mut h: HierarchyState<u8, u8, Tx> = HierarchyState::new(0);
    h.add_scene_node(node("root", None, NodeType::Empty));
    h.add_scene_node(node("a", Some("root"), NodeType::Mesh));
    h.add_scene_node(node("a1", Some("a"), NodeType::Light));
    h
}

#[test]
fn create_child_adds_an_expanded_empty_node() {
    let mut h = sample();
    h.create_child("a", "n1".to_string());
    let n = h.tree().get("n1").unwrap();
    assert_eq!(n.name, "GameObject");
    assert_eq!(n.parent, Some("a".to_string()));
    assert_eq!(h.tree().get("a").unwrap().children, vec!["a1".to_string(), "n1".to_string()]);
}

#[test]
fn create_empty_goes_under_the_selection_and_is_selected() {
    let mut h = sample();
    h.select(Some("root".to_string()));
    h.create_empty("n2".to_string());
    assert_eq!(h.tree().get("n2").unwrap().parent, Some("root".to_string()));
    h.create_empty("n3".to_string());
    assert_eq!(h.tree().get("n3").unwrap().parent, Some("n2".to_string()));
}

#[test]
fn duplicate_copies_node_without_children() {
    let mut h = sample();
    h.duplicate("a", "a_dup".to_string());
    let d = h.tree().get("a_dup").unwrap();
    assert_eq!(d.name, "A_copy");
    assert!(d.children.is_empty());
    assert_eq!(d.parent, Some("root".to_string()));
    assert_eq!(d.physics, Some(3));
    h.duplicate("missing", "x".to_string());
    assert!(h.tree().get("x").is_none());
}

#[test]
fn delete_subtree_clears_the_selection() {
    let mut h = sample();
    h.select(Some("a".to_string()));
    h.delete_subtree("a");
    assert!(h.tree().get("a").is_none());
    assert!(h.tree().get("a1").is_none());
    assert!(h.tree().get("root").is_some());
    h.create_empty("top".to_string());
    assert_eq!(h.tree().get("top").unwrap().parent, None);
}

#[test]
fn rename_commits_only_a_non_empty_name() {
    let mut h = sample();
    h.begin_rename("a", "A");
    h.set_rename_text("Hero".to_string());
    assert_eq!(h.commit_rename(), Some(("a".to_string(), "Hero".to_string())));
    h.begin_rename("a", "A");
    h.set_rename_text(String::new());
    assert_eq!(h.commit_rename(), None);
    assert_eq!(h.commit_rename(), None);
    h.drop_prefab(Some("p-1".to_string()), None);
    let actions = h.take_actions();
    assert_eq!(actions.len(), 2);
    assert!(matches!(&actions[0], HierarchyAction::RenameEntity { node_id, new_name } if node_id == "a" && new_name == "Hero"));
    assert!(matches!(&actions[1], HierarchyAction::InstantiatePrefab { prefab_uuid, parent_node_id: None } if prefab_uuid == "p-1"));
}

#[test]
fn prefab_nodes_index_children_and_pick_meshes() {
    let h = sample();
    let mut transforms: NameMap<Tx> = NameMap::new();
    transforms.insert("a".to_string(), 9);
    let mut physics: NameMap<u8> = NameMap::new();
    physics.insert("a1".to_string(), 4);
    let navmesh: NameMap<u8> = NameMap::new();
    let nodes = prefab_nodes(h.tree(), "root", &transforms, &physics, &navmesh, 1).unwrap();
    assert_eq!(nodes[0].transform, 1);
    assert_eq!(nodes[1].transform, 9);
    assert_eq!(nodes[2].physics, Some(4));
    assert_eq!(nodes[0].physics, None);
    assert_eq!(nodes[1].navmesh, None);
    assert_eq!(nodes.len(), 3);
    assert_eq!(nodes[0].node_id, "root");
    assert_eq!(nodes[0].children, vec![1]);
    assert_eq!(nodes[1].children, vec![2]);
    assert!(matches!(nodes[1].mesh, Some(PrefabMesh::ProceduralCube)));
    assert!(nodes[2].mesh.is_none());
    assert!(prefab_nodes(h.tree(), "nowhere", &transforms, &physics, &navmesh, 1).is_none());
    let own = h.prefab_of("root").unwrap();
    assert_eq!(own.len(), 3);
    assert_eq!(own[1].transform, 0);
}

#[test]
fn prefab_file_names() {
    assert_eq!(sanitize_stem("My Prefab #1"), "My_Prefab__1");
    assert_eq!(sanitize_stem("héros-2_b"), "héros-2_b");
    assert_eq!(prefab_path("/p", "tree", false), "/p/assets/tree.prefab.json");
    assert_eq!(prefab_path("/p", "tree", true), "/p/assets/tree_copy.prefab.json");
}

#[test]
fn toggles_flip_expansion_visibility_and_lock() {
    let mut h = sample();
    h.toggle_expanded("a");
    h.toggle_visible("a");
    h.toggle_locked("a1");
    let a = h.tree().get("a").unwrap();
    assert!(!a.visible);
    assert!(!a.locked);
    let a1 = h.tree().get("a1").unwrap();
    assert!(a1.visible);
    assert!(a1.locked);
    h.toggle_visible("a");
    h.toggle_locked("a1");
    assert!(h.tree().get("a").unwrap().visible);
    assert!(!h.tree().get("a1").unwrap().locked);
    h.toggle_visible("missing");
    assert!(h.tree().get("missing").is_none());
}

#[test]
fn create_primitive_queues_each_kind() {
    let mut h = sample();
    h.create_primitive("a", PrimitiveKind::Cube);
    h.create_primitive("a", PrimitiveKind::Sphere);
    h.create_primitive("root", PrimitiveKind::Plane);
    h.create_primitive("root", PrimitiveKind::Cylinder);
    let actions = h.take_actions();
    let kinds: Vec<(String, Option<String>)> = actions
        .iter()
        .map(|a| match a {
            HierarchyAction::CreatePrimitive { kind, parent_node_id } => (kind.clone(), parent_node_id.clone()),
            _ => panic!("unexpected action"),
        })
        .collect();
    assert_eq!(
        kinds,
        vec![
            ("cube".to_string(), Some("a".to_string())),
            ("sphere".to_string(), Some("a".to_string())),
            ("plane".to_string(), Some("root".to_string())),
            ("cylinder".to_string(), Some("root".to_string())),
        ]
    );
}
