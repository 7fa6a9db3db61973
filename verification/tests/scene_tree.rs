use geese::panels::NodeType;
use geese::scene_tree::SceneNodeData;
use geese::scene_tree::SceneNodeTree;

fn node(id: &str, name: &str, parent: Option<&str>) -> SceneNodeData<(), ()> {
    SceneNodeData {
        id: id.to_string(),
        name: name.to_string(),
        children: Vec::new(),
        parent: parent.map(|p| p.to_string()),
        visible: true,
        locked: false,
        node_type: NodeType::Empty,
        asset_source_uuid: None,
        prefab_ref_uuid: None,
        physics: None,
        navmesh: None,
    }
}

fn sample() -> SceneNodeTree<(), ()> {
    let mut t = SceneNodeTree::new();
    t.add_node(node("root", "World", None));
    t.add_node(node("a", "Player", Some("root")));
    t.add_node(node("b", "Camera", Some("root")));
    t.add_node(node("a1", "PlayerMesh", Some("a")));
    t.add_node(node("orphan", "Lost", Some("missing")));
    t
}

#[test]
fn nodes_link_to_parents_or_the_top_level() {
    let t = sample();
    assert_eq!(t.root_ids(), &["root".to_string(), "orphan".to_string()]);
    assert_eq!(t.get("root").unwrap().children, vec!["a".to_string(), "b".to_string()]);
    assert_eq!(t.get("a").unwrap().children, vec!["a1".to_string()]);
    assert!(t.get("missing").is_none());
    let kids: Vec<&str> = t.children_of("root").iter().map(|n| n.id.as_str()).collect();
    assert_eq!(kids, vec!["a", "b"]);
    assert!(t.children_of("nowhere").is_empty());
}

#[test]
fn subtree_is_listed_depth_first() {
    let t = sample();
    assert_eq!(
        t.collect_subtree_ids("root"),
        vec!["root".to_string(), "a".to_string(), "a1".to_string(), "b".to_string()]
    );
    assert_eq!(t.collect_subtree_ids("nowhere"), vec!["nowhere".to_string()]);
}

#[test]
fn removing_a_node_removes_its_subtree() {
    let mut t = sample();
    t.remove("a");
    assert!(t.get("a").is_none());
    assert!(t.get("a1").is_none());
    assert!(t.get("b").is_some());
    t.remove("root");
    assert!(t.get("b").is_none());
    assert_eq!(t.root_ids(), &["orphan".to_string()]);
}

#[test]
fn find_matches_names_ignoring_case() {
    let t = sample();
    let mut found = t.find("player");
    found.sort();
    assert_eq!(found, vec!["a".to_string(), "a1".to_string()]);
    assert_eq!(t.find("PLAYERMESH"), vec!["a1".to_string()]);
    assert_eq!(t.find("").len(), 5);
    assert!(t.find("zebra").is_empty());
}

#[test]
fn walk_below_skips_self_links_and_stops_on_cycles() {
    let mut t = sample();
    let mut out = Vec::new();
    t.collect_subtree_nodes("root", &mut out);
    assert_eq!(out, vec!["a".to_string(), "a1".to_string(), "b".to_string()]);
    let mut looped = node("x", "Loop", None);
    looped.children = vec!["x".to_string(), "y".to_string()];
    t.add_node(looped);
    let mut y = node("y", "Back", None);
    y.children = vec!["x".to_string()];
    t.add_node(y);
    let mut walk = Vec::new();
    t.collect_subtree_nodes("x", &mut walk);
    assert_eq!(walk.len(), 2049);
    assert_eq!(walk[0], "y");
    assert_eq!(walk[1], "x");
}

#[test]
fn nodes_can_be_edited_in_place() {
    let mut t = sample();
    match t.get_mut("b") {
        Some(n) => n.visible = false,
        None => panic!("node b is stored"),
    }
    assert!(!t.get("b").unwrap().visible);
    assert!(t.get_mut("missing").is_none());
}
