use geese::hub_conns::NameMap;
use geese::inspector::BodyKind;
use geese::inspector::InspectorAction;
use geese::inspector::InspectorState;
use geese::inspector::PhysicsSettings;

type Tf = (i32, i32);

fn caches() -> (NameMap<String>, NameMap<Tf>, NameMap<PhysicsSettings>) {
    let mut names = NameMap::new();
    names.insert("e1".to_string(), "Player".to_string());
    let mut transforms = NameMap::new();
    transforms.insert("e1".to_string(), (5, 6));
    let mut physics = NameMap::new();
    physics.insert(
        "e1".to_string(),
        PhysicsSettings { server_enabled: false, client_enabled: true, collision_enabled: true, body_kind: BodyKind::Dynamic },
    );
    (names, transforms, physics)
}

#[test]
fn selection_change_takes_values_from_caches() {
    let (names, mut transforms, physics) = caches();
    let mut s: InspectorState<Tf, u8> = InspectorState::new((0, 1), 7);
    s.sync_selection(Some("e1"), &names, &mut transforms, &physics, (0, 1));
    assert_eq!(s.entity_name, "Player");
    assert_eq!(s.transform, (5, 6));
    assert!(s.physics_enabled);
    assert!(!s.physics_server_enabled);
    assert_eq!(s.physics_body_kind_idx, 1);
    s.sync_selection(Some("e2"), &names, &mut transforms, &physics, (0, 1));
    assert_eq!(s.entity_name, "");
    assert_eq!(s.transform, (0, 1));
    assert!(!s.physics_enabled);
    assert_eq!(transforms.get("e2"), Some(&(0, 1)));
    s.entity_name = "edited".to_string();
    s.sync_selection(Some("e2"), &names, &mut transforms, &physics, (9, 9));
    assert_eq!(s.entity_name, "edited");
}

#[test]
fn edits_produce_actions_and_cache_updates() {
    let (mut names, mut transforms, physics) = caches();
    let mut s: InspectorState<Tf, u8> = InspectorState::new((0, 1), 7);
    s.sync_selection(Some("e1"), &names, &mut transforms, &physics, (0, 1));
    let mut actions: Vec<InspectorAction<u8>> = Vec::new();
    s.rename("e1", "Hero".to_string(), &mut names, &mut actions);
    assert_eq!(names.get("e1"), Some(&"Hero".to_string()));
    assert!(matches!(&actions[0], InspectorAction::RenameEntity { node_id, new_name } if node_id == "e1" && new_name == "Hero"));
    let edit = s.edit_transform("e1", (8, 8), &mut transforms);
    assert_eq!(edit.old_transform, (5, 6));
    assert_eq!(edit.new_transform, (8, 8));
    assert_eq!(transforms.get("e1"), Some(&(8, 8)));
    s.set_server_physics("e1", false, &mut actions);
    assert_eq!(actions.len(), 1);
    s.set_server_physics("e1", true, &mut actions);
    assert!(matches!(
        &actions[1],
        InspectorAction::SetPhysicsComponent { node_id, component: Some(c) }
            if node_id == "e1" && c.server_enabled && c.client_enabled && c.body_kind == BodyKind::Dynamic
    ));
    s.set_body_kind_index("e1", 0, &mut actions);
    assert!(matches!(&actions[2], InspectorAction::SetPhysicsComponent { component: Some(c), .. } if c.body_kind == BodyKind::Fixed));
    s.toggle_physics("e1", &mut actions);
    assert!(matches!(&actions[3], InspectorAction::SetPhysicsComponent { component: None, .. }));
    s.toggle_physics("e1", &mut actions);
    assert!(matches!(
        &actions[4],
        InspectorAction::SetPhysicsComponent { component: Some(c), .. }
            if c.server_enabled && c.client_enabled && c.collision_enabled && c.body_kind == BodyKind::Fixed
    ));
    s.toggle_character_controller("e1", &mut actions);
    assert!(matches!(&actions[5], InspectorAction::ToggleCharacterController { enabled: true, params: 7, .. }));
    s.save_as_prefab("e1", &mut actions);
    assert!(matches!(&actions[6], InspectorAction::SaveAsPrefab { node_id } if node_id == "e1"));
    assert_eq!(s.physics_settings().body_kind, BodyKind::Fixed);
}

#[test]
fn component_overview_lists_what_the_entity_has() {
    let mut s: InspectorState<Tf, u8> = InspectorState::new((0, 1), 7);
    assert_eq!(s.component_labels(false), vec!["• Transform".to_string()]);
    let mut actions: Vec<InspectorAction<u8>> = Vec::new();
    s.toggle_physics("e", &mut actions);
    assert_eq!(
        s.component_labels(true),
        vec!["• Transform".to_string(), "• Mesh Renderer".to_string(), "• Physics Component".to_string()]
    );
}
