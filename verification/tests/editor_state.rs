use geese::asset_browser::AssetTypeKind;
use geese::asset_browser::AssetFilter;
use geese::asset_browser::AssetType;
use geese::asset_browser::FolderNode;
use geese::editor_mode::EditorMode;
use geese::panel_layer::PanelVisibility;
use geese::panels::BundlePanel;
use geese::panels::GltfImportDialog;
use geese::panels::ImportResourceType;
use geese::panels::MaterialEditorPanel;
use geese::panels::NodeType;
use geese::panels::PanelLayer;
use geese::panels::PhysicsDebugRenderer;

#[test]
fn editor_modes() {
    assert!(EditorMode::Edit.is_editing());
    assert!(!EditorMode::Edit.is_playing());
    assert!(EditorMode::Play.is_playing());
    assert!(EditorMode::Pause.is_playing());
    assert!(!EditorMode::Play.can_interact_with_scene());
    assert!(EditorMode::Pause.can_interact_with_scene());
    assert!(EditorMode::Edit.can_interact_with_scene());
}

#[test]
fn asset_types_and_filters() {
    assert!(AssetType::Model.is_draggable());
    assert!(AssetType::Prefab.is_draggable());
    assert!(!AssetType::Texture.is_draggable());
    assert_eq!(AssetType::Folder.icon(), "\u{1F4C1}");
    assert_eq!(AssetType::Other.icon(), "\u{1F4C4}");
    assert!(AssetFilter::All.matches(AssetType::Folder));
    assert!(AssetFilter::Textures.matches(AssetType::Texture));
    assert!(!AssetFilter::Textures.matches(AssetType::Model));
    assert_eq!(AssetFilter::Avatars.label(), "Avatars");
    let node = FolderNode::new("assets".into());
    assert_eq!(node.path, "assets");
    assert!(node.children.is_empty());
}

#[test]
fn node_icons_and_layers() {
    assert_eq!(NodeType::Light.icon(), "\u{1F4A1}");
    assert_eq!(NodeType::PlayerSpawn.icon(), "\u{1F3AF}");
    assert_eq!(PanelLayer::SceneView.level(), 0);
    assert_eq!(PanelLayer::Animation.level(), 5);
}

#[test]
fn dialogs_and_panels_start_empty() {
    let mut d = GltfImportDialog::new();
    assert!(!d.visible);
    assert_eq!(d.resource_type, ImportResourceType::Scene);
    d.resource_name = "x".into();
    d.import_success = true;
    d.collision_enabled = true;
    d.open();
    assert!(d.visible);
    assert!(d.resource_name.is_empty());
    assert!(!d.import_success);
    assert!(d.collision_enabled);
    let m = MaterialEditorPanel::new();
    assert!(m.selected_material.is_none());
    let b = BundlePanel::new();
    assert!(b.selected_uuids.is_empty());
    assert!(!b.last_success);
}

#[test]
fn physics_debug_renderer_snapshot_and_toggle() {
    let mut r: PhysicsDebugRenderer<u32> = PhysicsDebugRenderer::new();
    assert!(!r.enabled);
    r.update(vec![3, 4]);
    assert_eq!(r.bodies(), &[3, 4]);
    r.toggle();
    assert!(r.enabled);
    r.toggle();
    assert!(!r.enabled);
}

#[test]
fn panel_visibility_tab_and_pins() {
    let mut p = PanelVisibility::new();
    assert!(p.is_visible(&PanelLayer::Inspector));
    assert!(!p.is_visible(&PanelLayer::Animation));
    p.pin(PanelLayer::Inspector);
    p.toggle_all();
    assert!(p.is_visible(&PanelLayer::Inspector));
    assert!(!p.is_visible(&PanelLayer::Hierarchy));
    assert!(!p.is_visible(&PanelLayer::Animation));
    p.toggle_all();
    assert!(p.is_visible(&PanelLayer::Hierarchy));
    assert!(p.is_visible(&PanelLayer::Animation));
    p.toggle_pin(PanelLayer::Inspector);
    p.toggle_all();
    assert!(!p.is_visible(&PanelLayer::Inspector));
    assert!(!p.has_visible_above(&PanelLayer::SceneView));
    p.toggle_visible(PanelLayer::Toolbar);
    assert!(p.has_visible_above(&PanelLayer::Hierarchy));
    assert!(!p.has_visible_above(&PanelLayer::Toolbar));
    p.unpin(&PanelLayer::Toolbar);
    p.set_visible(PanelLayer::Toolbar, false);
    assert!(!p.is_visible(&PanelLayer::Toolbar));
}

#[test]
fn breadcrumb_of_nested_folder() {
    let segs = geese::asset_browser::breadcrumb_segments("assets/models/hero");
    assert_eq!(
        segs,
        vec![
            ("assets".to_string(), "assets".to_string()),
            ("models".to_string(), "assets/models".to_string()),
            ("hero".to_string(), "assets/models/hero".to_string()),
        ]
    );
    let single = geese::asset_browser::breadcrumb_segments("assets");
    assert_eq!(single, vec![("assets".to_string(), "assets".to_string())]);
    let parts = geese::asset_browser::split_path("a//b");
    assert_eq!(parts, vec!["a".to_string(), "".to_string(), "b".to_string()]);
}

#[test]
fn asset_kinds_map_to_browser_types() {
    assert_eq!(AssetType::from_kind(AssetTypeKind::Model), AssetType::Model);
    assert_eq!(AssetType::from_kind(AssetTypeKind::Prefab), AssetType::Prefab);
    assert_eq!(AssetType::from_kind(AssetTypeKind::Material), AssetType::Other);
    assert_eq!(AssetType::from_kind(AssetTypeKind::Other), AssetType::Other);
}
