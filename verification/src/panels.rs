//! State of the editor's smaller panels and dialogs, and the enumerations
//! shared by the viewport, the gizmo and the panel layout.
use vstd::prelude::*;

verus! {

/// The transform axis a gizmo handle acts on.
#[derive(Debug, Clone, Copy, PartialEq, Eq, Structural)]
pub enum Axis {
    X,
    Y,
    Z,
    /// A plane of two axes (such as XY, for planar translation).
    Plane(AxisPlane),
}

/// A plane spanned by two axes.
#[derive(Debug, Clone, Copy, PartialEq, Eq, Structural)]
pub enum AxisPlane {
    XY,
    XZ,
    YZ,
}

/// The operation of the transform gizmo.
#[derive(Debug, Clone, Copy, PartialEq, Eq, Structural)]
pub enum GizmoMode {
    Translate,
    Rotate,
    Scale,
}

/// The layers of the editor's panels; a higher level is drawn on top.
#[derive(Debug, Clone, Copy, PartialEq, Eq, Hash, Structural)]
pub enum PanelLayer {
    /// The scene viewport (bottom layer).
    SceneView,
    AssetBrowser,
    Hierarchy,
    Inspector,
    /// The floating toolbar.
    Toolbar,
    Animation,
}

impl PanelLayer {
    /// The drawing level of the layer, from 0 (bottom) upwards.
    pub fn level(&self) -> (r: u8)
        ensures
            r == match *self {
                PanelLayer::SceneView => 0u8,
                PanelLayer::AssetBrowser => 1u8,
                PanelLayer::Hierarchy => 2u8,
                PanelLayer::Inspector => 3u8,
                PanelLayer::Toolbar => 4u8,
                PanelLayer::Animation => 5u8,
            },
    {
        match self {
            PanelLayer::SceneView => 0,
            PanelLayer::AssetBrowser => 1,
            PanelLayer::Hierarchy => 2,
            PanelLayer::Inspector => 3,
            PanelLayer::Toolbar => 4,
            PanelLayer::Animation => 5,
        }
    }
}

/// Renders the classic editor layout (its drawing lives with the user
/// interface toolkit).
pub struct EditorLayout;

/// The kind of scene node shown in the hierarchy.
#[derive(Debug, Clone, Copy, PartialEq, Eq, Structural)]
pub enum NodeType {
    Empty,
    Mesh,
    Light,
    Camera,
    PlayerSpawn,
}

impl NodeType {
    /// The icon shown next to nodes of this kind.
    pub fn icon(&self) -> (r: &str)
        ensures
            r@ == match *self {
                NodeType::Empty => "\u{1F4E6}"@,
                NodeType::Mesh => "\u{1F537}"@,
                NodeType::Light => "\u{1F4A1}"@,
                NodeType::Camera => "\u{1F4F7}"@,
                NodeType::PlayerSpawn => "\u{1F3AF}"@,
            },
    {
        match self {
            NodeType::Empty => "\u{1F4E6}",
            NodeType::Mesh => "\u{1F537}",
            NodeType::Light => "\u{1F4A1}",
            NodeType::Camera => "\u{1F4F7}",
            NodeType::PlayerSpawn => "\u{1F3AF}",
        }
    }
}

/// The kind of resource made from an imported GLTF file.
#[derive(Debug, Clone, Copy, PartialEq, Eq, Structural)]
pub enum ImportResourceType {
    Scene,
    Avatar,
}

/// State of the GLTF import dialog.
pub struct GltfImportDialog {
    /// Whether the dialog is shown.
    pub visible: bool,
    pub resource_type: ImportResourceType,
    /// The chosen GLTF file (absolute path).
    pub source_path: String,
    pub resource_name: String,
    pub status_message: Option<String>,
    /// Whether the last import succeeded.
    pub import_success: bool,
    /// Whether colliders are generated (scenes only).
    pub collision_enabled: bool,
}

impl GltfImportDialog {
    /// A hidden dialog set up for scenes, with nothing chosen.
    pub fn new() -> (d: Self)
        ensures
            !d.visible,
            d.resource_type is Scene,
            d.source_path@.len() == 0,
            d.resource_name@.len() == 0,
            d.status_message is None,
            !d.import_success,
            !d.collision_enabled,
    {
        GltfImportDialog {
            visible: false,
            resource_type: ImportResourceType::Scene,
            source_path: String::new(),
            resource_name: String::new(),
            status_message: None,
            import_success: false,
            collision_enabled: false,
        }
    }

    /// Shows the dialog with a fresh choice; the resource type and the
    /// collider option are kept.
    pub fn open(&mut self)
        ensures
            final(self).visible,
            final(self).source_path@.len() == 0,
            final(self).resource_name@.len() == 0,
            final(self).status_message is None,
            !final(self).import_success,
            final(self).resource_type == old(self).resource_type,
            final(self).collision_enabled == old(self).collision_enabled,
    {
        self.visible = true;
        self.source_path = String::new();
        self.resource_name = String::new();
        self.status_message = None;
        self.import_success = false;
    }
}

impl Default for GltfImportDialog {
    fn default() -> (d: Self)
        ensures
            !d.visible,
            d.resource_type is Scene,
            d.source_path@.len() == 0,
            d.resource_name@.len() == 0,
            d.status_message is None,
            !d.import_success,
            !d.collision_enabled,
    {
        Self::new()
    }
}

/// State of the material editor panel.
pub struct MaterialEditorPanel {
    /// The index of the selected material.
    pub selected_material: Option<usize>,
    /// The search text.
    pub filter: String,
}

impl MaterialEditorPanel {
    /// A panel with no selection and an empty search.
    pub fn new() -> (p: Self)
        ensures
            p.selected_material is None,
            p.filter@.len() == 0,
    {
        MaterialEditorPanel { selected_material: None, filter: String::new() }
    }
}

/// State of the bundle builder panel.
pub struct BundlePanel {
    pub bundle_name: String,
    /// The UUIDs of the assets chosen for the bundle.
    pub selected_uuids: Vec<String>,
    pub status_message: Option<String>,
    pub last_success: bool,
}

impl BundlePanel {
    /// A panel with no name and no asset chosen.
    pub fn new() -> (p: Self)
        ensures
            p.bundle_name@.len() == 0,
            p.selected_uuids@.len() == 0,
            p.status_message is None,
            !p.last_success,
    {
        BundlePanel {
            bundle_name: String::new(),
            selected_uuids: Vec::new(),
            status_message: None,
            last_success: false,
        }
    }
}

/// The game a project starts in play mode (read from the `[game]` section
/// of the project configuration).
#[derive(Debug, Clone)]
pub struct GameConfig {
    pub game_type: String,
    pub module: String,
    pub class_name: String,
    pub title: String,
    pub width: u32,
    pub height: u32,
}

/// Draws collider outlines from the latest snapshot of physics bodies.
pub struct PhysicsDebugRenderer<B> {
    /// Whether the outlines are drawn.
    pub enabled: bool,
    bodies: Vec<B>,
}

impl<B> PhysicsDebugRenderer<B> {
    /// The bodies of the latest snapshot.
    pub closed spec fn body_list(&self) -> Seq<B> {
        self.bodies@
    }

    /// Whether the outlines are drawn.
    pub closed spec fn is_enabled(&self) -> bool {
        self.enabled
    }

    /// A disabled renderer with no bodies.
    pub fn new() -> (r: Self)
        ensures
            !r.is_enabled(),
            r.body_list().len() == 0,
    {
        PhysicsDebugRenderer { enabled: false, bodies: Vec::new() }
    }

    /// Replaces the snapshot.
    pub fn update(&mut self, bodies: Vec<B>)
        ensures
            final(self).body_list() == bodies@,
            final(self).is_enabled() == old(self).is_enabled(),
    {
        self.bodies = bodies;
    }

    /// The bodies of the latest snapshot.
    pub fn bodies(&self) -> (r: &[B])
        ensures
            r@ == self.body_list(),
    {
        self.bodies.as_slice()
    }

    /// Switches drawing on or off.
    pub fn toggle(&mut self)
        ensures
            final(self).is_enabled() == !old(self).is_enabled(),
            final(self).body_list() == old(self).body_list(),
    {
        self.enabled = !self.enabled;
    }
}

/// The kind of physics character controller.
#[derive(Debug, Clone, Copy, PartialEq, Eq, Structural)]
pub enum CharacterControllerType {
    /// A capsule controller.
    Capsule,
    /// A fully simulated skeleton of rigid bodies.
    Ragdoll,
}

} // verus!
