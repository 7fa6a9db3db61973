//! Core logic of the geese game engine and its editor: undo/redo commands,
//! localization, input bindings, event channels, the scene hierarchy, the
//! relay registry of remote entities and editor panel state.
pub mod commands;
pub mod command_group;
pub mod text;
pub mod assoc;
pub mod i18n;
pub mod editor_mode;
pub mod asset_browser;
pub mod panels;
pub mod event;
pub mod delivery;
pub mod input;
pub mod build_panel;
pub mod health;
pub mod script_host;
pub mod panel_layer;
pub mod gate_entities;
pub mod scene_tree;
pub mod entity_commands;
pub mod hub_conns;
pub mod hierarchy_state;
pub mod prefab;
pub mod inspector;
