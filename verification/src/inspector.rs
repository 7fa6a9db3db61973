//! What the inspector panel decides: the values it shows for the selected
//! entity, taken from the editor's per-entity caches when the selection
//! changes, and the actions and cache updates its edits produce. `T` is a
//! transform as the editor caches it, `C` the character controller's
//! tuning values.
use vstd::prelude::*;
use crate::hub_conns::NameMap;
use crate::commands::opt_str_text;
use crate::text::copy_string;
use crate::text::opt_text;
use crate::text::texts;
use crate::text::str_eq;

verus! {

/// How a physics body moves.
#[derive(Debug, Clone, Copy, PartialEq, Eq, Structural)]
pub enum BodyKind {
    Fixed,
    Dynamic,
}

/// The physics component of an entity, as the inspector reads and writes it.
#[derive(Debug, Clone, Copy, PartialEq, Eq, Structural)]
pub struct PhysicsSettings {
    pub server_enabled: bool,
    pub client_enabled: bool,
    pub collision_enabled: bool,
    pub body_kind: BodyKind,
}

/// An action the inspector asks the editor to carry out.
#[derive(Debug)]
pub enum InspectorAction<C> {
    RenameEntity { node_id: String, new_name: String },
    SaveAsPrefab { node_id: String },
    /// Sets (`Some`) or removes (`None`) the physics component.
    SetPhysicsComponent { node_id: String, component: Option<PhysicsSettings> },
    ToggleCharacterController { node_id: String, enabled: bool, params: C },
}

/// A transform edit for the undo history: the entity, its transform before
/// and after.
#[derive(Debug)]
pub struct TransformEdit<T> {
    pub entity_id: String,
    pub old_transform: T,
    pub new_transform: T,
}

/// Whether `a` renames `id` to `name`.
pub open spec fn renames<C>(a: InspectorAction<C>, id: Seq<char>, name: Seq<char>) -> bool {
    a matches InspectorAction::RenameEntity { node_id, new_name } && node_id@ == id && new_name@ == name
}

/// Whether `a` asks to save `id` as a prefab.
pub open spec fn saves<C>(a: InspectorAction<C>, id: Seq<char>) -> bool {
    a matches InspectorAction::SaveAsPrefab { node_id } && node_id@ == id
}

/// Whether `a` sets the physics component of `id` to `c`.
pub open spec fn sets_physics<C>(a: InspectorAction<C>, id: Seq<char>, c: Option<PhysicsSettings>) -> bool {
    a matches InspectorAction::SetPhysicsComponent { node_id, component } && node_id@ == id && component == c
}

/// Whether `a` switches the character controller of `id` on or off
/// (`enabled`) with the tuning values `p`.
pub open spec fn toggles_controller<C>(a: InspectorAction<C>, id: Seq<char>, enabled: bool, p: C) -> bool {
    a matches InspectorAction::ToggleCharacterController { node_id, enabled: e, params } && node_id@ == id && e
        == enabled && params == p
}

/// `after` is `before` with one more action, which satisfies `added`.
pub open spec fn one_more<C>(
    before: Seq<InspectorAction<C>>,
    after: Seq<InspectorAction<C>>,
    added: spec_fn(InspectorAction<C>) -> bool,
) -> bool {
    &&& after.len() == before.len() + 1
    &&& after.drop_last() == before
    &&& added(after.last())
}

/// The physics component a new one starts as: on both sides, colliding,
/// fixed.
pub open spec fn default_physics() -> PhysicsSettings {
    PhysicsSettings { server_enabled: true, client_enabled: true, collision_enabled: true, body_kind: BodyKind::Fixed }
}

/// The body kind of the type selector's index: 1 is dynamic, any other
/// fixed.
pub open spec fn kind_of_index(idx: usize) -> BodyKind {
    if idx == 1 {
        BodyKind::Dynamic
    } else {
        BodyKind::Fixed
    }
}

/// The inspector panel's state.
pub struct InspectorState<T, C> {
    /// The name shown for the selected entity.
    pub entity_name: String,
    /// The transform shown for the selected entity.
    pub transform: T,
    /// The selection the shown values were taken for.
    pub last_selected: Option<String>,
    pub cc_params: C,
    pub cc_enabled: bool,
    pub physics_enabled: bool,
    pub physics_server_enabled: bool,
    pub physics_client_enabled: bool,
    /// The body type selector: 0 for fixed, 1 for dynamic.
    pub physics_body_kind_idx: usize,
}

impl<T: Copy, C: Copy> InspectorState<T, C> {
    /// Nothing selected; shows `transform` and the tuning values `cc_params`;
    /// no character controller; the physics settings of a new component.
    pub fn new(transform: T, cc_params: C) -> (s: Self)
        ensures
            s.entity_name@.len() == 0,
            s.transform == transform,
            s.last_selected is None,
            s.cc_params == cc_params,
            !s.cc_enabled,
            !s.physics_enabled,
            s.physics_server_enabled,
            s.physics_client_enabled,
            s.physics_body_kind_idx == 0,
    {
        InspectorState {
            entity_name: String::new(),
            transform,
            last_selected: None,
            cc_params,
            cc_enabled: false,
            physics_enabled: false,
            physics_server_enabled: true,
            physics_client_enabled: true,
            physics_body_kind_idx: 0,
        }
    }

    /// The physics component the current settings describe.
    pub fn physics_settings(&self) -> (p: PhysicsSettings)
        ensures
            p == (PhysicsSettings {
                server_enabled: self.physics_server_enabled,
                client_enabled: self.physics_client_enabled,
                collision_enabled: true,
                body_kind: kind_of_index(self.physics_body_kind_idx),
            }),
    {
        let body_kind = if self.physics_body_kind_idx == 1 {
            BodyKind::Dynamic
        } else {
            BodyKind::Fixed
        };
        PhysicsSettings {
            server_enabled: self.physics_server_enabled,
            client_enabled: self.physics_client_enabled,
            collision_enabled: true,
            body_kind,
        }
    }

    /// Takes the shown values from the caches when the selection differs
    /// from the one they were taken for. For a selected entity: its cached
    /// name (empty when none), its cached transform (when none,
    /// `default_transform`, which is also cached), and whether it has a
    /// physics component, with that component's settings.
    pub fn sync_selection(
        &mut self,
        selected: Option<&str>,
        names: &NameMap<String>,
        transforms: &mut NameMap<T>,
        physics: &NameMap<PhysicsSettings>,
        default_transform: T,
    )
        ensures
            opt_text(old(self).last_selected) == opt_str_text(selected) ==> *final(self) == *old(self) && final(transforms)@
                == old(transforms)@,
            opt_text(old(self).last_selected) != opt_str_text(selected) ==> opt_text(final(self).last_selected) == opt_str_text(
                selected,
            ),
            opt_text(old(self).last_selected) != opt_str_text(selected) && selected is None ==> final(self).entity_name
                == old(self).entity_name && final(self).transform == old(self).transform && final(self).physics_enabled
                == old(self).physics_enabled && final(transforms)@ == old(transforms)@,
            opt_text(old(self).last_selected) != opt_str_text(selected) ==> (selected matches Some(id) ==> {
                &&& final(self).entity_name@ == (if names@.contains_key(id@) {
                    names@[id@]@
                } else {
                    Seq::empty()
                })
                &&& if old(transforms)@.contains_key(id@) {
                    final(self).transform == old(transforms)@[id@] && final(transforms)@ == old(transforms)@
                } else {
                    final(self).transform == default_transform && final(transforms)@ == old(transforms)@.insert(
                        id@,
                        default_transform,
                    )
                }
                &&& final(self).physics_enabled == physics@.contains_key(id@)
                &&& physics@.contains_key(id@) ==> final(self).physics_server_enabled == physics@[id@].server_enabled
                    && final(self).physics_client_enabled == physics@[id@].client_enabled
                    && final(self).physics_body_kind_idx == (if physics@[id@].body_kind == BodyKind::Dynamic {
                    1usize
                } else {
                    0usize
                })
                &&& !physics@.contains_key(id@) ==> final(self).physics_server_enabled
                    == old(self).physics_server_enabled && final(self).physics_client_enabled
                    == old(self).physics_client_enabled && final(self).physics_body_kind_idx
                    == old(self).physics_body_kind_idx
            }),
            final(self).cc_enabled == old(self).cc_enabled,
            final(self).cc_params == old(self).cc_params,
    {
        let same = match (selected, &self.last_selected) {
            (Some(a), Some(b)) => str_eq(a, b.as_str()),
            (None, None) => true,
            _ => false,
        };
        if same {
            return;
        }
        self.last_selected = match selected {
            Some(a) => Some(String::from_str(a)),
            None => None,
        };
        let id = match selected {
            Some(id) => id,
            None => {
                return;
            },
        };
        {
            self.entity_name = match names.get(id) {
                Some(n) => copy_string(n),
                None => String::new(),
            };
            match transforms.get(id) {
                Some(t) => {
                    self.transform = *t;
                },
                None => {
                    transforms.insert(String::from_str(id), default_transform);
                    self.transform = default_transform;
                },
            }
            match physics.get(id) {
                Some(c) => {
                    self.physics_enabled = true;
                    self.physics_server_enabled = c.server_enabled;
                    self.physics_client_enabled = c.client_enabled;
                    self.physics_body_kind_idx = match c.body_kind {
                        BodyKind::Dynamic => 1,
                        BodyKind::Fixed => 0,
                    };
                },
                None => {
                    self.physics_enabled = false;
                },
            }
        }
    }

    /// The name field of entity `id` was edited to `name`: it is shown,
    /// cached, and a rename is asked for.
    pub fn rename(
        &mut self,
        id: &str,
        name: String,
        names: &mut NameMap<String>,
        actions: &mut Vec<InspectorAction<C>>,
    )
        ensures
            *final(self) == (InspectorState { entity_name: final(self).entity_name, ..*old(self) }),
            final(self).entity_name@ == name@,
            final(names)@.dom() == old(names)@.dom().insert(id@),
            final(names)@[id@]@ == name@,
            forall|k: Seq<char>| k != id@ && #[trigger] old(names)@.contains_key(k) ==> final(names)@[k] == old(names)@[k],
            one_more(old(actions)@, final(actions)@, |a: InspectorAction<C>| renames(a, id@, name@)),
    {
        self.entity_name = copy_string(&name);
        names.insert(String::from_str(id), copy_string(&name));
        actions.push(InspectorAction::RenameEntity { node_id: String::from_str(id), new_name: name });
        proof {
            assert(actions@.drop_last() =~= old(actions)@);
        }
    }

    /// "Save as Prefab" on entity `id`.
    pub fn save_as_prefab(&self, id: &str, actions: &mut Vec<InspectorAction<C>>)
        ensures
            one_more(old(actions)@, final(actions)@, |a: InspectorAction<C>| saves(a, id@)),
    {
        actions.push(InspectorAction::SaveAsPrefab { node_id: String::from_str(id) });
        proof {
            assert(actions@.drop_last() =~= old(actions)@);
        }
    }

    /// The transform of entity `id` was edited to `t`: it is shown and
    /// cached, and the edit is returned for the undo history.
    pub fn edit_transform(&mut self, id: &str, t: T, transforms: &mut NameMap<T>) -> (e: TransformEdit<T>)
        ensures
            *final(self) == (InspectorState { transform: t, ..*old(self) }),
            final(transforms)@ == old(transforms)@.insert(id@, t),
            e.entity_id@ == id@,
            e.old_transform == old(self).transform,
            e.new_transform == t,
    {
        let before = self.transform;
        self.transform = t;
        transforms.insert(String::from_str(id), t);
        TransformEdit { entity_id: String::from_str(id), old_transform: before, new_transform: t }
    }

    /// "Add Component" / "Remove" of the physics component of `id`: adds
    /// one with the settings of a new component, or removes it.
    pub fn toggle_physics(&mut self, id: &str, actions: &mut Vec<InspectorAction<C>>)
        ensures
            *final(self) == (InspectorState { physics_enabled: !old(self).physics_enabled, ..*old(self) }),
            one_more(
                old(actions)@,
                final(actions)@,
                |a: InspectorAction<C>|
                    sets_physics(
                        a,
                        id@,
                        if old(self).physics_enabled {
                            None
                        } else {
                            Some(default_physics())
                        },
                    ),
            ),
    {
        self.physics_enabled = !self.physics_enabled;
        let component = if self.physics_enabled {
            Some(
                PhysicsSettings {
                    server_enabled: true,
                    client_enabled: true,
                    collision_enabled: true,
                    body_kind: BodyKind::Fixed,
                },
            )
        } else {
            None
        };
        actions.push(InspectorAction::SetPhysicsComponent { node_id: String::from_str(id), component });
        proof {
            assert(actions@.drop_last() =~= old(actions)@);
        }
    }

    /// Asks to set the physics component of `id` to the current settings.
    fn push_physics_update(&self, id: &str, actions: &mut Vec<InspectorAction<C>>)
        ensures
            one_more(
                old(actions)@,
                final(actions)@,
                |a: InspectorAction<C>|
                    sets_physics(
                        a,
                        id@,
                        Some(
                            PhysicsSettings {
                                server_enabled: self.physics_server_enabled,
                                client_enabled: self.physics_client_enabled,
                                collision_enabled: true,
                                body_kind: kind_of_index(self.physics_body_kind_idx),
                            },
                        ),
                    ),
            ),
    {
        let component = self.physics_settings();
        actions.push(InspectorAction::SetPhysicsComponent { node_id: String::from_str(id), component: Some(component) });
        proof {
            assert(actions@.drop_last() =~= old(actions)@);
        }
    }

    /// The "Server Physics" box of `id` was set to `on`; a change is
    /// applied and asked for, the same value changes nothing.
    pub fn set_server_physics(&mut self, id: &str, on: bool, actions: &mut Vec<InspectorAction<C>>)
        ensures
            on == old(self).physics_server_enabled ==> *final(self) == *old(self) && final(actions)@ == old(actions)@,
            on != old(self).physics_server_enabled ==> *final(self) == (InspectorState {
                physics_server_enabled: on,
                ..*old(self)
            }) && one_more(
                old(actions)@,
                final(actions)@,
                |a: InspectorAction<C>|
                    sets_physics(
                        a,
                        id@,
                        Some(
                            PhysicsSettings {
                                server_enabled: on,
                                client_enabled: old(self).physics_client_enabled,
                                collision_enabled: true,
                                body_kind: kind_of_index(old(self).physics_body_kind_idx),
                            },
                        ),
                    ),
            ),
    {
        if on == self.physics_server_enabled {
            return;
        }
        self.physics_server_enabled = on;
        self.push_physics_update(id, actions);
    }

    /// The "Client Physics" box of `id` was set to `on`; a change is
    /// applied and asked for, the same value changes nothing.
    pub fn set_client_physics(&mut self, id: &str, on: bool, actions: &mut Vec<InspectorAction<C>>)
        ensures
            on == old(self).physics_client_enabled ==> *final(self) == *old(self) && final(actions)@ == old(actions)@,
            on != old(self).physics_client_enabled ==> *final(self) == (InspectorState {
                physics_client_enabled: on,
                ..*old(self)
            }) && one_more(
                old(actions)@,
                final(actions)@,
                |a: InspectorAction<C>|
                    sets_physics(
                        a,
                        id@,
                        Some(
                            PhysicsSettings {
                                server_enabled: old(self).physics_server_enabled,
                                client_enabled: on,
                                collision_enabled: true,
                                body_kind: kind_of_index(old(self).physics_body_kind_idx),
                            },
                        ),
                    ),
            ),
    {
        if on == self.physics_client_enabled {
            return;
        }
        self.physics_client_enabled = on;
        self.push_physics_update(id, actions);
    }

    /// The body type selector of `id` was set to `idx`; a change is
    /// applied and asked for, the same index changes nothing.
    pub fn set_body_kind_index(&mut self, id: &str, idx: usize, actions: &mut Vec<InspectorAction<C>>)
        ensures
            idx == old(self).physics_body_kind_idx ==> *final(self) == *old(self) && final(actions)@ == old(actions)@,
            idx != old(self).physics_body_kind_idx ==> *final(self) == (InspectorState {
                physics_body_kind_idx: idx,
                ..*old(self)
            }) && one_more(
                old(actions)@,
                final(actions)@,
                |a: InspectorAction<C>|
                    sets_physics(
                        a,
                        id@,
                        Some(
                            PhysicsSettings {
                                server_enabled: old(self).physics_server_enabled,
                                client_enabled: old(self).physics_client_enabled,
                                collision_enabled: true,
                                body_kind: kind_of_index(idx),
                            },
                        ),
                    ),
            ),
    {
        if idx == self.physics_body_kind_idx {
            return;
        }
        self.physics_body_kind_idx = idx;
        self.push_physics_update(id, actions);
    }

    /// The component overview of the selected entity: its transform, its
    /// mesh renderer when it has a mesh, its physics component when enabled.
    pub fn component_labels(&self, has_mesh: bool) -> (r: Vec<String>)
        ensures
            texts(r@) == seq!["• Transform"@] + (if has_mesh {
                seq!["• Mesh Renderer"@]
            } else {
                Seq::empty()
            }) + (if self.physics_enabled {
                seq!["• Physics Component"@]
            } else {
                Seq::empty()
            }),
    {
        let mut r: Vec<String> = Vec::new();
        r.push(String::from_str("• Transform"));
        if has_mesh {
            r.push(String::from_str("• Mesh Renderer"));
        }
        if self.physics_enabled {
            r.push(String::from_str("• Physics Component"));
        }
        proof {
            let want = seq!["• Transform"@] + (if has_mesh {
                seq!["• Mesh Renderer"@]
            } else {
                Seq::empty()
            }) + (if self.physics_enabled {
                seq!["• Physics Component"@]
            } else {
                Seq::empty()
            });
            assert(texts(r@) =~= want);
        }
        r
    }

    /// "Add Component" / "Disable" of the character controller of `id`:
    /// switches it and asks for the switch with the current tuning values.
    pub fn toggle_character_controller(&mut self, id: &str, actions: &mut Vec<InspectorAction<C>>)
        ensures
            *final(self) == (InspectorState { cc_enabled: !old(self).cc_enabled, ..*old(self) }),
            one_more(
                old(actions)@,
                final(actions)@,
                |a: InspectorAction<C>| toggles_controller(a, id@, !old(self).cc_enabled, old(self).cc_params),
            ),
    {
        self.cc_enabled = !self.cc_enabled;
        actions.push(
            InspectorAction::ToggleCharacterController {
                node_id: String::from_str(id),
                enabled: self.cc_enabled,
                params: self.cc_params,
            },
        );
        proof {
            assert(actions@.drop_last() =~= old(actions)@);
        }
    }
}

} // verus!
