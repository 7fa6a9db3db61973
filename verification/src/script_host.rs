//! Events handed to the game's scripting backend, and the backend that
//! runs no script.
use vstd::prelude::*;

verus! {

/// An event of the engine, as the scripts see it.
#[derive(Clone, Debug)]
pub enum EngineEvent {
    EntityCreated { entity_id: String, prefab: String },
    EntityDestroyed { entity_id: String },
    Collision { entity_a: String, entity_b: String },
    Custom { name: String, payload: String },
}

/// The scripting backend used when no script engine is available.
pub struct NullScriptHost;

} // verus!
