//! The editor's run modes: editing, playing, and paused play.
use vstd::prelude::*;

verus! {

/// The editor's run mode.
#[derive(Debug, Clone, Copy, PartialEq, Eq, Structural)]
pub enum EditorMode {
    /// Orbit camera, gizmos, fully interactive panels.
    Edit,
    /// Runtime camera, transparent panels, the scene runs.
    Play,
    /// Play suspended, the scene can be inspected.
    Pause,
}

impl EditorMode {
    /// Whether the editor is editing.
    pub fn is_editing(&self) -> (r: bool)
        ensures
            r == (*self is Edit),
    {
        match self {
            EditorMode::Edit => true,
            _ => false,
        }
    }

    /// Whether the scene is running (paused play included).
    pub fn is_playing(&self) -> (r: bool)
        ensures
            r == (*self is Play || *self is Pause),
    {
        match self {
            EditorMode::Play | EditorMode::Pause => true,
            _ => false,
        }
    }

    /// Whether the user can select entities and use gizmos: in Edit and
    /// Pause modes.
    pub fn can_interact_with_scene(&self) -> (r: bool)
        ensures
            r == (*self is Edit || *self is Pause),
    {
        match self {
            EditorMode::Edit | EditorMode::Pause => true,
            _ => false,
        }
    }
}

/// Every mode is exactly one of editing or playing, and a mode allows
/// scene interaction exactly when it is not uninterrupted play.
pub proof fn modes_partition(m: EditorMode)
    ensures
        (m is Edit) != (m is Play || m is Pause),
        (m is Edit || m is Pause) == !(m is Play),
{
}

} // verus!
