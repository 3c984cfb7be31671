//! What a screen of the game asks for after a frame.
use vstd::prelude::*;

verus! {

/// What a scene asks the stage manager to do after a frame.
pub enum SceneResult {
    /// Keep running this scene.
    Continue,
    /// Close this scene.
    Pop,
    /// Close this scene and the one under it.
    PopTwo,
    /// Open the level chooser of a directory of levels.
    PushLevelSelect { path: String },
    /// Open a level.
    PushLevel { path: String },
    /// Open a menu.
    PushMenu { path: String },
    /// Start a level over.
    ReloadLevel { path: String },
    /// Replace this scene with the death screen of a level.
    SwitchToKillScreen { path: String },
    /// Open the death screen of a level over this scene.
    PushKillScreen { path: String },
    /// Open the pause screen of a level over this scene.
    PushPause { path: String },
    /// Replace this scene with another level.
    SwitchToLevel { path: String },
}

/// The kinds of scene result, and the text of their path.
#[derive(Debug, Clone, Copy, PartialEq, Eq, Structural)]
pub enum SceneKind {
    Continue,
    Pop,
    PopTwo,
    PushLevelSelect,
    PushLevel,
    PushMenu,
    ReloadLevel,
    SwitchToKillScreen,
    PushKillScreen,
    PushPause,
    SwitchToLevel,
}

/// A scene result as the contracts see it: its kind, and its path (empty
/// for the kinds without one).
pub open spec fn scene_view(r: SceneResult) -> (SceneKind, Seq<char>) {
    match r {
        SceneResult::Continue => (SceneKind::Continue, Seq::empty()),
        SceneResult::Pop => (SceneKind::Pop, Seq::empty()),
        SceneResult::PopTwo => (SceneKind::PopTwo, Seq::empty()),
        SceneResult::PushLevelSelect { path } => (SceneKind::PushLevelSelect, path@),
        SceneResult::PushLevel { path } => (SceneKind::PushLevel, path@),
        SceneResult::PushMenu { path } => (SceneKind::PushMenu, path@),
        SceneResult::ReloadLevel { path } => (SceneKind::ReloadLevel, path@),
        SceneResult::SwitchToKillScreen { path } => (SceneKind::SwitchToKillScreen, path@),
        SceneResult::PushKillScreen { path } => (SceneKind::PushKillScreen, path@),
        SceneResult::PushPause { path } => (SceneKind::PushPause, path@),
        SceneResult::SwitchToLevel { path } => (SceneKind::SwitchToLevel, path@),
    }
}

} // verus!
