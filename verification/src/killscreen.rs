//! The death screen: the scene that was running, under a red veil, until
//! the player starts the level over or leaves.
use vstd::prelude::*;

use crate::inputmanager::InputSnapshot;
use crate::scene::SceneResult;
use crate::stagemanager::Scene;

verus! {

/// Whether `r` is what a frame of the death screen gives: ok starts the
/// level over, cancel leaves.
pub open spec fn kill_update_fits(k: KillScreen, inputs: InputSnapshot, r: SceneResult) -> bool {
    &&& inputs.ok_clicked ==> (r matches SceneResult::SwitchToLevel { path } && path@ == k.next@)
    &&& (!inputs.ok_clicked && inputs.cancel_clicked) ==> r is Pop
    &&& (!inputs.ok_clicked && !inputs.cancel_clicked) ==> r is Continue
}

/// The death screen over the scene the player died in.
pub struct KillScreen {
    pub previous: Scene,
    /// The level to start over.
    pub next: String,
}

impl KillScreen {
    pub fn new(previous: Scene, next: String) -> (r: KillScreen)
        ensures
            r.previous == previous,
            r.next == next,
    {
        KillScreen { previous, next }
    }

    /// Ok starts the level over, cancel leaves the death screen.
    pub fn update(&self, inputs: &InputSnapshot) -> (r: SceneResult)
        ensures
            kill_update_fits(*self, *inputs, r),
    {
        if inputs.ok_clicked {
            SceneResult::SwitchToLevel { path: self.next.clone() }
        } else if inputs.cancel_clicked {
            SceneResult::Pop
        } else {
            SceneResult::Continue
        }
    }
}

} // verus!
