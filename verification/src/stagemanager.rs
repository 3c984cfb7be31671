//! The stack of scenes: the running scene asks, after each frame, to go on,
//! to close, or for another scene; the host loads what is asked for and
//! hands it over.
use vstd::prelude::*;

use crate::inputmanager::InputSnapshot;
use crate::killscreen::{kill_update_fits, KillScreen};
use crate::level::{level_draw_ok, level_drawn, level_update_fits, screen_of, update_ok, Level};
use crate::geometry::{fits_i32, SUBPIXELS};
use crate::rendercontext::{to_pixels, RenderContext, RenderLayer, SpriteBatchEntry};
use crate::utils::Color;
use crate::levelselect::{select_update_fits, LevelSelect};
use crate::menu::{menu_update_fits, Menu};
use crate::scene::{scene_view, SceneKind, SceneResult};
use crate::soundmanager::{Sound, SoundManager};

verus! {

/// A screen of the game.
pub enum Scene {
    Level(Box<Level>),
    Menu(Box<Menu>),
    LevelSelect(LevelSelect),
    KillScreen(Box<KillScreen>),
}

impl Scene {
    /// Whether the scene can run a frame with these inputs.
    pub open spec fn ready(&self, inputs: InputSnapshot, sounds: Seq<crate::soundmanager::Sound>) -> bool {
        match self {
            Scene::Level(l) => update_ok(**l, inputs, sounds),
            Scene::Menu(m) => m.wf(),
            Scene::LevelSelect(s) => s.wf() && s.can_handle(inputs),
            Scene::KillScreen(_) => true,
        }
    }
}

/// Whether the scene `s1`, the sounds `snd1` and the result `r` are what a
/// frame of scene `s0` gives, as the frame of its kind of scene says.
pub open spec fn scene_update_fits(s0: Scene, inputs: InputSnapshot, snd0: Seq<Sound>, s1: Scene, snd1: Seq<Sound>, r: SceneResult) -> bool {
    match (s0, s1) {
        (Scene::Level(l0), Scene::Level(l1)) => level_update_fits(*l0, inputs, snd0, *l1, snd1, r),
        (Scene::Menu(m0), Scene::Menu(m1)) => menu_update_fits(*m0, inputs, snd0, *m1, snd1, r),
        (Scene::LevelSelect(c0), Scene::LevelSelect(c1)) => select_update_fits(c0, inputs, c1, r) && snd1 == snd0,
        (Scene::KillScreen(k0), Scene::KillScreen(k1)) => k1 == k0 && kill_update_fits(*k0, inputs, r) && snd1 == snd0,
        _ => false,
    }
}

impl Scene {
    /// Runs a frame of the scene.
    pub fn update(&mut self, inputs: &InputSnapshot, sounds: &mut SoundManager) -> (r: SceneResult)
        requires
            old(self).ready(*inputs, old(sounds)@),
        ensures
            scene_update_fits(*old(self), *inputs, old(sounds)@, *final(self), final(sounds)@, r),
    {
        match self {
            Scene::Level(l) => l.update(inputs, sounds),
            Scene::Menu(m) => m.update(inputs, sounds),
            Scene::LevelSelect(s) => s.update(inputs),
            Scene::KillScreen(k) => k.update(inputs),
        }
    }
}

/// The red veil that the death screen lays over the whole display of a
/// frame.
pub open spec fn veil_entry(c: RenderContext) -> SpriteBatchEntry {
    SpriteBatchEntry::FillRect { destination: to_pixels(screen_of(c)), color: Color { r: 255, g: 0, b: 0, a: 127 } }
}

impl Scene {
    /// Whether the scene can be drawn into the frame `c`.
    pub open spec fn draw_ok(&self, c: RenderContext) -> bool {
        &&& fits_i32(c.width * SUBPIXELS)
        &&& fits_i32(c.height * SUBPIXELS)
        &&& match self {
            Scene::Level(l) => level_draw_ok(**l, c),
            Scene::Menu(m) => m.drawable(c.width, c.height),
            Scene::LevelSelect(_) => true,
            Scene::KillScreen(k) => match k.previous {
                Scene::Level(l) => level_draw_ok(*l, c),
                _ => true,
            },
        }
    }

    /// Whether `s1` and `c1` are the scene `s0` and the frame `c0` after the
    /// scene is drawn: a level draws itself; a menu draws itself; the death
    /// screen draws the level under it, if that is what it covers, and then
    /// its red veil; the level chooser, whose lines are text, draws nothing.
    pub open spec fn drawn(s0: Scene, c0: RenderContext, s1: Scene, c1: RenderContext) -> bool {
        match (s0, s1) {
            (Scene::Level(l0), Scene::Level(l1)) => level_drawn(*l0, c0, *l1, c1),
            (Scene::Menu(m0), Scene::Menu(m1)) => m1 == m0 && m0.drawn(c0, c1),
            (Scene::LevelSelect(a), Scene::LevelSelect(b)) => b == a && c1 == c0,
            (Scene::KillScreen(k0), Scene::KillScreen(k1)) => {
                &&& k1.next == k0.next
                &&& exists|cm: RenderContext| {
                    &&& #[trigger] RenderContext::with_batch(cm, c1, RenderLayer::Hud, c1.hud_batch)
                    &&& c1.hud_batch.entries@ == cm.hud_batch.entries@.push(veil_entry(c0))
                    &&& c1.hud_batch.clear_color == cm.hud_batch.clear_color
                    &&& match (k0.previous, k1.previous) {
                        (Scene::Level(a), Scene::Level(b)) => level_drawn(*a, c0, *b, cm),
                        (p0, p1) => p1 == p0 && cm == c0 && !(p0 is Level),
                    }
                }
            },
            _ => false,
        }
    }

    /// Draws the scene into the frame.
    pub fn draw(&mut self, context: &mut RenderContext)
        requires
            old(self).draw_ok(*old(context)),
        ensures
            Scene::drawn(*old(self), *old(context), *final(self), *final(context)),
    {
        match self {
            Scene::Level(l) => l.draw(context),
            Scene::Menu(m) => m.draw(context),
            Scene::LevelSelect(_) => {},
            Scene::KillScreen(k) => {
                let ghost c0 = *context;
                match &mut k.previous {
                    Scene::Level(l) => l.draw(context),
                    _ => {},
                }
                let ghost cm = *context;
                assert(cm.width == c0.width && cm.height == c0.height);
                let dest = context.logical_area_in_subpixels();
                context.fill_rect(dest, RenderLayer::Hud, Color { r: 255, g: 0, b: 0, a: 127 });
                assert(RenderContext::with_batch(cm, *context, RenderLayer::Hud, context.hud_batch));
            },
        }
    }
}

/// What the host is to do after a frame.
pub enum StageRequest {
    /// Run the next frame.
    Continue,
    /// The last scene closed: the game ends.
    Quit,
    /// Load the scene at `path` and hand it over with `install`.
    Load { kind: SceneKind, path: String },
}

/// Whether a kind of scene result asks for a scene to be loaded.
pub open spec fn is_load(kind: SceneKind) -> bool {
    !(kind is Continue || kind is Pop || kind is PopTwo)
}

/// Whether a kind of request puts the new scene over the running one.
pub open spec fn is_push(kind: SceneKind) -> bool {
    ||| kind is PushLevelSelect
    ||| kind is PushLevel
    ||| kind is PushMenu
    ||| kind is PushKillScreen
    ||| kind is PushPause
}

/// The running scene and the scenes under it, the nearest last.
pub struct StageManager {
    pub current: Scene,
    pub stack: Vec<Scene>,
}

/// The stage as the contracts see it.
pub type StageView = (Scene, Seq<Scene>);

/// The stage and the request after a scene's result: a close goes back to
/// the scene under it (or quits where there is none), a double close skips
/// one more, and the rest ask for a scene to load; starting a level over
/// first drops the scene under the running one.
pub open spec fn after_result(m: StageView, kind: SceneKind) -> (StageView, int) {
    let (cur, st) = m;
    if kind is Continue {
        (m, 0)
    } else if kind is Pop {
        if st.len() > 0 { ((st.last(), st.drop_last()), 0) } else { (m, 1) }
    } else if kind is PopTwo {
        let st1 = if st.len() > 0 { st.drop_last() } else { st };
        if st1.len() > 0 { ((st1.last(), st1.drop_last()), 0) } else { ((cur, st1), 1) }
    } else if kind is ReloadLevel {
        ((cur, if st.len() > 0 { st.drop_last() } else { st }), 2)
    } else {
        (m, 2)
    }
}

/// The stage once a loaded scene is handed over: pushed over the running
/// one, or in place of it.
pub open spec fn after_install(m: StageView, kind: SceneKind, scene: Scene) -> StageView {
    let (cur, st) = m;
    if is_push(kind) {
        (scene, st.push(cur))
    } else {
        (scene, st)
    }
}

/// Whether the stage `v` and the request `r` are what acting on `result`
/// in stage `m` gives.
pub open spec fn handled(m: StageView, result: SceneResult, v: StageView, r: StageRequest) -> bool {
    let (v2, code) = after_result(m, scene_view(result).0);
    &&& v == v2
    &&& code == 0 ==> r is Continue
    &&& code == 1 ==> r is Quit
    &&& code == 2 ==> (r matches StageRequest::Load { kind, path } && kind == scene_view(result).0
        && path@ == scene_view(result).1)
}

impl StageManager {
    pub open spec fn view(&self) -> StageView {
        (self.current, self.stack@)
    }

    /// A stage that starts with a scene, the start menu.
    pub fn new(first: Scene) -> (r: StageManager)
        ensures
            r.view() == (first, Seq::<Scene>::empty()),
    {
        StageManager { current: first, stack: Vec::new() }
    }

    /// Acts on the result of a frame of the running scene: 0 is going on,
    /// 1 quitting, 2 a scene to load.
    pub fn handle(&mut self, result: SceneResult) -> (r: StageRequest)
        ensures
            handled(old(self).view(), result, final(self).view(), r),
    {
        match result {
            SceneResult::Continue => StageRequest::Continue,
            SceneResult::Pop => {
                if let Some(next) = self.stack.pop() {
                    self.current = next;
                    StageRequest::Continue
                } else {
                    StageRequest::Quit
                }
            },
            SceneResult::PopTwo => {
                self.stack.pop();
                if let Some(next) = self.stack.pop() {
                    self.current = next;
                    StageRequest::Continue
                } else {
                    StageRequest::Quit
                }
            },
            SceneResult::PushLevelSelect { path } => StageRequest::Load { kind: SceneKind::PushLevelSelect, path },
            SceneResult::PushLevel { path } => StageRequest::Load { kind: SceneKind::PushLevel, path },
            SceneResult::PushMenu { path } => StageRequest::Load { kind: SceneKind::PushMenu, path },
            SceneResult::ReloadLevel { path } => {
                self.stack.pop();
                StageRequest::Load { kind: SceneKind::ReloadLevel, path }
            },
            SceneResult::SwitchToKillScreen { path } => StageRequest::Load { kind: SceneKind::SwitchToKillScreen, path },
            SceneResult::PushKillScreen { path } => StageRequest::Load { kind: SceneKind::PushKillScreen, path },
            SceneResult::PushPause { path } => StageRequest::Load { kind: SceneKind::PushPause, path },
            SceneResult::SwitchToLevel { path } => StageRequest::Load { kind: SceneKind::SwitchToLevel, path },
        }
    }

    /// Runs a frame of the running scene and acts on what it asks for.
    /// Draws the running scene into the frame.
    pub fn draw(&mut self, context: &mut RenderContext)
        requires
            old(self).current.draw_ok(*old(context)),
        ensures
            Scene::drawn(old(self).current, *old(context), final(self).current, *final(context)),
            final(self).stack == old(self).stack,
    {
        self.current.draw(context);
    }

    pub fn update(&mut self, inputs: &InputSnapshot, sounds: &mut SoundManager) -> (r: StageRequest)
        requires
            old(self).current.ready(*inputs, old(sounds)@),
        ensures
            exists|result: SceneResult, after: Scene|
                #[trigger] scene_update_fits(old(self).current, *inputs, old(sounds)@, after, final(sounds)@, result)
                && handled((after, old(self).stack@), result, final(self).view(), r),
    {
        let result = self.current.update(inputs, sounds);
        let ghost after = self.current;
        let ghost res = result;
        let ghost st = self.stack@;
        let ghost snd = sounds@;
        let r = self.handle(result);
        assert(scene_update_fits(old(self).current, *inputs, old(sounds)@, after, sounds@, res));
        assert(handled((after, st), res, self.view(), r));
        r
    }

    /// Hands over a scene loaded for a request of `kind`.
    pub fn install(&mut self, kind: SceneKind, scene: Scene)
        requires
            is_load(kind),
        ensures
            final(self).view() == after_install(old(self).view(), kind, scene),
    {
        match kind {
            SceneKind::PushLevelSelect | SceneKind::PushLevel | SceneKind::PushMenu | SceneKind::PushKillScreen
            | SceneKind::PushPause => {
                let mut previous = scene;
                std::mem::swap(&mut previous, &mut self.current);
                self.stack.push(previous);
            },
            _ => {
                self.current = scene;
            },
        }
    }
}

/// A scene pushed over the running one and then closed gives back the stage
/// as it was.
pub proof fn push_then_pop_restores(m: StageView, kind: SceneKind, scene: Scene)
    requires
        is_push(kind),
    ensures
        after_result(after_install(m, kind, scene), SceneKind::Pop) == (m, 0int),
{
    assert(m.1.push(m.0).drop_last() =~= m.1);
}

} // verus!
