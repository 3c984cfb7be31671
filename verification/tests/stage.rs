use purpy::filemanager::{DirEntry, DirEntryType};
use purpy::geometry::{Pixels, Point};
use purpy::inputmanager::InputSnapshot;
use purpy::killscreen::KillScreen;
use purpy::levelselect::{less_text, sort_by_name, LevelSelect};
use purpy::scene::{SceneKind, SceneResult};
use purpy::soundmanager::{NoopSoundPlayer, Sound, SoundManager};
use purpy::stagemanager::{Scene, StageManager, StageRequest};

fn no_input() -> InputSnapshot {
    InputSnapshot {
        ok_clicked: false,
        ok_down: false,
        cancel_clicked: false,
        player_left_down: false,
        player_right_down: false,
        player_crouch_down: false,
        player_jump_clicked: false,
        player_jump_down: false,
        menu_down_clicked: false,
        menu_up_clicked: false,
        menu_left_clicked: false,
        menu_right_clicked: false,
        mouse_button_left_down: false,
        mouse_position: Point { x: Pixels(0), y: Pixels(0) },
    }
}

fn entry(name: &str, dir: bool) -> DirEntry {
    DirEntry {
        full_path: format!("levels/{}", name),
        name: name.to_string(),
        file_type: if dir { DirEntryType::Directory } else { DirEntryType::File },
    }
}

fn chooser() -> LevelSelect {
    LevelSelect::new("levels".to_string(), vec![entry("b.tmx", false), entry("world", true), entry("a.tmx", false)])
}

#[test]
fn sorts_entries_by_name() {
    let sorted = sort_by_name(vec![entry("b", false), entry("a", true), entry("b", true), entry("B", false)]);
    let names: Vec<(&str, DirEntryType)> = sorted.iter().map(|e| (e.name.as_str(), e.file_type)).collect();
    assert_eq!(
        names,
        vec![("B", DirEntryType::File), ("a", DirEntryType::Directory), ("b", DirEntryType::File), ("b", DirEntryType::Directory)]
    );
    assert!(less_text("a", "ab"));
    assert!(!less_text("ab", "a"));
    assert!(!less_text("a", "a"));
}

#[test]
fn level_select_wraps_and_opens() {
    let mut s = chooser();
    let mut up = no_input();
    up.menu_up_clicked = true;
    assert!(matches!(s.update(&up), SceneResult::Continue));
    assert_eq!(s.current, 2);
    let mut down = no_input();
    down.menu_down_clicked = true;
    s.update(&down);
    assert_eq!(s.current, 0);
    let mut ok = no_input();
    ok.ok_clicked = true;
    assert!(matches!(s.update(&ok), SceneResult::PushLevel { path } if path == "levels/a.tmx"));
    s.update(&up);
    assert_eq!(s.current, 2);
    assert!(matches!(s.update(&ok), SceneResult::PushLevelSelect { path } if path == "levels/world"));
    let mut cancel = no_input();
    cancel.cancel_clicked = true;
    assert!(matches!(s.update(&cancel), SceneResult::Pop));
}

#[test]
fn level_select_scrolls_to_selection() {
    let entries: Vec<DirEntry> = (0..15).map(|i| entry(&format!("{:02}.tmx", i), false)).collect();
    let mut s = LevelSelect::new("levels".to_string(), entries);
    let mut up = no_input();
    up.menu_up_clicked = true;
    s.update(&up);
    assert_eq!(s.current, 14);
    assert_eq!(s.start, 4);
    let mut down = no_input();
    down.menu_down_clicked = true;
    s.update(&down);
    assert_eq!(s.current, 0);
    assert_eq!(s.start, 0);
}

#[test]
fn kill_screen_answers() {
    let k = KillScreen::new(Scene::LevelSelect(chooser()), "levels/a.tmx".to_string());
    let mut ok = no_input();
    ok.ok_clicked = true;
    assert!(matches!(k.update(&ok), SceneResult::SwitchToLevel { path } if path == "levels/a.tmx"));
    let mut cancel = no_input();
    cancel.cancel_clicked = true;
    assert!(matches!(k.update(&cancel), SceneResult::Pop));
    assert!(matches!(k.update(&no_input()), SceneResult::Continue));
}

#[test]
fn push_then_pop_restores_the_stage() {
    let mut stage = StageManager::new(Scene::LevelSelect(chooser()));
    let req = stage.handle(SceneResult::PushLevelSelect { path: "levels/world".to_string() });
    assert!(matches!(&req, StageRequest::Load { kind: SceneKind::PushLevelSelect, path } if path == "levels/world"));
    stage.install(SceneKind::PushLevelSelect, Scene::LevelSelect(LevelSelect::new("levels/world".to_string(), vec![])));
    assert_eq!(stage.stack.len(), 1);
    assert!(matches!(stage.handle(SceneResult::Pop), StageRequest::Continue));
    assert_eq!(stage.stack.len(), 0);
    assert!(matches!(&stage.current, Scene::LevelSelect(s) if s.directory == "levels"));
    assert!(matches!(stage.handle(SceneResult::Pop), StageRequest::Quit));
}

#[test]
fn stage_runs_the_current_scene() {
    let mut stage = StageManager::new(Scene::LevelSelect(chooser()));
    let mut sounds = SoundManager::noop_manager();
    let mut ok = no_input();
    ok.ok_clicked = true;
    let req = stage.update(&ok, &mut sounds);
    assert!(matches!(&req, StageRequest::Load { kind: SceneKind::PushLevel, path } if path == "levels/a.tmx"));
    let mut cancel = no_input();
    cancel.cancel_clicked = true;
    assert!(matches!(stage.update(&cancel, &mut sounds), StageRequest::Quit));
}

#[test]
fn sounds_are_collected_and_played() {
    let mut sounds = SoundManager::noop_manager();
    sounds.play(Sound::Click);
    sounds.play(Sound::Star);
    let mut player = NoopSoundPlayer::new();
    sounds.play_pending(&mut player);
    assert!(sounds.drain().is_empty());
}
