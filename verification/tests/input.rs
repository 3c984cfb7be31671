use purpy::error::Error;
use purpy::geometry::{Pixels, Point};
use purpy::inputmanager::{InputRecorder, InputSnapshot, RecordOption, TriggerInput, CachedBinaryInput, all_binary_inputs, BinaryInput};
use purpy::inputstate::{create_input, AxisZone, InputManager, InputState, JoystickAxis, JoystickButton, KeyboardKey};
use purpy::options::Args;

fn snapshot() -> InputSnapshot {
    InputSnapshot {
        ok_clicked: true,
        ok_down: false,
        cancel_clicked: true,
        player_left_down: false,
        player_right_down: true,
        player_crouch_down: false,
        player_jump_clicked: false,
        player_jump_down: true,
        menu_down_clicked: true,
        menu_up_clicked: false,
        menu_left_clicked: false,
        menu_right_clicked: false,
        mouse_button_left_down: false,
        mouse_position: Point { x: Pixels(0), y: Pixels(0) },
    }
}

#[test]
fn decode_of_encode_keeps_the_recorded_inputs() {
    let s = snapshot();
    let back = InputSnapshot::decode(s.encode());
    assert_eq!(back.ok_clicked, s.ok_clicked);
    assert_eq!(back.cancel_clicked, s.cancel_clicked);
    assert_eq!(back.player_right_down, s.player_right_down);
    assert_eq!(back.player_jump_down, s.player_jump_down);
    assert_eq!(back.menu_down_clicked, s.menu_down_clicked);
    assert_eq!(back.ok_down, s.ok_down);
}

#[test]
fn trigger_fires_in_first_frame_only() {
    let mut t = TriggerInput::new();
    t.update(true);
    assert!(t.is_on());
    t.update(true);
    assert!(!t.is_on());
    t.update(false);
    assert!(!t.is_on());
    t.update(true);
    assert!(t.is_on());
    let mut c = CachedBinaryInput::new();
    c.update(true);
    assert!(c.is_on());
    c.update(true);
    assert!(c.is_on());
}

#[test]
fn recorder_saves_and_loads() {
    let mut r = InputRecorder::new();
    let s = snapshot();
    r.record(3, &s);
    r.record(4, &s);
    let text = r.save_text();
    let word = s.encode();
    assert_eq!(text, format!("3,{}", word));
    let mut back = InputRecorder::new();
    back.load(&text).unwrap();
    assert_eq!(back.entries(), vec![(3, word)]);
    let first = back.playback(2);
    assert!(!first.ok_clicked);
    let then = back.playback(3);
    assert_eq!(then.ok_clicked, true);
}

#[test]
fn recorder_load_errors() {
    let mut r = InputRecorder::new();
    assert_eq!(r.load("1,2\n\nabc\n3,4"), Err(Error::MissingComma));
    assert_eq!(r.entries(), vec![(1, 2)]);
    assert_eq!(r.load("1,x"), Err(Error::InvalidNumber("x".to_string())));
}

#[test]
fn record_option_from_args() {
    let both = Args { fullscreen: false, record: Some("a".to_string()), playback: Some("b".to_string()), speed_test: false };
    assert_eq!(both.record_option().err(), Some(Error::ConflictingRecordOptions));
    let rec = Args { fullscreen: false, record: Some("a".to_string()), playback: None, speed_test: false };
    assert!(matches!(rec.record_option(), Ok(RecordOption::Record(p)) if p == "a"));
    let play = Args { fullscreen: false, record: None, playback: Some("b".to_string()), speed_test: false };
    assert!(matches!(play.record_option(), Ok(RecordOption::Playback(p)) if p == "b"));
    let none = Args { fullscreen: false, record: None, playback: None, speed_test: false };
    assert!(matches!(none.record_option(), Ok(RecordOption::Off)));
}

#[test]
fn all_actions_listed() {
    let all = all_binary_inputs();
    assert_eq!(all.len(), 13);
    assert_eq!(all[0], BinaryInput::OkTrigger);
    assert_eq!(all[12], BinaryInput::MouseButtonLeft);
    assert_eq!(create_input(BinaryInput::PlayerLeft).0.len(), 4);
    assert_eq!(create_input(BinaryInput::MouseButtonLeft).0.len(), 1);
}

#[test]
fn manager_maps_devices_to_actions() {
    let mut m = InputManager::with_options(640, 480, false, RecordOption::Record("r".to_string()), "").unwrap();
    m.state.set_key_down(KeyboardKey::Enter);
    m.state.set_joy_axis(JoystickAxis::Horizontal, AxisZone::Low);
    let s1 = m.update(0);
    assert!(s1.ok_clicked);
    assert!(s1.ok_down);
    assert!(s1.player_left_down);
    assert!(s1.menu_left_clicked);
    let s2 = m.update(1);
    assert!(!s2.ok_clicked);
    assert!(s2.ok_down);
    assert!(!s2.menu_left_clicked);
    m.state.set_key_up(KeyboardKey::Enter);
    m.state.set_joystick_button_down(JoystickButton::South);
    let s3 = m.update(2);
    assert!(s3.ok_clicked);
    assert!(s3.player_jump_clicked);
    assert_eq!(m.recorder.entries().len(), 3);
    assert!(m.state.is_joystick_button_down(JoystickButton::South));
    let fresh = InputState::new(1, 1, true);
    assert!(!fresh.is_key_down(KeyboardKey::Space));
}

#[test]
fn manager_plays_back() {
    let mut m = InputManager::with_options(640, 480, false, RecordOption::Playback("p".to_string()), "1,1\n").unwrap();
    assert!(!m.update(0).ok_clicked);
    assert!(m.update(1).ok_clicked);
    assert!(InputManager::with_options(1, 1, false, RecordOption::Playback("p".to_string()), "zz").is_err());
}
