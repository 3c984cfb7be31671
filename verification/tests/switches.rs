use purpy::switchstate::SwitchState;

#[test]
fn toggle_twice_restores_switch() {
    let mut s = SwitchState::new();
    assert!(!s.is_condition_true("red"));
    s.toggle("red");
    assert!(s.is_condition_true("red"));
    s.toggle("red");
    assert!(!s.is_condition_true("red"));
}

#[test]
fn toggle_command_flips_only_its_switch() {
    let mut s = SwitchState::new();
    s.apply_command("blue");
    s.apply_command("~red");
    assert!(s.is_condition_true("red"));
    assert!(s.is_condition_true("blue"));
    s.apply_command("~red");
    assert!(!s.is_condition_true("red"));
    assert!(s.is_condition_true("blue"));
}

#[test]
fn commands_then_conditions() {
    let mut s = SwitchState::new();
    s.apply_command("green");
    assert!(s.is_condition_true("green"));
    assert!(!s.is_condition_true("!green"));
    s.apply_command("!green");
    assert!(s.is_condition_true("!green"));
    assert!(!s.is_condition_true("green"));
}

#[test]
fn negated_condition_of_unknown_switch_holds() {
    let s = SwitchState::new();
    assert!(s.is_condition_true("!yellow"));
    assert!(!s.is_condition_true("yellow"));
}
